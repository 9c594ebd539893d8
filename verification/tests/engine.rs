use termplay::engine::{ends_loop, poll_timeout, tick_due, GameAction, GameInfo};

#[test]
fn game_info_holds_its_fields() {
    let info = GameInfo::new("tetris".to_string(), "Classic Tetris with line clearing".to_string());
    assert_eq!(info.name, "tetris");
    assert_eq!(info.description, "Classic Tetris with line clearing");
}

#[test]
fn poll_timeout_is_time_left_until_the_tick() {
    assert_eq!(poll_timeout(250, 100), 150);
    assert_eq!(poll_timeout(250, 250), 0);
    assert_eq!(poll_timeout(250, 400), 0);
    assert_eq!(poll_timeout(50, 0), 50);
}

#[test]
fn tick_due_at_the_boundary() {
    assert!(!tick_due(250, 249));
    assert!(tick_due(250, 250));
    assert!(tick_due(250, 251));
}

#[test]
fn only_continue_keeps_the_loop_running() {
    assert!(!ends_loop(&GameAction::Continue));
    assert!(ends_loop(&GameAction::Quit));
    assert!(ends_loop(&GameAction::GameOver));
}
