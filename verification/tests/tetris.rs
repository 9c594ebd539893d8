use termplay::audio::SoundEffect;
use termplay::engine::{GameAction, Key};
use termplay::tetris::{Piece, PieceType, Position, TetrisGame};

fn empty_board() -> Vec<Vec<Option<PieceType>>> {
    let mut board = Vec::new();
    for _ in 0..20 {
        let mut row = Vec::new();
        for _ in 0..10 {
            row.push(None);
        }
        board.push(row);
    }
    board
}

fn bare_game() -> TetrisGame {
    TetrisGame {
        board: empty_board(),
        current_piece: None,
        next_piece: PieceType::O,
        score: 0,
        lines_cleared: 0,
        level: 1,
        game_over: false,
        drop_timer: 0,
        tetris_celebration: 0,
        sounds: Vec::new(),
    }
}

fn piece(t: PieceType, x: i32, y: i32, rotation: usize) -> Piece {
    Piece {
        piece_type: t,
        position: Position { x, y },
        rotation,
    }
}

#[test]
fn rotation_four_times_is_identity() {
    for t in [
        PieceType::I,
        PieceType::O,
        PieceType::T,
        PieceType::S,
        PieceType::Z,
        PieceType::J,
        PieceType::L,
    ] {
        let p = piece(t, 4, 0, 0);
        let r4 = p.rotated().rotated().rotated().rotated();
        assert_eq!(r4, p);
        let mut a = p.get_blocks();
        let mut b = r4.get_blocks();
        a.sort_by_key(|q| (q.y, q.x));
        b.sort_by_key(|q| (q.y, q.x));
        assert_eq!(a, b);
    }
}

#[test]
fn shape_table_of_line_piece() {
    let s = PieceType::I.get_shape();
    assert_eq!(s.len(), 4);
    for row in &s {
        assert_eq!(row.len(), 4);
    }
    assert_eq!(s[0], vec![false, false, false, false]);
    assert_eq!(s[1], vec![true, true, true, true]);
    assert_eq!(s[2], vec![false, false, false, false]);
}

#[test]
fn square_piece_blocks() {
    let p = piece(PieceType::O, 4, 0, 0);
    let mut blocks = p.get_blocks();
    blocks.sort_by_key(|q| (q.y, q.x));
    assert_eq!(
        blocks,
        vec![
            Position { x: 4, y: 0 },
            Position { x: 5, y: 0 },
            Position { x: 4, y: 1 },
            Position { x: 5, y: 1 },
        ]
    );
}

#[test]
fn invalid_move_leaves_state_unchanged() {
    let mut game = bare_game();
    game.current_piece = Some(piece(PieceType::O, 0, 5, 0));
    let before = game.current_piece;
    let moved = game.move_piece(-1, 0);
    assert!(!moved);
    assert_eq!(game.current_piece, before);
    assert_eq!(game.score, 0);
    assert!(game.sounds.is_empty());
}

#[test]
fn invalid_rotation_leaves_state_unchanged() {
    // On an open board the lying I piece rotates into a vertical bar.
    let mut game = bare_game();
    game.current_piece = Some(piece(PieceType::I, 4, 5, 0));
    assert!(game.rotate_piece());
    // With a settled cell in the bar's column the same rotation is refused.
    let mut game2 = bare_game();
    game2.current_piece = Some(piece(PieceType::I, 4, 5, 0));
    game2.board[7][6] = Some(PieceType::J);
    let before = game2.current_piece;
    let turned = game2.rotate_piece();
    assert!(!turned);
    assert_eq!(game2.current_piece, before);
    assert!(game2.sounds.is_empty());
}

#[test]
fn valid_move_shifts_piece() {
    let mut game = bare_game();
    game.current_piece = Some(piece(PieceType::T, 4, 0, 0));
    assert!(game.move_piece(1, 0));
    assert_eq!(game.current_piece.unwrap().position, Position { x: 5, y: 0 });
    assert_eq!(game.sounds, vec![SoundEffect::TetrisMove]);
}

#[test]
fn line_clear_shifts_rows_down() {
    let mut game = bare_game();
    // Row 17 holds a marker, row 18 is full, row 19 is partially filled.
    game.board[17][3] = Some(PieceType::S);
    for x in 0..10 {
        game.board[18][x] = Some(PieceType::I);
    }
    game.board[19][0] = Some(PieceType::Z);
    game.clear_lines();
    assert_eq!(game.lines_cleared, 1);
    assert_eq!(game.level, 1);
    assert_eq!(game.score, 40);
    // The full row is gone: rows above shifted down by one.
    assert_eq!(game.board[18][3], Some(PieceType::S));
    assert_eq!(game.board[17][3], None);
    // The row below the cleared one is untouched.
    assert_eq!(game.board[19][0], Some(PieceType::Z));
    assert_eq!(game.board[0], vec![None; 10]);
}

#[test]
fn score_table_for_each_clear_count() {
    let expected: [(usize, u32); 4] = [(1, 40), (2, 100), (3, 300), (4, 1200)];
    for (n, points) in expected {
        let mut game = bare_game();
        for y in 20 - n..20 {
            for x in 0..10 {
                game.board[y][x] = Some(PieceType::L);
            }
        }
        game.clear_lines();
        assert_eq!(game.lines_cleared, n as u32);
        let level_after = game.level;
        assert_eq!(game.score, points * level_after);
    }
}

#[test]
fn score_table_scales_with_level() {
    let mut game = bare_game();
    game.lines_cleared = 95;
    game.level = 10;
    for x in 0..10 {
        game.board[19][x] = Some(PieceType::T);
    }
    game.clear_lines();
    // 96 lines: the level stays 96 / 10 + 1 = 10, and one row pays 40 * 10.
    assert_eq!(game.level, 10);
    assert_eq!(game.score, 400);
}

#[test]
fn zero_clears_award_nothing() {
    let mut game = bare_game();
    game.board[19][0] = Some(PieceType::T);
    game.clear_lines();
    assert_eq!(game.score, 0);
    assert_eq!(game.lines_cleared, 0);
    assert!(game.sounds.is_empty());
}

#[test]
fn leveling_formula_after_clears() {
    for lines in [0u32, 9, 10, 19, 20, 99] {
        let mut game = bare_game();
        game.lines_cleared = lines;
        game.level = lines / 10 + 1;
        for x in 0..10 {
            game.board[19][x] = Some(PieceType::J);
        }
        game.clear_lines();
        assert_eq!(game.lines_cleared, lines + 1);
        assert_eq!(game.level, (lines + 1) / 10 + 1);
    }
}

#[test]
fn drop_interval_follows_level() {
    let expected: [(u32, u32); 4] = [(1, 20), (10, 11), (20, 1), (25, 1)];
    for (level, interval) in expected {
        let mut game = bare_game();
        game.lines_cleared = (level - 1) * 10;
        game.level = level;
        assert_eq!(game.get_drop_interval(), interval);
    }
}

#[test]
fn blocked_spawn_ends_the_game() {
    let mut game = bare_game();
    // Fill the whole spawn area so every piece kind collides.
    for y in 0..4 {
        for x in 4..8 {
            game.board[y][x] = Some(PieceType::Z);
        }
    }
    let board_before = game.board.clone();
    game.spawn_piece();
    assert!(game.game_over);
    assert_eq!(game.board, board_before);
    assert_eq!(game.sounds, vec![SoundEffect::TetrisGameOver]);
}

#[test]
fn open_spawn_places_piece_at_anchor() {
    let mut game = bare_game();
    game.next_piece = PieceType::T;
    game.spawn_piece();
    assert!(!game.game_over);
    let p = game.current_piece.unwrap();
    assert_eq!(p.piece_type, PieceType::T);
    assert_eq!(p.position, Position { x: 4, y: 0 });
    assert_eq!(p.rotation, 0);
}

#[test]
fn bottom_row_clear_end_to_end() {
    let mut game = bare_game();
    for x in 0..8 {
        game.board[19][x] = Some(PieceType::I);
    }
    // A square piece resting just above the floor, closing columns 8 and 9.
    game.current_piece = Some(piece(PieceType::O, 8, 18, 0));
    game.drop_piece();
    assert_eq!(game.lines_cleared, 1);
    assert_eq!(game.level, 1);
    assert_eq!(game.score, 40);
    // The cleared bottom row inherits the remains of the row above: the two
    // square cells that stood in row 18.
    for x in 0..8 {
        assert_eq!(game.board[19][x], None);
    }
    assert_eq!(game.board[19][8], Some(PieceType::O));
    assert_eq!(game.board[19][9], Some(PieceType::O));
    assert_eq!(game.board[18], vec![None; 10]);
    assert!(game.sounds.contains(&SoundEffect::TetrisPieceDrop));
    assert!(game.sounds.contains(&SoundEffect::TetrisLineClear));
}

#[test]
fn hard_drop_scores_two_per_row() {
    let mut game = bare_game();
    game.current_piece = Some(piece(PieceType::O, 4, 0, 0));
    game.hard_drop();
    // The square falls 18 rows and locks on the floor.
    assert_eq!(game.score, 36);
    assert_eq!(game.board[18][4], Some(PieceType::O));
    assert_eq!(game.board[18][5], Some(PieceType::O));
    assert_eq!(game.board[19][4], Some(PieceType::O));
    assert_eq!(game.board[19][5], Some(PieceType::O));
    assert!(game.sounds.contains(&SoundEffect::TetrisHardDrop));
    assert!(game.sounds.contains(&SoundEffect::TetrisPieceDrop));
}

#[test]
fn four_row_clear_celebrates() {
    let mut game = bare_game();
    for y in 16..20 {
        for x in 0..10 {
            game.board[y][x] = Some(PieceType::I);
        }
    }
    game.clear_lines();
    assert_eq!(game.lines_cleared, 4);
    assert_eq!(game.score, 1200);
    assert_eq!(game.tetris_celebration, 120);
    assert_eq!(game.sounds, vec![SoundEffect::TetrisTetris]);
}

#[test]
fn soft_drop_scores_one() {
    let mut game = bare_game();
    game.current_piece = Some(piece(PieceType::T, 4, 0, 0));
    let action = game.handle_key(Key::Down);
    assert_eq!(action, GameAction::Continue);
    assert_eq!(game.score, 1);
    assert_eq!(game.current_piece.unwrap().position, Position { x: 4, y: 1 });
}

#[test]
fn quit_key_quits() {
    let mut game = bare_game();
    assert_eq!(game.handle_key(Key::Char('q')), GameAction::Quit);
    let mut over = bare_game();
    over.game_over = true;
    assert_eq!(over.handle_key(Key::Char('q')), GameAction::Quit);
}

#[test]
fn unmapped_key_is_ignored() {
    let mut game = bare_game();
    game.current_piece = Some(piece(PieceType::T, 4, 0, 0));
    let before_piece = game.current_piece;
    let before_score = game.score;
    assert_eq!(game.handle_key(Key::Char('z')), GameAction::Continue);
    assert_eq!(game.current_piece, before_piece);
    assert_eq!(game.score, before_score);
}

#[test]
fn restart_after_game_over() {
    let mut game = bare_game();
    game.game_over = true;
    game.score = 999;
    let action = game.handle_key(Key::Char('r'));
    assert_eq!(action, GameAction::Continue);
    assert!(!game.game_over);
    assert_eq!(game.score, 0);
    assert_eq!(game.lines_cleared, 0);
    assert_eq!(game.level, 1);
    assert!(game.current_piece.is_some());
}

#[test]
fn update_ticks_gravity_at_the_interval() {
    let mut game = bare_game();
    game.current_piece = Some(piece(PieceType::T, 4, 0, 0));
    // Level one: the drop interval is twenty ticks.
    for _ in 0..19 {
        assert_eq!(game.update(), GameAction::Continue);
    }
    assert_eq!(game.current_piece.unwrap().position.y, 0);
    assert_eq!(game.drop_timer, 19);
    game.update();
    assert_eq!(game.current_piece.unwrap().position.y, 1);
    assert_eq!(game.drop_timer, 0);
}

#[test]
fn update_does_nothing_after_game_over() {
    let mut game = bare_game();
    game.game_over = true;
    game.drop_timer = 7;
    assert_eq!(game.update(), GameAction::Continue);
    assert_eq!(game.drop_timer, 7);
}

#[test]
fn take_sounds_drains_the_queue() {
    let mut game = bare_game();
    game.current_piece = Some(piece(PieceType::T, 4, 0, 0));
    game.move_piece(1, 0);
    let sounds = game.take_sounds();
    assert_eq!(sounds, vec![SoundEffect::TetrisMove]);
    assert!(game.take_sounds().is_empty());
}

#[test]
fn fresh_game_is_well_formed() {
    let game = TetrisGame::new();
    assert_eq!(game.score, 0);
    assert_eq!(game.lines_cleared, 0);
    assert_eq!(game.level, 1);
    assert!(!game.game_over);
    assert!(game.current_piece.is_some());
    assert!(game.has_headroom());
    for row in &game.board {
        for cell in row {
            assert_eq!(*cell, None);
        }
    }
}

#[test]
fn registry_metadata() {
    let game = TetrisGame::new();
    assert_eq!(game.name(), "tetris");
    assert_eq!(game.description(), "Classic Tetris with line clearing");
    assert_eq!(game.tick_rate(), 50);
}
