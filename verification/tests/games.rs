use termplay::audio::SoundEffect;
use termplay::engine::{GameAction, Key};
use termplay::game2048::{Direction, Game2048};
use termplay::gameoflife::{CellState as LifeCell, GameOfLife, GameState, Pattern};
use termplay::minesweeper::{Cell, CellState as MsCell, MinesweeperGame};
use termplay::snake::{Position as SnakePos, SnakeDirection, SnakeGame};

fn grid_4x4(rows: [[u32; 4]; 4]) -> Vec<Vec<u32>> {
    rows.iter().map(|r| r.to_vec()).collect()
}

fn bare_2048(rows: [[u32; 4]; 4]) -> Game2048 {
    Game2048 {
        grid: grid_4x4(rows),
        score: 0,
        best_score: 0,
        game_over: false,
        won: false,
        moved: false,
    }
}

fn count_tiles(g: &Game2048) -> usize {
    g.grid
        .iter()
        .map(|r| r.iter().filter(|&&v| v != 0).count())
        .sum()
}

#[test]
fn tiles_merge_leftward() {
    let mut game = bare_2048([[2, 2, 0, 0], [4, 0, 4, 0], [2, 4, 2, 4], [0, 0, 0, 0]]);
    game.move_tiles(Direction::Left);
    assert_eq!(game.score, 12);
    assert!(game.moved);
    // The grid is the slid grid plus exactly one random tile — a two or a
    // four — on one of the cells the slide left empty.
    let slid = [[4, 0, 0, 0], [8, 0, 0, 0], [2, 4, 2, 4], [0, 0, 0, 0]];
    let mut new_tiles = Vec::new();
    for y in 0..4 {
        for x in 0..4 {
            if game.grid[y][x] != slid[y][x] {
                assert_eq!(slid[y][x], 0);
                assert!(game.grid[y][x] == 2 || game.grid[y][x] == 4);
                new_tiles.push((x, y));
            }
        }
    }
    assert_eq!(new_tiles.len(), 1);
    assert_eq!(count_tiles(&game), 7);
}

#[test]
fn merge_consumes_pairs_once() {
    let mut game = bare_2048([[2, 2, 2, 2], [0; 4], [0; 4], [0; 4]]);
    game.move_tiles(Direction::Left);
    // Two merges: [4, 4, 0, 0], not a single 8.
    assert_eq!(game.grid[0][0], 4);
    assert_eq!(game.grid[0][1], 4);
    assert_eq!(game.score, 8);
}

#[test]
fn tiles_merge_rightward() {
    let mut game = bare_2048([[2, 2, 4, 0], [0; 4], [0; 4], [0; 4]]);
    game.move_tiles(Direction::Right);
    assert_eq!(game.grid[0][2], 4);
    assert_eq!(game.grid[0][3], 4);
    assert_eq!(game.score, 4);
}

#[test]
fn tiles_merge_upward_and_downward() {
    let mut up = bare_2048([[2, 0, 0, 0], [2, 0, 0, 0], [4, 0, 0, 0], [0; 4]]);
    up.move_tiles(Direction::Up);
    assert_eq!(up.grid[0][0], 4);
    assert_eq!(up.grid[1][0], 4);
    assert_eq!(up.score, 4);

    let mut down = bare_2048([[2, 0, 0, 0], [2, 0, 0, 0], [4, 0, 0, 0], [0; 4]]);
    down.move_tiles(Direction::Down);
    assert_eq!(down.grid[3][0], 4);
    assert_eq!(down.grid[2][0], 4);
    assert_eq!(down.score, 4);
}

#[test]
fn unchanged_slide_adds_no_tile() {
    let mut game = bare_2048([[2, 4, 8, 16], [0; 4], [0; 4], [0; 4]]);
    game.move_tiles(Direction::Left);
    assert!(!game.moved);
    assert_eq!(game.score, 0);
    assert_eq!(count_tiles(&game), 4);
}

#[test]
fn reaching_the_winning_tile_sets_won() {
    let mut game = bare_2048([[1024, 1024, 0, 0], [0; 4], [0; 4], [0; 4]]);
    game.move_tiles(Direction::Left);
    assert!(game.won);
    assert_eq!(game.grid[0][0], 2048);
    assert_eq!(game.score, 2048);
}

#[test]
fn can_move_detects_dead_grids() {
    let dead = bare_2048([
        [2, 4, 2, 4],
        [4, 2, 4, 2],
        [2, 4, 2, 4],
        [4, 2, 4, 2],
    ]);
    assert!(!dead.can_move());
    let merge_left = bare_2048([
        [2, 2, 4, 8],
        [4, 8, 2, 4],
        [2, 4, 8, 2],
        [4, 2, 4, 8],
    ]);
    assert!(merge_left.can_move());
    let with_hole = bare_2048([
        [2, 4, 2, 4],
        [4, 2, 4, 2],
        [2, 4, 0, 4],
        [4, 2, 4, 2],
    ]);
    assert!(with_hole.can_move());
}

#[test]
fn best_score_tracks_score() {
    let mut game = bare_2048([[2, 2, 0, 0], [0; 4], [0; 4], [0; 4]]);
    game.best_score = 3;
    game.move_tiles(Direction::Left);
    assert_eq!(game.score, 4);
    assert_eq!(game.best_score, 4);
}

#[test]
fn restart_2048_keeps_best_score() {
    let mut game = bare_2048([[2, 2, 0, 0], [0; 4], [0; 4], [0; 4]]);
    game.move_tiles(Direction::Left);
    game.best_score = 777;
    game.restart();
    assert_eq!(game.score, 0);
    assert_eq!(game.best_score, 777);
    assert!(!game.won && !game.game_over && !game.moved);
    assert_eq!(count_tiles(&game), 2);
}

#[test]
fn fresh_2048_has_two_tiles() {
    let game = Game2048::new();
    assert_eq!(game.score, 0);
    assert!(!game.game_over);
    assert_eq!(count_tiles(&game), 2);
    for row in &game.grid {
        for &v in row {
            assert!(v == 0 || v == 2 || v == 4);
        }
    }
}

#[test]
fn wasd_keys_slide_tiles() {
    let mut game = bare_2048([[2, 2, 0, 0], [0; 4], [0; 4], [0; 4]]);
    assert_eq!(game.handle_key(Key::Char('a')), GameAction::Continue);
    assert_eq!(game.grid[0][0], 4);
    let mut quit = bare_2048([[2, 0, 0, 0], [0; 4], [0; 4], [0; 4]]);
    assert_eq!(quit.handle_key(Key::Char('q')), GameAction::Quit);
}

#[test]
fn metadata_2048() {
    let game = Game2048::new();
    assert_eq!(game.name(), "2048");
    assert_eq!(
        game.description(),
        "Slide numbered tiles to combine them and reach 2048!"
    );
    assert_eq!(game.tick_rate(), 100);
}

#[test]
fn life_new_seeds_patterns() {
    let game = GameOfLife::new();
    assert_eq!(game.grid_width, 60);
    assert_eq!(game.grid_height, 30);
    assert_eq!(game.state, GameState::Editing);
    assert_eq!(game.generation, 0);
    assert_eq!(game.speed, 3);
    assert_eq!((game.cursor_x, game.cursor_y), (30, 15));
    // The glider stamped at (30, 15).
    assert_eq!(game.cell(30, 16), LifeCell::Alive);
    assert_eq!(game.cell(31, 17), LifeCell::Alive);
    assert_eq!(game.cell(32, 15), LifeCell::Alive);
    assert_eq!(game.cell(32, 16), LifeCell::Alive);
    assert_eq!(game.cell(32, 17), LifeCell::Alive);
    // The block stamped at (40, 20).
    assert_eq!(game.cell(40, 20), LifeCell::Alive);
    assert_eq!(game.cell(41, 21), LifeCell::Alive);
}

#[test]
fn blinker_oscillates() {
    let mut game = GameOfLife::new();
    game.clear_grid();
    for x in 5..8 {
        game.toggle_cell(x, 5);
    }
    game.update_generation();
    // The horizontal bar turns vertical around its centre.
    assert_eq!(game.cell(6, 4), LifeCell::Alive);
    assert_eq!(game.cell(6, 5), LifeCell::Alive);
    assert_eq!(game.cell(6, 6), LifeCell::Alive);
    assert_eq!(game.cell(5, 5), LifeCell::Dead);
    assert_eq!(game.cell(7, 5), LifeCell::Dead);
    assert_eq!(game.generation, 1);
    game.step_forward();
    assert_eq!(game.cell(5, 5), LifeCell::Alive);
    assert_eq!(game.cell(6, 5), LifeCell::Alive);
    assert_eq!(game.cell(7, 5), LifeCell::Alive);
    assert_eq!(game.generation, 2);
}

#[test]
fn neighbor_count_is_exact() {
    let mut game = GameOfLife::new();
    game.clear_grid();
    game.toggle_cell(4, 4);
    game.toggle_cell(5, 4);
    game.toggle_cell(6, 4);
    game.toggle_cell(4, 5);
    assert_eq!(game.count_neighbors(5, 5), 4);
    assert_eq!(game.count_neighbors(5, 4), 3);
    assert_eq!(game.count_neighbors(0, 0), 0);
}

#[test]
fn toggle_outside_region_is_ignored() {
    let mut game = GameOfLife::new();
    game.clear_grid();
    game.toggle_cell(70, 5);
    assert_eq!(game.cell(70, 5), LifeCell::Dead);
    game.toggle_cell(5, 5);
    assert_eq!(game.cell(5, 5), LifeCell::Alive);
    game.toggle_cell(5, 5);
    assert_eq!(game.cell(5, 5), LifeCell::Dead);
}

#[test]
fn speed_changes_clamp() {
    let mut game = GameOfLife::new();
    game.change_speed(5);
    assert_eq!(game.speed, 5);
    assert_eq!(game.get_tick_rate(), 60);
    game.change_speed(-10);
    assert_eq!(game.speed, 1);
    assert_eq!(game.get_tick_rate(), 1000);
    game.change_speed(2);
    assert_eq!(game.speed, 3);
    assert_eq!(game.get_tick_rate(), 250);
}

#[test]
fn resize_keeps_cells_and_clamps_cursor() {
    let mut game = GameOfLife::new();
    game.clear_grid();
    game.toggle_cell(5, 5);
    game.resize_grid(40, 20);
    assert_eq!(game.grid_width, 40);
    assert_eq!(game.grid_height, 20);
    assert_eq!(game.cell(5, 5), LifeCell::Alive);
    assert_eq!(game.cursor_x, 30);
    assert_eq!(game.cursor_y, 15);
    game.resize_grid(10, 10);
    assert_eq!(game.cursor_x, 9);
    assert_eq!(game.cursor_y, 9);
    // Growing the region again leaves the shrunken area's survivors only.
    game.resize_grid(200, 100);
    assert_eq!(game.grid_width, 120);
    assert_eq!(game.grid_height, 60);
    assert_eq!(game.cell(5, 5), LifeCell::Alive);
    assert_eq!(game.cell(30, 15), LifeCell::Dead);
}

#[test]
fn stamped_pattern_respects_region() {
    let mut game = GameOfLife::new();
    game.clear_grid();
    game.place_pattern(Pattern::Block, 58, 28);
    // Only the cells inside the sixty-by-thirty region come alive.
    assert_eq!(game.cell(58, 28), LifeCell::Alive);
    assert_eq!(game.cell(59, 28), LifeCell::Alive);
    assert_eq!(game.cell(58, 29), LifeCell::Alive);
    assert_eq!(game.cell(59, 29), LifeCell::Alive);
    game.place_pattern(Pattern::Blinker, 59, 10);
    // The blinker's cells at x = 60 fall outside and are dropped.
    assert_eq!(game.cell(59, 11), LifeCell::Dead);
}

#[test]
fn life_update_runs_only_when_running() {
    let mut game = GameOfLife::new();
    game.clear_grid();
    game.state = GameState::Paused;
    assert_eq!(game.update(), GameAction::Continue);
    assert_eq!(game.generation, 0);
    game.state = GameState::Running;
    assert_eq!(game.update(), GameAction::Continue);
    assert_eq!(game.generation, 1);
}

#[test]
fn life_metadata() {
    let game = GameOfLife::new();
    assert_eq!(game.name(), "Game of Life");
    assert_eq!(
        game.description(),
        "Conway's Game of Life - Cellular automaton visualization"
    );
}

#[test]
fn fresh_minefield_is_blank() {
    let game = MinesweeperGame::new();
    assert_eq!((game.cursor_x, game.cursor_y), (8, 8));
    assert!(!game.game_over && !game.won && !game.mines_generated);
    assert_eq!(game.flags_used, 0);
    assert_eq!(game.cells_revealed, 0);
    for row in &game.grid {
        for cell in row {
            assert!(!cell.is_mine);
            assert_eq!(cell.adjacent_mines, 0);
            assert_eq!(cell.state, MsCell::Hidden);
        }
    }
}

#[test]
fn first_reveal_lays_forty_mines_away_from_the_click() {
    let mut game = MinesweeperGame::new();
    game.reveal_cell(8, 8);
    assert!(game.mines_generated);
    assert!(!game.game_over);
    assert!(game.cells_revealed >= 1);
    let mut mines = 0;
    for row in &game.grid {
        for cell in row {
            if cell.is_mine {
                mines += 1;
            }
        }
    }
    assert_eq!(mines, 40);
    for y in 7..=9 {
        for x in 7..=9 {
            assert!(!game.grid[y][x].is_mine);
        }
    }
    assert_eq!(game.grid[8][8].state, MsCell::Revealed);
}

#[test]
fn adjacency_counts_match_the_layout() {
    let mut game = MinesweeperGame::new();
    game.reveal_cell(8, 8);
    for y in 0..16usize {
        for x in 0..16usize {
            if !game.grid[y][x].is_mine {
                assert_eq!(game.grid[y][x].adjacent_mines, game.count_adjacent_mines(x, y));
            }
        }
    }
}

#[test]
fn flood_reveals_closure_of_open_cells() {
    let mut game = MinesweeperGame::new();
    game.reveal_cell(8, 8);
    // Wherever an uncovered free cell shows a zero, all its neighbours are
    // uncovered too, and no uncovered cell is a mine while the game runs.
    for y in 0..16usize {
        for x in 0..16usize {
            let c = game.grid[y][x];
            if c.state == MsCell::Revealed {
                assert!(!c.is_mine);
                if c.adjacent_mines == 0 {
                    for dy in -1i32..=1 {
                        for dx in -1i32..=1 {
                            let nx = x as i32 + dx;
                            let ny = y as i32 + dy;
                            if (0..16).contains(&nx) && (0..16).contains(&ny) {
                                assert_eq!(
                                    game.grid[ny as usize][nx as usize].state,
                                    MsCell::Revealed
                                );
                            }
                        }
                    }
                }
            }
        }
    }
}

#[test]
fn revealing_a_mine_ends_the_game() {
    let mut game = MinesweeperGame::new();
    game.reveal_cell(0, 0);
    let mut mine_at = None;
    for y in 0..16usize {
        for x in 0..16usize {
            if game.grid[y][x].is_mine && game.grid[y][x].state == MsCell::Hidden {
                mine_at = Some((x, y));
            }
        }
    }
    let (mx, my) = mine_at.expect("a hidden mine must exist");
    game.reveal_cell(mx, my);
    assert!(game.game_over);
    for row in &game.grid {
        for cell in row {
            if cell.is_mine {
                assert_eq!(cell.state, MsCell::Revealed);
            }
        }
    }
}

#[test]
fn flags_toggle_and_respect_the_budget() {
    let mut game = MinesweeperGame::new();
    game.toggle_flag(3, 3);
    assert_eq!(game.grid[3][3].state, MsCell::Flagged);
    assert_eq!(game.flags_used, 1);
    game.toggle_flag(3, 3);
    assert_eq!(game.grid[3][3].state, MsCell::Hidden);
    assert_eq!(game.flags_used, 0);
    // Fill the whole budget; the forty-first flag is refused.
    let mut planted = 0;
    'outer: for y in 0..16usize {
        for x in 0..16usize {
            if planted == 40 {
                break 'outer;
            }
            game.toggle_flag(x, y);
            planted += 1;
        }
    }
    assert_eq!(game.flags_used, 40);
    game.toggle_flag(15, 15);
    assert_eq!(game.grid[15][15].state, MsCell::Hidden);
    assert_eq!(game.flags_used, 40);
}

#[test]
fn cell_labels() {
    let hidden = Cell {
        is_mine: false,
        adjacent_mines: 0,
        state: MsCell::Hidden,
    };
    assert_eq!(MinesweeperGame::get_cell_text(&hidden), " ");
    let flagged = Cell {
        is_mine: false,
        adjacent_mines: 0,
        state: MsCell::Flagged,
    };
    assert_eq!(MinesweeperGame::get_cell_text(&flagged), "F");
    let mine = Cell {
        is_mine: true,
        adjacent_mines: 0,
        state: MsCell::Revealed,
    };
    assert_eq!(MinesweeperGame::get_cell_text(&mine), "*");
    let three = Cell {
        is_mine: false,
        adjacent_mines: 3,
        state: MsCell::Revealed,
    };
    assert_eq!(MinesweeperGame::get_cell_text(&three), "3");
    let open = Cell {
        is_mine: false,
        adjacent_mines: 0,
        state: MsCell::Revealed,
    };
    assert_eq!(MinesweeperGame::get_cell_text(&open), " ");
}

#[test]
fn adjacent_mine_counting_by_hand() {
    let mut game = MinesweeperGame::new();
    game.grid[4][4].is_mine = true;
    game.grid[4][6].is_mine = true;
    game.grid[6][5].is_mine = true;
    assert_eq!(game.count_adjacent_mines(5, 5), 3);
    assert_eq!(game.count_adjacent_mines(5, 4), 2);
    assert_eq!(game.count_adjacent_mines(0, 0), 0);
    assert_eq!(game.count_adjacent_mines(5, 7), 1);
}

#[test]
fn minesweeper_cursor_moves() {
    let mut game = MinesweeperGame::new();
    assert_eq!(game.handle_key(Key::Up), GameAction::Continue);
    assert_eq!((game.cursor_x, game.cursor_y), (8, 7));
    game.handle_key(Key::Left);
    assert_eq!((game.cursor_x, game.cursor_y), (7, 7));
    for _ in 0..20 {
        game.handle_key(Key::Right);
    }
    assert_eq!(game.cursor_x, 15);
    assert_eq!(game.handle_key(Key::Char('q')), GameAction::Quit);
}

#[test]
fn minesweeper_restart_resets() {
    let mut game = MinesweeperGame::new();
    game.reveal_cell(8, 8);
    game.restart();
    assert!(!game.mines_generated);
    assert_eq!(game.cells_revealed, 0);
    for row in &game.grid {
        for cell in row {
            assert_eq!(cell.state, MsCell::Hidden);
        }
    }
}

#[test]
fn minesweeper_metadata() {
    let game = MinesweeperGame::new();
    assert_eq!(game.name(), "Minesweeper");
    assert_eq!(game.description(), "Classic mine detection game");
    assert_eq!(game.tick_rate(), 100);
}

fn bare_snake(segments: Vec<(u16, u16)>, dir: SnakeDirection, food: (u16, u16)) -> SnakeGame {
    SnakeGame {
        snake: segments.into_iter().map(|(x, y)| SnakePos { x, y }).collect(),
        direction: dir,
        food: SnakePos {
            x: food.0,
            y: food.1,
        },
        score: 0,
        game_over: false,
        width: 40,
        height: 20,
        sounds: Vec::new(),
    }
}

#[test]
fn snake_moves_ahead() {
    let mut game = bare_snake(vec![(20, 10)], SnakeDirection::Right, (0, 0));
    game.move_snake();
    assert_eq!(game.snake, vec![SnakePos { x: 21, y: 10 }]);
    assert_eq!(game.score, 0);
    assert!(!game.game_over);
}

#[test]
fn snake_eats_and_grows() {
    let mut game = bare_snake(vec![(20, 10)], SnakeDirection::Right, (21, 10));
    game.move_snake();
    assert_eq!(game.snake.len(), 2);
    assert_eq!(game.snake[0], SnakePos { x: 21, y: 10 });
    assert_eq!(game.score, 10);
    assert_eq!(game.take_sounds(), vec![SoundEffect::SnakeEat]);
    assert!(!game.snake.contains(&game.food));
    assert!(game.food.x < 40 && game.food.y < 20);
}

#[test]
fn snake_dies_on_the_wall() {
    let mut game = bare_snake(vec![(39, 10)], SnakeDirection::Right, (0, 0));
    game.move_snake();
    assert!(game.game_over);
    assert_eq!(game.snake, vec![SnakePos { x: 39, y: 10 }]);
    assert_eq!(game.take_sounds(), vec![SoundEffect::SnakeGameOver]);
}

#[test]
fn snake_dies_on_itself() {
    let mut game = bare_snake(
        vec![(5, 5), (6, 5), (6, 6), (5, 6)],
        SnakeDirection::Down,
        (0, 0),
    );
    game.move_snake();
    assert!(game.game_over);
}

#[test]
fn snake_cannot_reverse() {
    let mut game = bare_snake(vec![(20, 10)], SnakeDirection::Right, (0, 0));
    game.handle_key(Key::Left);
    assert_eq!(game.direction, SnakeDirection::Right);
    game.handle_key(Key::Up);
    assert_eq!(game.direction, SnakeDirection::Up);
    game.handle_key(Key::Down);
    assert_eq!(game.direction, SnakeDirection::Up);
}

#[test]
fn snake_resize_clamps_segments() {
    let mut game = bare_snake(vec![(39, 19)], SnakeDirection::Right, (0, 0));
    game.update_dimensions(20, 10);
    assert_eq!(game.width, 20);
    assert_eq!(game.height, 10);
    assert_eq!(game.snake[0], SnakePos { x: 19, y: 9 });
}

#[test]
fn fresh_snake() {
    let game = SnakeGame::new();
    assert_eq!(game.snake.len(), 1);
    assert_eq!(game.snake[0], SnakePos { x: 20, y: 10 });
    assert_eq!(game.direction, SnakeDirection::Right);
    assert!(!game.snake.contains(&game.food));
    assert_eq!(game.name(), "snake");
    assert_eq!(game.description(), "Classic Snake game");
    assert_eq!(game.tick_rate(), 150);
}

#[test]
fn life_keys_drive_the_simulation() {
    let mut game = GameOfLife::new();
    game.clear_grid();
    // Editing: the cursor moves and the camera follows.
    assert_eq!(game.handle_key(Key::Left), GameAction::Continue);
    assert_eq!((game.cursor_x, game.camera_x), (29, 29));
    // Enter toggles the cell under the cursor.
    game.handle_key(Key::Enter);
    assert_eq!(game.cell(29, 15), LifeCell::Alive);
    // 'p' starts the run; navigation then moves the camera, not the cursor.
    game.handle_key(Key::Char('p'));
    assert_eq!(game.state, GameState::Running);
    game.handle_key(Key::Up);
    assert_eq!(game.cursor_y, 15);
    assert_eq!(game.camera_y, 14);
    // 'n' steps only while not running.
    game.handle_key(Key::Char('n'));
    assert_eq!(game.generation, 0);
    game.handle_key(Key::Char('p'));
    game.handle_key(Key::Char('n'));
    assert_eq!(game.generation, 1);
    // A preset size.
    game.handle_key(Key::F(1));
    assert_eq!((game.grid_width, game.grid_height), (40, 20));
    assert_eq!(game.handle_key(Key::Char('q')), GameAction::Quit);
}

#[test]
fn life_stamp_keys_work_in_editing_mode_only() {
    let mut game = GameOfLife::new();
    game.clear_grid();
    game.state = GameState::Paused;
    game.handle_key(Key::Char('3'));
    assert_eq!(game.cell(30, 15), LifeCell::Dead);
    game.state = GameState::Editing;
    game.handle_key(Key::Char('3'));
    assert_eq!(game.cell(30, 15), LifeCell::Alive);
    assert_eq!(game.cell(31, 16), LifeCell::Alive);
}
