//! Conway's cellular automaton on a bounded grid: a fixed maximal board,
//! an active region that can be resized, seed patterns, and the two-state
//! update rule applied generation by generation.

use vstd::prelude::*;

use crate::engine::{GameAction, Key};
use crate::rng::random_below;

verus! {

/// Widest active region the grid supports.
pub const MAX_GRID_WIDTH: usize = 120;

/// Tallest active region the grid supports.
pub const MAX_GRID_HEIGHT: usize = 60;

/// One cell of the automaton.
#[derive(Debug, Clone, Copy, PartialEq, Eq, Structural)]
pub enum CellState {
    Dead,
    Alive,
}

/// What the simulation is doing: halted, running the rule on every tick,
/// or letting the player edit cells.
#[derive(Debug, Clone, Copy, PartialEq, Eq, Structural)]
pub enum GameState {
    Paused,
    Running,
    Editing,
}

/// The seed patterns the player can stamp onto the grid.
#[derive(Debug, Clone, Copy, PartialEq, Eq, Structural)]
pub enum Pattern {
    Glider,
    Blinker,
    Block,
    Toad,
    Beacon,
    Pulsar,
}

/// The grid as a mathematical value.
pub open spec fn life_rows(g: Vec<Vec<CellState>>) -> Seq<Seq<CellState>> {
    g@.map_values(|row: Vec<CellState>| row@)
}

/// The cell offsets of a seed pattern, as (x, y) displacements from the
/// stamp anchor.
pub open spec fn pattern_cells(p: Pattern) -> Seq<(int, int)> {
    match p {
        Pattern::Glider => seq![(0int, 1int), (1int, 2int), (2int, 0int), (2int, 1int), (2int, 2int)],
        Pattern::Blinker => seq![(1int, 0int), (1int, 1int), (1int, 2int)],
        Pattern::Block => seq![(0int, 0int), (0int, 1int), (1int, 0int), (1int, 1int)],
        Pattern::Toad => seq![(1int, 1int), (1int, 2int), (1int, 3int), (2int, 0int), (2int, 1int), (2int, 2int)],
        Pattern::Beacon => seq![(0int, 0int), (0int, 1int), (1int, 0int), (1int, 1int), (2int, 2int), (2int, 3int), (3int, 2int), (3int, 3int)],
        Pattern::Pulsar => seq![(2int, 4int), (2int, 5int), (2int, 6int), (2int, 10int), (2int, 11int), (2int, 12int), (4int, 2int), (4int, 7int), (4int, 9int), (4int, 14int), (5int, 2int), (5int, 7int), (5int, 9int), (5int, 14int), (6int, 2int), (6int, 7int), (6int, 9int), (6int, 14int), (7int, 4int), (7int, 5int), (7int, 6int), (7int, 10int), (7int, 11int), (7int, 12int), (9int, 4int), (9int, 5int), (9int, 6int), (9int, 10int), (9int, 11int), (9int, 12int), (10int, 2int), (10int, 7int), (10int, 9int), (10int, 14int), (11int, 2int), (11int, 7int), (11int, 9int), (11int, 14int), (12int, 2int), (12int, 7int), (12int, 9int), (12int, 14int), (14int, 4int), (14int, 5int), (14int, 6int), (14int, 10int), (14int, 11int), (14int, 12int)],
    }
}

/// One as an integer when the cell at (`x`, `y`) lies in the active region
/// and is alive, zero otherwise.
pub open spec fn alive_at(b: Seq<Seq<CellState>>, w: int, h: int, x: int, y: int) -> int {
    if 0 <= x < w && 0 <= y < h && b[y][x] is Alive {
        1
    } else {
        0
    }
}

/// How many of the eight neighbours of (`x`, `y`) are alive inside the
/// active region.
pub open spec fn neighbor_count_spec(
    b: Seq<Seq<CellState>>,
    w: int,
    h: int,
    x: int,
    y: int,
) -> int {
    alive_at(b, w, h, x - 1, y - 1) + alive_at(b, w, h, x, y - 1) + alive_at(b, w, h, x + 1, y - 1)
        + alive_at(b, w, h, x - 1, y) + alive_at(b, w, h, x + 1, y) + alive_at(
        b,
        w,
        h,
        x - 1,
        y + 1,
    ) + alive_at(b, w, h, x, y + 1) + alive_at(b, w, h, x + 1, y + 1)
}

/// The rule of the automaton: a live cell survives with two or three live
/// neighbours, a dead cell is born with exactly three.
pub open spec fn life_rule(cur: CellState, n: int) -> CellState {
    match cur {
        CellState::Alive => if n == 2 || n == 3 {
            CellState::Alive
        } else {
            CellState::Dead
        },
        CellState::Dead => if n == 3 {
            CellState::Alive
        } else {
            CellState::Dead
        },
    }
}

/// The grid after stamping a pattern at (`sx`, `sy`): pattern cells that
/// land inside the active region come alive, everything else is kept.
pub open spec fn stamped(
    b: Seq<Seq<CellState>>,
    p: Pattern,
    sx: int,
    sy: int,
    w: int,
    h: int,
) -> Seq<Seq<CellState>> {
    Seq::new(
        60,
        |y: int|
            Seq::new(
                120,
                |x: int|
                    if x < w && y < h && (exists|i: int|
                        0 <= i < pattern_cells(p).len() && sx + (#[trigger] pattern_cells(p)[i]).0
                            == x && sy + pattern_cells(p)[i].1 == y) {
                        CellState::Alive
                    } else {
                        b[y][x]
                    },
            ),
    )
}

/// The all-dead grid at full size.
pub open spec fn dead_grid() -> Seq<Seq<CellState>> {
    Seq::new(60, |y: int| Seq::new(120, |x: int| CellState::Dead))
}

/// The effect of one navigation step: while editing the cursor moves one
/// cell, stopped at the region's edge, and the camera follows it on the
/// moved axis; otherwise the camera alone moves the same way.
pub open spec fn life_nav_rel(pre: GameOfLife, post: GameOfLife, dx: int, dy: int) -> bool {
    &&& post.grid == pre.grid
    &&& post.state == pre.state
    &&& post.generation == pre.generation
    &&& post.speed == pre.speed
    &&& post.grid_width == pre.grid_width
    &&& post.grid_height == pre.grid_height
    &&& (if pre.state is Editing {
        let cx2 = if 0 <= pre.cursor_x + dx < pre.grid_width {
            pre.cursor_x + dx
        } else {
            pre.cursor_x as int
        };
        let cy2 = if 0 <= pre.cursor_y + dy < pre.grid_height {
            pre.cursor_y + dy
        } else {
            pre.cursor_y as int
        };
        &&& post.cursor_x as int == cx2
        &&& post.cursor_y as int == cy2
        &&& post.camera_x as int == (if dx != 0 && 0 <= pre.cursor_x + dx < pre.grid_width {
            cx2
        } else {
            pre.camera_x as int
        })
        &&& post.camera_y as int == (if dy != 0 && 0 <= pre.cursor_y + dy < pre.grid_height {
            cy2
        } else {
            pre.camera_y as int
        })
    } else {
        &&& post.cursor_x == pre.cursor_x
        &&& post.cursor_y == pre.cursor_y
        &&& post.camera_x as int == (if 0 <= pre.camera_x + dx < pre.grid_width {
            pre.camera_x + dx
        } else {
            pre.camera_x as int
        })
        &&& post.camera_y as int == (if 0 <= pre.camera_y + dy < pre.grid_height {
            pre.camera_y + dy
        } else {
            pre.camera_y as int
        })
    })
}

/// The fields a grid-shaping operation never touches.
pub open spec fn life_frame(pre: GameOfLife, post: GameOfLife) -> bool {
    &&& post.state == pre.state
    &&& post.cursor_x == pre.cursor_x
    &&& post.cursor_y == pre.cursor_y
    &&& post.camera_x == pre.camera_x
    &&& post.camera_y == pre.camera_y
    &&& post.speed == pre.speed
    &&& post.grid_width == pre.grid_width
    &&& post.grid_height == pre.grid_height
}

/// The effect of one automaton step, as `update_generation` leaves it.
pub open spec fn life_step_rel(pre: GameOfLife, post: GameOfLife) -> bool {
    &&& life_frame(pre, post)
    &&& post.generation == pre.generation + 1
    &&& forall|y: int, x: int|
        0 <= y < 60 && 0 <= x < 120 ==> #[trigger] post.rows()[y][x] == (if x
            < pre.grid_width as int && y < pre.grid_height as int {
            life_rule(
                pre.rows()[y][x],
                neighbor_count_spec(
                    pre.rows(),
                    pre.grid_width as int,
                    pre.grid_height as int,
                    x,
                    y,
                ),
            )
        } else {
            CellState::Dead
        })
}

/// The effect of clearing the active region.
pub open spec fn life_clear_rel(pre: GameOfLife, post: GameOfLife) -> bool {
    &&& life_frame(pre, post)
    &&& post.generation == 0
    &&& forall|y: int, x: int|
        0 <= y < 60 && 0 <= x < 120 ==> #[trigger] post.rows()[y][x] == (if x
            < pre.grid_width as int && y < pre.grid_height as int {
            CellState::Dead
        } else {
            pre.rows()[y][x]
        })
}

/// The effect of repopulating the active region at random: whatever fell
/// inside, the outside is untouched and the generation count restarts.
pub open spec fn life_random_rel(pre: GameOfLife, post: GameOfLife) -> bool {
    &&& life_frame(pre, post)
    &&& post.generation == 0
    &&& forall|y: int, x: int|
        0 <= y < 60 && 0 <= x < 120 && !(x < pre.grid_width as int && y
            < pre.grid_height as int) ==> #[trigger] post.rows()[y][x] == pre.rows()[y][x]
}

/// The effect of stamping a pattern at the cursor while editing.
pub open spec fn life_stamp_rel(pre: GameOfLife, post: GameOfLife, p: Pattern) -> bool {
    &&& life_frame(pre, post)
    &&& post.generation == pre.generation
    &&& post.rows() =~= stamped(
        pre.rows(),
        p,
        pre.cursor_x as int,
        pre.cursor_y as int,
        pre.grid_width as int,
        pre.grid_height as int,
    )
}

/// The effect of one preset resize, as `resize_grid` leaves it.
pub open spec fn life_resize_rel(pre: GameOfLife, post: GameOfLife, w: int, h: int) -> bool {
    &&& post.grid_width as int == w
    &&& post.grid_height as int == h
    &&& post.generation == 0
    &&& post.state == pre.state
    &&& post.speed == pre.speed
    &&& forall|y: int, x: int|
        0 <= y < 60 && 0 <= x < 120 ==> #[trigger] post.rows()[y][x] == (if x < w && x
            < pre.grid_width as int && y < h && y < pre.grid_height as int {
            pre.rows()[y][x]
        } else {
            CellState::Dead
        })
}

/// What one key press does, per key and per mode.
pub open spec fn life_key_rel(
    pre: GameOfLife,
    post: GameOfLife,
    key: Key,
    action: GameAction,
) -> bool {
    match key {
        Key::Up => action == GameAction::Continue && life_nav_rel(pre, post, 0, -1),
        Key::Down => action == GameAction::Continue && life_nav_rel(pre, post, 0, 1),
        Key::Left => action == GameAction::Continue && life_nav_rel(pre, post, -1, 0),
        Key::Right => action == GameAction::Continue && life_nav_rel(pre, post, 1, 0),
        Key::Enter => action == GameAction::Continue && (if pre.state is Editing {
            life_frame(pre, post) && post.generation == pre.generation && post.rows()
                =~= pre.rows().update(
                pre.cursor_y as int,
                pre.rows()[pre.cursor_y as int].update(
                    pre.cursor_x as int,
                    (if pre.rows()[pre.cursor_y as int][pre.cursor_x as int] is Alive {
                        CellState::Dead
                    } else {
                        CellState::Alive
                    }),
                ),
            )
        } else {
            post == pre
        }),
        Key::F(n) => action == GameAction::Continue && (if n == 1 {
            life_resize_rel(pre, post, 40, 20)
        } else if n == 2 {
            life_resize_rel(pre, post, 60, 30)
        } else if n == 3 {
            life_resize_rel(pre, post, 80, 40)
        } else if n == 4 {
            life_resize_rel(pre, post, 120, 60)
        } else {
            post == pre
        }),
        Key::Char(ch) => {
            if ch == 'w' {
                action == GameAction::Continue && life_nav_rel(pre, post, 0, -1)
            } else if ch == 's' {
                action == GameAction::Continue && life_nav_rel(pre, post, 0, 1)
            } else if ch == 'a' {
                action == GameAction::Continue && life_nav_rel(pre, post, -1, 0)
            } else if ch == 'd' {
                action == GameAction::Continue && life_nav_rel(pre, post, 1, 0)
            } else if ch == ' ' {
                action == GameAction::Continue && (if pre.state is Editing {
                    life_frame(pre, post) && post.generation == pre.generation && post.rows()
                        =~= pre.rows().update(
                        pre.cursor_y as int,
                        pre.rows()[pre.cursor_y as int].update(
                            pre.cursor_x as int,
                            (if pre.rows()[pre.cursor_y as int][pre.cursor_x as int] is Alive {
                                CellState::Dead
                            } else {
                                CellState::Alive
                            }),
                        ),
                    )
                } else {
                    post == pre
                })
            } else if ch == 'p' {
                action == GameAction::Continue && post == (GameOfLife {
                    state: match pre.state {
                        GameState::Running => GameState::Paused,
                        GameState::Paused => GameState::Running,
                        GameState::Editing => GameState::Running,
                    },
                    ..pre
                })
            } else if ch == 'e' {
                action == GameAction::Continue && post == (GameOfLife {
                    state: GameState::Editing,
                    ..pre
                })
            } else if ch == 'n' {
                action == GameAction::Continue && (if !(pre.state is Running) {
                    life_step_rel(pre, post)
                } else {
                    post == pre
                })
            } else if ch == '+' || ch == '=' {
                action == GameAction::Continue && post == (GameOfLife {
                    speed: (if pre.speed < 5 {
                        (pre.speed + 1) as u8
                    } else {
                        5u8
                    }),
                    ..pre
                })
            } else if ch == '-' {
                action == GameAction::Continue && post == (GameOfLife {
                    speed: (if pre.speed > 1 {
                        (pre.speed - 1) as u8
                    } else {
                        1u8
                    }),
                    ..pre
                })
            } else if ch == '1' {
                action == GameAction::Continue && (if pre.state is Editing {
                    life_stamp_rel(pre, post, Pattern::Glider)
                } else {
                    post == pre
                })
            } else if ch == '2' {
                action == GameAction::Continue && (if pre.state is Editing {
                    life_stamp_rel(pre, post, Pattern::Blinker)
                } else {
                    post == pre
                })
            } else if ch == '3' {
                action == GameAction::Continue && (if pre.state is Editing {
                    life_stamp_rel(pre, post, Pattern::Block)
                } else {
                    post == pre
                })
            } else if ch == '4' {
                action == GameAction::Continue && (if pre.state is Editing {
                    life_stamp_rel(pre, post, Pattern::Toad)
                } else {
                    post == pre
                })
            } else if ch == '5' {
                action == GameAction::Continue && (if pre.state is Editing {
                    life_stamp_rel(pre, post, Pattern::Beacon)
                } else {
                    post == pre
                })
            } else if ch == '6' {
                action == GameAction::Continue && (if pre.state is Editing {
                    life_stamp_rel(pre, post, Pattern::Pulsar)
                } else {
                    post == pre
                })
            } else if ch == 'c' {
                action == GameAction::Continue && life_clear_rel(pre, post)
            } else if ch == 'r' {
                action == GameAction::Continue && life_random_rel(pre, post)
            } else if ch == 'q' {
                action == GameAction::Quit && post == pre
            } else {
                action == GameAction::Continue && post == pre
            }
        },
        _ => action == GameAction::Continue && post == pre,
    }
}

/// The simulation: the full-size grid, the active region's dimensions, the
/// editing cursor and camera, the speed setting and the generation count.
pub struct GameOfLife {
    pub grid: Vec<Vec<CellState>>,
    pub state: GameState,
    pub generation: u32,
    pub cursor_x: usize,
    pub cursor_y: usize,
    pub camera_x: usize,
    pub camera_y: usize,
    pub speed: u8,
    pub grid_width: usize,
    pub grid_height: usize,
}

impl GameOfLife {
    /// The grid as a sequence of rows.
    pub open spec fn rows(self) -> Seq<Seq<CellState>> {
        life_rows(self.grid)
    }

    /// A sound state: a full-size grid, an active region within it, cursor
    /// and camera inside the region, the speed on its one-to-five scale.
    pub open spec fn wf(self) -> bool {
        &&& self.rows().len() == 60
        &&& forall|y: int| 0 <= y < 60 ==> (#[trigger] self.rows()[y]).len() == 120
        &&& 1 <= self.grid_width <= 120
        &&& 1 <= self.grid_height <= 60
        &&& self.cursor_x < self.grid_width
        &&& self.cursor_y < self.grid_height
        &&& self.camera_x < self.grid_width
        &&& self.camera_y < self.grid_height
        &&& 1 <= self.speed <= 5
    }

    /// Read one cell.
    pub fn cell(&self, x: usize, y: usize) -> (c: CellState)
        requires
            self.wf(),
            x < 120,
            y < 60,
        ensures
            c == self.rows()[y as int][x as int],
    {
        assert(self.grid@.len() == 60);
        assert(self.grid@[y as int]@.len() == 120) by {
            assert(self.rows()[y as int] == self.grid@[y as int]@);
        }
        self.grid[y][x]
    }

    /// Write one cell.
    fn put_cell(&mut self, x: usize, y: usize, c: CellState)
        requires
            old(self).wf(),
            x < 120,
            y < 60,
        ensures
            final(self).wf(),
            final(self).rows() =~= old(self).rows().update(
                y as int,
                old(self).rows()[y as int].update(x as int, c),
            ),
            final(self).state == old(self).state,
            final(self).generation == old(self).generation,
            final(self).cursor_x == old(self).cursor_x,
            final(self).cursor_y == old(self).cursor_y,
            final(self).camera_x == old(self).camera_x,
            final(self).camera_y == old(self).camera_y,
            final(self).speed == old(self).speed,
            final(self).grid_width == old(self).grid_width,
            final(self).grid_height == old(self).grid_height,
    {
        assert(self.grid@.len() == 60);
        assert(self.grid@[y as int]@.len() == 120) by {
            assert(self.rows()[y as int] == self.grid@[y as int]@);
        }
        let row = &mut self.grid[y];
        row.set(x, c);
        proof {
            let b0 = old(self).rows();
            assert(self.rows() =~= b0.update(y as int, b0[y as int].update(x as int, c)));
            assert forall|i: int| 0 <= i < 60 implies (#[trigger] self.rows()[i]).len()
                == 120 by {
                if i == y {
                    assert(self.rows()[i] =~= b0[i].update(x as int, c));
                }
            }
        }
    }

    /// The cell offsets of a seed pattern.
    fn pattern_offsets(p: Pattern) -> (out: Vec<(usize, usize)>)
        ensures
            out@.len() == pattern_cells(p).len(),
            forall|i: int|
                0 <= i < out@.len() ==> (#[trigger] out@[i]).1 as int == pattern_cells(p)[i].1
                    && out@[i].0 as int == pattern_cells(p)[i].0,
            forall|i: int| 0 <= i < out@.len() ==> (#[trigger] out@[i]).0 < 20 && out@[i].1 < 20,
    {
        let mut out: Vec<(usize, usize)> = Vec::new();
        match p {
        Pattern::Glider => {
            out.push((0, 1));
            out.push((1, 2));
            out.push((2, 0));
            out.push((2, 1));
            out.push((2, 2));
        },
        Pattern::Blinker => {
            out.push((1, 0));
            out.push((1, 1));
            out.push((1, 2));
        },
        Pattern::Block => {
            out.push((0, 0));
            out.push((0, 1));
            out.push((1, 0));
            out.push((1, 1));
        },
        Pattern::Toad => {
            out.push((1, 1));
            out.push((1, 2));
            out.push((1, 3));
            out.push((2, 0));
            out.push((2, 1));
            out.push((2, 2));
        },
        Pattern::Beacon => {
            out.push((0, 0));
            out.push((0, 1));
            out.push((1, 0));
            out.push((1, 1));
            out.push((2, 2));
            out.push((2, 3));
            out.push((3, 2));
            out.push((3, 3));
        },
        Pattern::Pulsar => {
            out.push((2, 4));
            out.push((2, 5));
            out.push((2, 6));
            out.push((2, 10));
            out.push((2, 11));
            out.push((2, 12));
            out.push((4, 2));
            out.push((4, 7));
            out.push((4, 9));
            out.push((4, 14));
            out.push((5, 2));
            out.push((5, 7));
            out.push((5, 9));
            out.push((5, 14));
            out.push((6, 2));
            out.push((6, 7));
            out.push((6, 9));
            out.push((6, 14));
            out.push((7, 4));
            out.push((7, 5));
            out.push((7, 6));
            out.push((7, 10));
            out.push((7, 11));
            out.push((7, 12));
            out.push((9, 4));
            out.push((9, 5));
            out.push((9, 6));
            out.push((9, 10));
            out.push((9, 11));
            out.push((9, 12));
            out.push((10, 2));
            out.push((10, 7));
            out.push((10, 9));
            out.push((10, 14));
            out.push((11, 2));
            out.push((11, 7));
            out.push((11, 9));
            out.push((11, 14));
            out.push((12, 2));
            out.push((12, 7));
            out.push((12, 9));
            out.push((12, 14));
            out.push((14, 4));
            out.push((14, 5));
            out.push((14, 6));
            out.push((14, 10));
            out.push((14, 11));
            out.push((14, 12));
        },
        }
        out
    }

    /// Stamp a seed pattern with its anchor at (`sx`, `sy`): the cells it
    /// covers inside the active region come alive, everything else stays.
    pub fn place_pattern(&mut self, pattern: Pattern, start_x: usize, start_y: usize)
        requires
            old(self).wf(),
            start_x <= 0xFFFF,
            start_y <= 0xFFFF,
        ensures
            final(self).wf(),
            final(self).rows() =~= stamped(
                old(self).rows(),
                pattern,
                start_x as int,
                start_y as int,
                old(self).grid_width as int,
                old(self).grid_height as int,
            ),
            final(self).state == old(self).state,
            final(self).generation == old(self).generation,
            final(self).cursor_x == old(self).cursor_x,
            final(self).cursor_y == old(self).cursor_y,
            final(self).camera_x == old(self).camera_x,
            final(self).camera_y == old(self).camera_y,
            final(self).speed == old(self).speed,
            final(self).grid_width == old(self).grid_width,
            final(self).grid_height == old(self).grid_height,
    {
        let ghost b0 = self.rows();
        let ghost offs = pattern_cells(pattern);
        let cells = Self::pattern_offsets(pattern);
        let w = self.grid_width;
        let h = self.grid_height;
        let mut i: usize = 0;
        while i < cells.len()
            invariant
                self.wf(),
                w == self.grid_width,
                h == self.grid_height,
                start_x <= 0xFFFF,
                start_y <= 0xFFFF,
                i <= cells@.len(),
                cells@.len() == offs.len(),
                offs == pattern_cells(pattern),
                forall|k: int|
                    0 <= k < cells@.len() ==> (#[trigger] cells@[k]).1 as int == offs[k].1
                        && cells@[k].0 as int == offs[k].0,
                forall|k: int| 0 <= k < cells@.len() ==> (#[trigger] cells@[k]).0 < 20
                    && cells@[k].1 < 20,
                self.state == old(self).state,
                self.generation == old(self).generation,
                self.cursor_x == old(self).cursor_x,
                self.cursor_y == old(self).cursor_y,
                self.camera_x == old(self).camera_x,
                self.camera_y == old(self).camera_y,
                self.speed == old(self).speed,
                forall|y: int, x: int|
                    0 <= y < 60 && 0 <= x < 120 ==> #[trigger] self.rows()[y][x] == (if x < w
                        && y < h && (exists|k: int|
                        0 <= k < i && start_x + (#[trigger] offs[k]).0 == x && start_y + offs[k].1
                            == y) {
                        CellState::Alive
                    } else {
                        b0[y][x]
                    }),
            decreases cells@.len() - i,
        {
            let (dx, dy) = cells[i];
            let x = start_x + dx;
            let y = start_y + dy;
            let ghost prev = self.rows();
            if x < w && y < h {
                self.put_cell(x, y, CellState::Alive);
            }
            proof {
                assert forall|yy: int, xx: int|
                    0 <= yy < 60 && 0 <= xx < 120 implies #[trigger] self.rows()[yy][xx] == (if xx
                    < w && yy < h && (exists|k: int|
                    0 <= k < i + 1 && start_x + (#[trigger] offs[k]).0 == xx && start_y + offs[k].1
                        == yy) {
                    CellState::Alive
                } else {
                    b0[yy][xx]
                }) by {
                    let hit = exists|k: int|
                        0 <= k < i && start_x + (#[trigger] offs[k]).0 == xx && start_y + offs[k].1
                            == yy;
                    assert(prev[yy][xx] == (if xx < w && yy < h && hit {
                        CellState::Alive
                    } else {
                        b0[yy][xx]
                    }));
                    if xx == x && yy == y {
                        assert(start_x + offs[i as int].0 == xx && start_y + offs[i as int].1
                            == yy);
                    } else {
                        assert(self.rows()[yy][xx] == prev[yy][xx]);
                        assert forall|k: int|
                            0 <= k < i + 1 && start_x + (#[trigger] offs[k]).0 == xx && start_y
                                + offs[k].1 == yy implies k < i by {
                            if k == i {
                                assert(xx == x && yy == y);
                            }
                        }
                    }
                }
            }
            i = i + 1;
        }
        proof {
            assert forall|y: int| 0 <= y < 60 implies self.rows()[y] =~= stamped(
                b0,
                pattern,
                start_x as int,
                start_y as int,
                w as int,
                h as int,
            )[y] by {
                assert(self.rows()[y].len() == 120);
                assert forall|x: int| 0 <= x < 120 implies self.rows()[y][x] == stamped(
                    b0,
                    pattern,
                    start_x as int,
                    start_y as int,
                    w as int,
                    h as int,
                )[y][x] by {}
            }
            assert(self.rows() =~= stamped(
                b0,
                pattern,
                start_x as int,
                start_y as int,
                w as int,
                h as int,
            ));
        }
    }

    /// A fresh simulation: a medium active region seeded with a glider, a
    /// blinker and a block, in editing mode at middle speed.
    pub fn new() -> (g: GameOfLife)
        ensures
            g.wf(),
            g.grid_width == 60,
            g.grid_height == 30,
            g.state is Editing,
            g.generation == 0,
            g.speed == 3,
            g.cursor_x == 30,
            g.cursor_y == 15,
            g.camera_x == 30,
            g.camera_y == 15,
            g.rows() =~= stamped(
                stamped(
                    stamped(dead_grid(), Pattern::Glider, 30, 15, 60, 30),
                    Pattern::Blinker,
                    20,
                    10,
                    60,
                    30,
                ),
                Pattern::Block,
                40,
                20,
                60,
                30,
            ),
    {
        let mut game = GameOfLife {
            grid: fresh_dead_grid(),
            state: GameState::Editing,
            generation: 0,
            cursor_x: 30,
            cursor_y: 15,
            camera_x: 30,
            camera_y: 15,
            speed: 3,
            grid_width: 60,
            grid_height: 30,
        };
        game.place_pattern(Pattern::Glider, 30, 15);
        game.place_pattern(Pattern::Blinker, 20, 10);
        game.place_pattern(Pattern::Block, 40, 20);
        game
    }

    /// How many of the eight neighbours of (`x`, `y`) are alive.
    pub fn count_neighbors(&self, x: usize, y: usize) -> (n: u8)
        requires
            self.wf(),
            x < self.grid_width,
            y < self.grid_height,
        ensures
            n as int == neighbor_count_spec(
                self.rows(),
                self.grid_width as int,
                self.grid_height as int,
                x as int,
                y as int,
            ),
            n <= 8,
    {
        let w = self.grid_width;
        let h = self.grid_height;
        let mut count: u8 = 0;
        if x > 0 && y > 0 && self.cell(x - 1, y - 1) == CellState::Alive {
            count = count + 1;
        }
        if y > 0 && self.cell(x, y - 1) == CellState::Alive {
            count = count + 1;
        }
        if x + 1 < w && y > 0 && self.cell(x + 1, y - 1) == CellState::Alive {
            count = count + 1;
        }
        if x > 0 && self.cell(x - 1, y) == CellState::Alive {
            count = count + 1;
        }
        if x + 1 < w && self.cell(x + 1, y) == CellState::Alive {
            count = count + 1;
        }
        if x > 0 && y + 1 < h && self.cell(x - 1, y + 1) == CellState::Alive {
            count = count + 1;
        }
        if y + 1 < h && self.cell(x, y + 1) == CellState::Alive {
            count = count + 1;
        }
        if x + 1 < w && y + 1 < h && self.cell(x + 1, y + 1) == CellState::Alive {
            count = count + 1;
        }
        count
    }

    /// Advance the automaton one generation: every cell of the active
    /// region follows the rule, everything outside it is dead.
    pub fn update_generation(&mut self)
        requires
            old(self).wf(),
            old(self).generation < u32::MAX,
        ensures
            final(self).wf(),
            forall|y: int, x: int|
                0 <= y < 60 && 0 <= x < 120 ==> #[trigger] final(self).rows()[y][x] == (if x < old(
                    self,
                ).grid_width as int && y < old(self).grid_height as int {
                    life_rule(
                        old(self).rows()[y][x],
                        neighbor_count_spec(
                            old(self).rows(),
                            old(self).grid_width as int,
                            old(self).grid_height as int,
                            x,
                            y,
                        ),
                    )
                } else {
                    CellState::Dead
                }),
            final(self).generation == old(self).generation + 1,
            final(self).state == old(self).state,
            final(self).cursor_x == old(self).cursor_x,
            final(self).cursor_y == old(self).cursor_y,
            final(self).camera_x == old(self).camera_x,
            final(self).camera_y == old(self).camera_y,
            final(self).speed == old(self).speed,
            final(self).grid_width == old(self).grid_width,
            final(self).grid_height == old(self).grid_height,
    {
        let ghost b0 = self.rows();
        let w = self.grid_width;
        let h = self.grid_height;
        let mut ng: Vec<Vec<CellState>> = Vec::new();
        let mut y: usize = 0;
        while y < 60
            invariant
                self.wf(),
                b0 == self.rows(),
                w == self.grid_width,
                h == self.grid_height,
                y <= 60,
                ng@.len() == y,
                forall|j: int|
                    0 <= j < y ==> (#[trigger] ng@[j])@.len() == 120,
                forall|j: int, x: int|
                    0 <= j < y && 0 <= x < 120 ==> (#[trigger] ng@[j]@[x]) == (if x < w as int && j
                        < h as int {
                        life_rule(
                            b0[j][x],
                            neighbor_count_spec(b0, w as int, h as int, x, j),
                        )
                    } else {
                        CellState::Dead
                    }),
            decreases 60 - y,
        {
            let mut row: Vec<CellState> = Vec::new();
            let mut x: usize = 0;
            while x < 120
                invariant
                    self.wf(),
                    b0 == self.rows(),
                    w == self.grid_width,
                    h == self.grid_height,
                    y < 60,
                    x <= 120,
                    row@.len() == x,
                    forall|i: int|
                        0 <= i < x ==> (#[trigger] row@[i]) == (if i < w as int && (y as int) < (
                        h as int) {
                            life_rule(
                                b0[y as int][i],
                                neighbor_count_spec(b0, w as int, h as int, i, y as int),
                            )
                        } else {
                            CellState::Dead
                        }),
                decreases 120 - x,
            {
                let c: CellState = if x < w && y < h {
                    let n = self.count_neighbors(x, y);
                    let cur = self.cell(x, y);
                    match cur {
                        CellState::Alive => if n == 2 || n == 3 {
                            CellState::Alive
                        } else {
                            CellState::Dead
                        },
                        CellState::Dead => if n == 3 {
                            CellState::Alive
                        } else {
                            CellState::Dead
                        },
                    }
                } else {
                    CellState::Dead
                };
                row.push(c);
                x = x + 1;
            }
            ng.push(row);
            y = y + 1;
        }
        self.grid = ng;
        self.generation = self.generation + 1;
    }

    /// One automaton step on demand.
    pub fn step_forward(&mut self)
        requires
            old(self).wf(),
            old(self).generation < u32::MAX,
        ensures
            final(self).wf(),
            forall|y: int, x: int|
                0 <= y < 60 && 0 <= x < 120 ==> #[trigger] final(self).rows()[y][x] == (if x < old(
                    self,
                ).grid_width as int && y < old(self).grid_height as int {
                    life_rule(
                        old(self).rows()[y][x],
                        neighbor_count_spec(
                            old(self).rows(),
                            old(self).grid_width as int,
                            old(self).grid_height as int,
                            x,
                            y,
                        ),
                    )
                } else {
                    CellState::Dead
                }),
            final(self).generation == old(self).generation + 1,
            final(self).state == old(self).state,
            final(self).cursor_x == old(self).cursor_x,
            final(self).cursor_y == old(self).cursor_y,
            final(self).camera_x == old(self).camera_x,
            final(self).camera_y == old(self).camera_y,
            final(self).speed == old(self).speed,
            final(self).grid_width == old(self).grid_width,
            final(self).grid_height == old(self).grid_height,
    {
        self.update_generation();
    }

    /// Kill every cell of the active region and restart the generation
    /// count.
    pub fn clear_grid(&mut self)
        requires
            old(self).wf(),
        ensures
            final(self).wf(),
            forall|y: int, x: int|
                0 <= y < 60 && 0 <= x < 120 ==> #[trigger] final(self).rows()[y][x] == (if x < old(
                    self,
                ).grid_width as int && y < old(self).grid_height as int {
                    CellState::Dead
                } else {
                    old(self).rows()[y][x]
                }),
            final(self).generation == 0,
            final(self).state == old(self).state,
            final(self).cursor_x == old(self).cursor_x,
            final(self).cursor_y == old(self).cursor_y,
            final(self).camera_x == old(self).camera_x,
            final(self).camera_y == old(self).camera_y,
            final(self).speed == old(self).speed,
            final(self).grid_width == old(self).grid_width,
            final(self).grid_height == old(self).grid_height,
    {
        let ghost b0 = self.rows();
        let w = self.grid_width;
        let h = self.grid_height;
        let mut ng: Vec<Vec<CellState>> = Vec::new();
        let mut y: usize = 0;
        while y < 60
            invariant
                self.wf(),
                b0 == self.rows(),
                w == self.grid_width,
                h == self.grid_height,
                y <= 60,
                ng@.len() == y,
                forall|j: int|
                    0 <= j < y ==> (#[trigger] ng@[j])@.len() == 120,
                forall|j: int, x: int|
                    0 <= j < y && 0 <= x < 120 ==> (#[trigger] ng@[j]@[x]) == (if x < w as int && j
                        < h as int {
                        CellState::Dead
                    } else {
                        b0[j][x]
                    }),
            decreases 60 - y,
        {
            let mut row: Vec<CellState> = Vec::new();
            let mut x: usize = 0;
            while x < 120
                invariant
                    self.wf(),
                    b0 == self.rows(),
                    w == self.grid_width,
                    h == self.grid_height,
                    y < 60,
                    x <= 120,
                    row@.len() == x,
                    forall|i: int|
                        0 <= i < x ==> (#[trigger] row@[i]) == (if i < w as int && (y as int) < (
                        h as int) {
                            CellState::Dead
                        } else {
                            b0[y as int][i]
                        }),
                decreases 120 - x,
            {
                let c: CellState = if x < w && y < h {
                    CellState::Dead
                } else {
                    self.cell(x, y)
                };
                row.push(c);
                x = x + 1;
            }
            ng.push(row);
            y = y + 1;
        }
        self.grid = ng;
        self.generation = 0;
    }

    /// Repopulate the active region at random — roughly three cells in ten
    /// come alive — leaving the outside untouched, and restart the
    /// generation count.
    pub fn randomize_grid(&mut self)
        requires
            old(self).wf(),
        ensures
            final(self).wf(),
            forall|y: int, x: int|
                0 <= y < 60 && 0 <= x < 120 && !(x < old(self).grid_width as int && y < old(
                    self,
                ).grid_height as int) ==> #[trigger] final(self).rows()[y][x] == old(
                    self,
                ).rows()[y][x],
            final(self).generation == 0,
            final(self).state == old(self).state,
            final(self).cursor_x == old(self).cursor_x,
            final(self).cursor_y == old(self).cursor_y,
            final(self).camera_x == old(self).camera_x,
            final(self).camera_y == old(self).camera_y,
            final(self).speed == old(self).speed,
            final(self).grid_width == old(self).grid_width,
            final(self).grid_height == old(self).grid_height,
    {
        let ghost b0 = self.rows();
        let w = self.grid_width;
        let h = self.grid_height;
        let mut ng: Vec<Vec<CellState>> = Vec::new();
        let mut y: usize = 0;
        while y < 60
            invariant
                self.wf(),
                b0 == self.rows(),
                w == self.grid_width,
                h == self.grid_height,
                y <= 60,
                ng@.len() == y,
                forall|j: int|
                    0 <= j < y ==> (#[trigger] ng@[j])@.len() == 120,
                forall|j: int, x: int|
                    0 <= j < y && 0 <= x < 120 && !(x < w as int && j < h as int) ==> (
                    #[trigger] ng@[j]@[x]) == b0[j][x],
            decreases 60 - y,
        {
            let mut row: Vec<CellState> = Vec::new();
            let mut x: usize = 0;
            while x < 120
                invariant
                    self.wf(),
                    b0 == self.rows(),
                    w == self.grid_width,
                    h == self.grid_height,
                    y < 60,
                    x <= 120,
                    row@.len() == x,
                    forall|i: int|
                        0 <= i < x && !(i < w as int && (y as int) < (h as int)) ==> (
                        #[trigger] row@[i]) == b0[y as int][i],
                decreases 120 - x,
            {
                let c: CellState = if x < w && y < h {
                    if random_below(10) < 3 {
                        CellState::Alive
                    } else {
                        CellState::Dead
                    }
                } else {
                    self.cell(x, y)
                };
                row.push(c);
                x = x + 1;
            }
            ng.push(row);
            y = y + 1;
        }
        self.grid = ng;
        self.generation = 0;
    }

    /// Resize the active region, keeping the cells that fit, clamping the
    /// cursor and camera into the new region, and restarting the
    /// generation count.
    pub fn resize_grid(&mut self, width: usize, height: usize)
        requires
            old(self).wf(),
            1 <= width,
            1 <= height,
        ensures
            final(self).wf(),
            final(self).grid_width == (if width < 120 { width } else { 120 }),
            final(self).grid_height == (if height < 60 { height } else { 60 }),
            forall|y: int, x: int|
                0 <= y < 60 && 0 <= x < 120 ==> #[trigger] final(self).rows()[y][x] == (if x
                    < final(self).grid_width as int && x < old(self).grid_width as int && y
                    < final(self).grid_height as int && y < old(self).grid_height as int {
                    old(self).rows()[y][x]
                } else {
                    CellState::Dead
                }),
            final(self).cursor_x == (if old(self).cursor_x < final(self).grid_width {
                old(self).cursor_x
            } else {
                (final(self).grid_width - 1) as usize
            }),
            final(self).cursor_y == (if old(self).cursor_y < final(self).grid_height {
                old(self).cursor_y
            } else {
                (final(self).grid_height - 1) as usize
            }),
            final(self).camera_x == (if old(self).camera_x < final(self).grid_width {
                old(self).camera_x
            } else {
                (final(self).grid_width - 1) as usize
            }),
            final(self).camera_y == (if old(self).camera_y < final(self).grid_height {
                old(self).camera_y
            } else {
                (final(self).grid_height - 1) as usize
            }),
            final(self).generation == 0,
            final(self).state == old(self).state,
            final(self).speed == old(self).speed,
    {
        let ghost b0 = self.rows();
        let old_w = self.grid_width;
        let old_h = self.grid_height;
        let new_w: usize = if width < 120 { width } else { 120 };
        let new_h: usize = if height < 60 { height } else { 60 };
        let mut ng: Vec<Vec<CellState>> = Vec::new();
        let mut y: usize = 0;
        while y < 60
            invariant
                self.wf(),
                b0 == self.rows(),
                old_w == self.grid_width,
                old_h == self.grid_height,
                1 <= new_w <= 120,
                1 <= new_h <= 60,
                y <= 60,
                ng@.len() == y,
                forall|j: int|
                    0 <= j < y ==> (#[trigger] ng@[j])@.len() == 120,
                forall|j: int, x: int|
                    0 <= j < y && 0 <= x < 120 ==> (#[trigger] ng@[j]@[x]) == (if x < new_w as int
                        && x < old_w as int && j < new_h as int && j < old_h as int {
                        b0[j][x]
                    } else {
                        CellState::Dead
                    }),
            decreases 60 - y,
        {
            let mut row: Vec<CellState> = Vec::new();
            let mut x: usize = 0;
            while x < 120
                invariant
                    self.wf(),
                    b0 == self.rows(),
                    old_w == self.grid_width,
                    old_h == self.grid_height,
                    1 <= new_w <= 120,
                    1 <= new_h <= 60,
                    y < 60,
                    x <= 120,
                    row@.len() == x,
                    forall|i: int|
                        0 <= i < x ==> (#[trigger] row@[i]) == (if i < new_w as int && i < (
                        old_w as int) && (y as int) < new_h as int && (y as int) < old_h as int {
                            b0[y as int][i]
                        } else {
                            CellState::Dead
                        }),
                decreases 120 - x,
            {
                let c: CellState = if x < new_w && x < old_w && y < new_h && y < old_h {
                    self.cell(x, y)
                } else {
                    CellState::Dead
                };
                row.push(c);
                x = x + 1;
            }
            ng.push(row);
            y = y + 1;
        }
        self.grid = ng;
        self.grid_width = new_w;
        self.grid_height = new_h;
        if self.cursor_x >= new_w {
            self.cursor_x = new_w - 1;
        }
        if self.cursor_y >= new_h {
            self.cursor_y = new_h - 1;
        }
        if self.camera_x >= new_w {
            self.camera_x = new_w - 1;
        }
        if self.camera_y >= new_h {
            self.camera_y = new_h - 1;
        }
        self.generation = 0;
    }

    /// Flip one cell of the active region between alive and dead; outside
    /// the region nothing happens.
    pub fn toggle_cell(&mut self, x: usize, y: usize)
        requires
            old(self).wf(),
        ensures
            final(self).wf(),
            (if x < old(self).grid_width && y < old(self).grid_height {
                final(self).rows() =~= old(self).rows().update(
                    y as int,
                    old(self).rows()[y as int].update(
                        x as int,
                        (if old(self).rows()[y as int][x as int] is Alive {
                            CellState::Dead
                        } else {
                            CellState::Alive
                        }),
                    ),
                )
            } else {
                final(self).rows() =~= old(self).rows()
            }),
            final(self).generation == old(self).generation,
            final(self).state == old(self).state,
            final(self).cursor_x == old(self).cursor_x,
            final(self).cursor_y == old(self).cursor_y,
            final(self).camera_x == old(self).camera_x,
            final(self).camera_y == old(self).camera_y,
            final(self).speed == old(self).speed,
            final(self).grid_width == old(self).grid_width,
            final(self).grid_height == old(self).grid_height,
    {
        if x < self.grid_width && y < self.grid_height {
            let cur = self.cell(x, y);
            let flipped = match cur {
                CellState::Alive => CellState::Dead,
                CellState::Dead => CellState::Alive,
            };
            self.put_cell(x, y, flipped);
        }
    }

    /// Nudge the speed setting, clamped to its one-to-five scale.
    pub fn change_speed(&mut self, delta: i8)
        requires
            old(self).wf(),
            -100 <= delta <= 100,
        ensures
            final(self).wf(),
            final(self).speed as int == (if (old(self).speed as int + delta as int) < 1 {
                1int
            } else if (old(self).speed as int + delta as int) > 5 {
                5int
            } else {
                old(self).speed as int + delta as int
            }),
            final(self).grid == old(self).grid,
            final(self).generation == old(self).generation,
            final(self).state == old(self).state,
            final(self).cursor_x == old(self).cursor_x,
            final(self).cursor_y == old(self).cursor_y,
            final(self).camera_x == old(self).camera_x,
            final(self).camera_y == old(self).camera_y,
            final(self).grid_width == old(self).grid_width,
            final(self).grid_height == old(self).grid_height,
    {
        let cur: i32 = self.speed as i32;
        let d: i32 = delta as i32;
        let mut ns: i32 = cur + d;
        if ns < 1 {
            ns = 1;
        }
        if ns > 5 {
            ns = 5;
        }
        self.speed = ns as u8;
    }

    /// The tick interval the speed setting asks of the driving loop, in
    /// milliseconds.
    pub fn get_tick_rate(&self) -> (r: u64)
        ensures
            r == (if self.speed == 1 {
                1000u64
            } else if self.speed == 2 {
                500u64
            } else if self.speed == 3 {
                250u64
            } else if self.speed == 4 {
                125u64
            } else if self.speed == 5 {
                60u64
            } else {
                250u64
            }),
    {
        match self.speed {
            1 => 1000,
            2 => 500,
            3 => 250,
            4 => 125,
            5 => 60,
            _ => 250,
        }
    }

    /// One scheduler tick: while the automaton is running it advances one
    /// generation; paused or editing, nothing changes. Never terminal.
    pub fn update(&mut self) -> (action: GameAction)
        requires
            old(self).wf(),
            old(self).generation < u32::MAX,
        ensures
            final(self).wf(),
            action == GameAction::Continue,
            (if old(self).state is Running {
                forall|y: int, x: int|
                    0 <= y < 60 && 0 <= x < 120 ==> #[trigger] final(self).rows()[y][x] == (if x
                        < old(self).grid_width as int && y < old(self).grid_height as int {
                        life_rule(
                            old(self).rows()[y][x],
                            neighbor_count_spec(
                                old(self).rows(),
                                old(self).grid_width as int,
                                old(self).grid_height as int,
                                x,
                                y,
                            ),
                        )
                    } else {
                        CellState::Dead
                    }) && final(self).generation == old(self).generation + 1
            } else {
                *final(self) == *old(self)
            }),
            final(self).state == old(self).state,
            final(self).cursor_x == old(self).cursor_x,
            final(self).cursor_y == old(self).cursor_y,
            final(self).camera_x == old(self).camera_x,
            final(self).camera_y == old(self).camera_y,
            final(self).speed == old(self).speed,
            final(self).grid_width == old(self).grid_width,
            final(self).grid_height == old(self).grid_height,
    {
        match self.state {
            GameState::Running => {
                self.update_generation();
            },
            _ => {},
        }
        GameAction::Continue
    }

    /// Dispatch one key press: cursor or camera movement depending on the
    /// mode, editing and stamping, run control, speed, preset region sizes
    /// and the clearing and seeding utilities.
    pub fn handle_key(&mut self, key: Key) -> (action: GameAction)
        requires
            old(self).wf(),
            old(self).generation < u32::MAX,
        ensures
            final(self).wf(),
            life_key_rel(*old(self), *final(self), key, action),
    {
        match key {
            Key::Up => {
                self.nav(0, -1);
                GameAction::Continue
            },
            Key::Down => {
                self.nav(0, 1);
                GameAction::Continue
            },
            Key::Left => {
                self.nav(-1, 0);
                GameAction::Continue
            },
            Key::Right => {
                self.nav(1, 0);
                GameAction::Continue
            },
            Key::Enter => {
                if self.state == GameState::Editing {
                    let (cx, cy) = (self.cursor_x, self.cursor_y);
                    self.toggle_cell(cx, cy);
                }
                GameAction::Continue
            },
            Key::F(n) => {
                if n == 1 {
                    self.resize_grid(40, 20);
                } else if n == 2 {
                    self.resize_grid(60, 30);
                } else if n == 3 {
                    self.resize_grid(80, 40);
                } else if n == 4 {
                    self.resize_grid(120, 60);
                }
                GameAction::Continue
            },
            Key::Char(ch) => {
                if ch == 'w' {
                    self.nav(0, -1);
                    GameAction::Continue
                } else if ch == 's' {
                    self.nav(0, 1);
                    GameAction::Continue
                } else if ch == 'a' {
                    self.nav(-1, 0);
                    GameAction::Continue
                } else if ch == 'd' {
                    self.nav(1, 0);
                    GameAction::Continue
                } else if ch == ' ' {
                    if self.state == GameState::Editing {
                        let (cx, cy) = (self.cursor_x, self.cursor_y);
                        self.toggle_cell(cx, cy);
                    }
                    GameAction::Continue
                } else if ch == 'p' {
                    self.state = match self.state {
                        GameState::Running => GameState::Paused,
                        GameState::Paused => GameState::Running,
                        GameState::Editing => GameState::Running,
                    };
                    GameAction::Continue
                } else if ch == 'e' {
                    self.state = GameState::Editing;
                    GameAction::Continue
                } else if ch == 'n' {
                    if self.state != GameState::Running {
                        self.step_forward();
                    }
                    GameAction::Continue
                } else if ch == '+' || ch == '=' {
                    self.change_speed(1);
                    GameAction::Continue
                } else if ch == '-' {
                    self.change_speed(-1);
                    GameAction::Continue
                } else if ch == '1' {
                    if self.state == GameState::Editing {
                        let (cx, cy) = (self.cursor_x, self.cursor_y);
                        self.place_pattern(Pattern::Glider, cx, cy);
                    }
                    GameAction::Continue
                } else if ch == '2' {
                    if self.state == GameState::Editing {
                        let (cx, cy) = (self.cursor_x, self.cursor_y);
                        self.place_pattern(Pattern::Blinker, cx, cy);
                    }
                    GameAction::Continue
                } else if ch == '3' {
                    if self.state == GameState::Editing {
                        let (cx, cy) = (self.cursor_x, self.cursor_y);
                        self.place_pattern(Pattern::Block, cx, cy);
                    }
                    GameAction::Continue
                } else if ch == '4' {
                    if self.state == GameState::Editing {
                        let (cx, cy) = (self.cursor_x, self.cursor_y);
                        self.place_pattern(Pattern::Toad, cx, cy);
                    }
                    GameAction::Continue
                } else if ch == '5' {
                    if self.state == GameState::Editing {
                        let (cx, cy) = (self.cursor_x, self.cursor_y);
                        self.place_pattern(Pattern::Beacon, cx, cy);
                    }
                    GameAction::Continue
                } else if ch == '6' {
                    if self.state == GameState::Editing {
                        let (cx, cy) = (self.cursor_x, self.cursor_y);
                        self.place_pattern(Pattern::Pulsar, cx, cy);
                    }
                    GameAction::Continue
                } else if ch == 'c' {
                    self.clear_grid();
                    GameAction::Continue
                } else if ch == 'r' {
                    self.randomize_grid();
                    GameAction::Continue
                } else if ch == 'q' {
                    GameAction::Quit
                } else {
                    GameAction::Continue
                }
            },
            _ => GameAction::Continue,
        }
    }

    /// Move the cursor (while editing, with the camera following) or the
    /// camera (while watching) one cell, stopping at the region's edge.
    fn nav(&mut self, dx: i32, dy: i32)
        requires
            old(self).wf(),
            -1 <= dx <= 1,
            -1 <= dy <= 1,
        ensures
            final(self).wf(),
            life_nav_rel(*old(self), *final(self), dx as int, dy as int),
    {
        match self.state {
            GameState::Editing => {
                if dy < 0 && self.cursor_y > 0 {
                    self.cursor_y = self.cursor_y - 1;
                    self.camera_y = self.cursor_y;
                }
                if dy > 0 && self.cursor_y < self.grid_height - 1 {
                    self.cursor_y = self.cursor_y + 1;
                    self.camera_y = self.cursor_y;
                }
                if dx < 0 && self.cursor_x > 0 {
                    self.cursor_x = self.cursor_x - 1;
                    self.camera_x = self.cursor_x;
                }
                if dx > 0 && self.cursor_x < self.grid_width - 1 {
                    self.cursor_x = self.cursor_x + 1;
                    self.camera_x = self.cursor_x;
                }
            },
            _ => {
                if dy < 0 && self.camera_y > 0 {
                    self.camera_y = self.camera_y - 1;
                }
                if dy > 0 && self.camera_y < self.grid_height - 1 {
                    self.camera_y = self.camera_y + 1;
                }
                if dx < 0 && self.camera_x > 0 {
                    self.camera_x = self.camera_x - 1;
                }
                if dx > 0 && self.camera_x < self.grid_width - 1 {
                    self.camera_x = self.camera_x + 1;
                }
            },
        }
    }

    /// The registry name of this game.
    pub fn name(&self) -> (r: &'static str)
        ensures
            r@ == "Game of Life"@,
    {
        "Game of Life"
    }

    /// The registry description of this game.
    pub fn description(&self) -> (r: &'static str)
        ensures
            r@ == "Conway's Game of Life - Cellular automaton visualization"@,
    {
        "Conway's Game of Life - Cellular automaton visualization"
    }
}

/// A full-size grid of dead cells.
fn fresh_dead_grid() -> (g: Vec<Vec<CellState>>)
    ensures
        life_rows(g) =~= dead_grid(),
{
    let mut grid: Vec<Vec<CellState>> = Vec::new();
    let mut y: usize = 0;
    while y < 60
        invariant
            y <= 60,
            grid@.len() == y,
            forall|j: int|
                0 <= j < y ==> (#[trigger] grid@[j])@ =~= Seq::new(120, |x: int| CellState::Dead),
        decreases 60 - y,
    {
        let mut row: Vec<CellState> = Vec::new();
        let mut x: usize = 0;
        while x < 120
            invariant
                x <= 120,
                row@.len() == x,
                forall|i: int| 0 <= i < x ==> (#[trigger] row@[i]) is Dead,
            decreases 120 - x,
        {
            row.push(CellState::Dead);
            x = x + 1;
        }
        assert(row@ =~= Seq::new(120, |xx: int| CellState::Dead));
        grid.push(row);
        y = y + 1;
    }
    grid
}

} // verus!
