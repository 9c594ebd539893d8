//! The mine-detection game: a sixteen-by-sixteen field seeded with forty
//! mines away from the first click, numbered cells, flags, flood reveal of
//! open regions, and the win and loss rules.

use vstd::prelude::*;

use crate::engine::{GameAction, Key};
use crate::rng::random_below;

verus! {

/// Field side length.
pub const GRID_WIDTH: usize = 16;

/// Field side length.
pub const GRID_HEIGHT: usize = 16;

/// How many mines the field holds.
pub const MINE_COUNT: usize = 40;

/// What the player sees of one cell.
#[derive(Debug, Clone, Copy, PartialEq, Eq, Structural)]
pub enum CellState {
    Hidden,
    Revealed,
    Flagged,
}

/// One cell of the field: whether it hides a mine, how many of its
/// neighbours do, and what the player sees.
#[derive(Debug, Clone, Copy, PartialEq, Eq, Structural)]
pub struct Cell {
    pub is_mine: bool,
    pub adjacent_mines: u8,
    pub state: CellState,
}

impl Cell {
    /// A pristine cell: no mine, no count, hidden.
    pub fn new() -> (c: Cell)
        ensures
            !c.is_mine,
            c.adjacent_mines == 0,
            c.state is Hidden,
    {
        Cell { is_mine: false, adjacent_mines: 0, state: CellState::Hidden }
    }
}

/// The field as a mathematical value.
pub open spec fn field_rows(g: Vec<Vec<Cell>>) -> Seq<Seq<Cell>> {
    g@.map_values(|row: Vec<Cell>| row@)
}

/// A well-shaped field.
pub open spec fn field_wf(b: Seq<Seq<Cell>>) -> bool {
    &&& b.len() == 16
    &&& forall|y: int| 0 <= y < 16 ==> (#[trigger] b[y]).len() == 16
}

/// How many cells of the first `n` of a row satisfy `f`.
pub open spec fn row_count(row: Seq<Cell>, n: int, f: spec_fn(Cell) -> bool) -> int
    decreases n,
{
    if n <= 0 {
        0
    } else {
        row_count(row, n - 1, f) + if f(row[n - 1]) {
            1int
        } else {
            0int
        }
    }
}

/// How many cells of the first `n` rows of the field satisfy `f`.
pub open spec fn grid_count(b: Seq<Seq<Cell>>, n: int, f: spec_fn(Cell) -> bool) -> int
    decreases n,
{
    if n <= 0 {
        0
    } else {
        grid_count(b, n - 1, f) + row_count(b[n - 1], 16, f)
    }
}

/// The predicate of a mined cell, as one shared value.
pub open spec fn mine_pred() -> spec_fn(Cell) -> bool {
    |c: Cell| c.is_mine
}

/// The predicate of a flagged cell, as one shared value.
pub open spec fn flag_pred() -> spec_fn(Cell) -> bool {
    |c: Cell| c.state is Flagged
}

/// The predicate of a revealed cell, as one shared value.
pub open spec fn revealed_pred() -> spec_fn(Cell) -> bool {
    |c: Cell| c.state is Revealed
}

/// The predicate of a hidden cell, as one shared value.
pub open spec fn hidden_pred() -> spec_fn(Cell) -> bool {
    |c: Cell| c.state is Hidden
}

/// One as an integer when the cell at (`x`, `y`) exists and hides a mine.
pub open spec fn mine_at(b: Seq<Seq<Cell>>, x: int, y: int) -> int {
    if 0 <= x < 16 && 0 <= y < 16 && b[y][x].is_mine {
        1
    } else {
        0
    }
}

/// How many of the eight neighbours of (`x`, `y`) hide a mine.
#[verifier::opaque]
pub open spec fn adj_mines_spec(b: Seq<Seq<Cell>>, x: int, y: int) -> int {
    mine_at(b, x - 1, y - 1) + mine_at(b, x, y - 1) + mine_at(b, x + 1, y - 1) + mine_at(
        b,
        x - 1,
        y,
    ) + mine_at(b, x + 1, y) + mine_at(b, x - 1, y + 1) + mine_at(b, x, y + 1) + mine_at(
        b,
        x + 1,
        y + 1,
    )
}

/// Every free cell's stored neighbour count agrees with the mine layout;
/// mined cells are never numbered and keep a zero count.
#[verifier::opaque]
pub open spec fn counts_ok(b: Seq<Seq<Cell>>) -> bool {
    forall|y: int, x: int|
        0 <= y < 16 && 0 <= x < 16 && !(#[trigger] b[y][x]).is_mine ==> b[y][x].adjacent_mines
            as int == adj_mines_spec(b, x, y)
}

/// Counting a prefix of a row stays within its length.
proof fn lemma_row_count_bounds(row: Seq<Cell>, n: int, f: spec_fn(Cell) -> bool)
    requires
        0 <= n,
    ensures
        0 <= row_count(row, n, f) <= n,
    decreases n,
{
    if n > 0 {
        lemma_row_count_bounds(row, n - 1, f);
    }
}

/// Counting over the field stays within its area.
proof fn lemma_grid_count_bounds(b: Seq<Seq<Cell>>, n: int, f: spec_fn(Cell) -> bool)
    requires
        0 <= n,
    ensures
        0 <= grid_count(b, n, f) <= 16 * n,
    decreases n,
{
    if n > 0 {
        lemma_grid_count_bounds(b, n - 1, f);
        lemma_row_count_bounds(b[n - 1], 16, f);
    }
}

/// Replacing one cell of a row moves its count by the two cells'
/// contributions.
proof fn lemma_row_count_update(row: Seq<Cell>, n: int, f: spec_fn(Cell) -> bool, i: int, c: Cell)
    requires
        0 <= i < n,
        n <= row.len(),
    ensures
        row_count(row.update(i, c), n, f) == row_count(row, n, f) - (if f(row[i]) {
            1int
        } else {
            0int
        }) + (if f(c) {
            1int
        } else {
            0int
        }),
    decreases n,
{
    let row2 = row.update(i, c);
    if i == n - 1 {
        assert(row2[n - 1] == c);
        assert(forall|k: int| 0 <= k < n - 1 ==> row2[k] == row[k]);
        lemma_row_count_prefix_same(row, row2, n - 1, f);
    } else {
        lemma_row_count_update(row, n - 1, f, i, c);
        assert(row2[n - 1] == row[n - 1]);
    }
}

/// Two rows equal on a prefix count alike there.
proof fn lemma_row_count_prefix_same(a: Seq<Cell>, b: Seq<Cell>, n: int, f: spec_fn(Cell) -> bool)
    requires
        0 <= n,
        forall|k: int| 0 <= k < n ==> a[k] == b[k],
    ensures
        row_count(a, n, f) == row_count(b, n, f),
    decreases n,
{
    if n > 0 {
        lemma_row_count_prefix_same(a, b, n - 1, f);
    }
}

/// Replacing one cell of the field moves its count by the two cells'
/// contributions.
proof fn lemma_grid_count_update(
    b: Seq<Seq<Cell>>,
    n: int,
    f: spec_fn(Cell) -> bool,
    y: int,
    x: int,
    c: Cell,
)
    requires
        field_wf(b),
        0 <= y < 16,
        0 <= x < 16,
        0 <= n <= 16,
    ensures
        grid_count(b.update(y, b[y].update(x, c)), n, f) == grid_count(b, n, f) + (if y < n {
            (if f(c) {
                1int
            } else {
                0int
            }) - (if f(b[y][x]) {
                1int
            } else {
                0int
            })
        } else {
            0int
        }),
    decreases n,
{
    let b2 = b.update(y, b[y].update(x, c));
    if n > 0 {
        lemma_grid_count_update(b, n - 1, f, y, x, c);
        if y == n - 1 {
            assert(b2[n - 1] == b[y].update(x, c));
            lemma_row_count_update(b[y], 16, f, x, c);
        } else {
            assert(b2[n - 1] == b[n - 1]);
        }
    }
}

/// A cell satisfying `f` makes the row's count positive.
proof fn lemma_row_count_member(row: Seq<Cell>, n: int, f: spec_fn(Cell) -> bool, i: int)
    requires
        0 <= i < n,
        f(row[i]),
    ensures
        row_count(row, n, f) >= 1,
    decreases n,
{
    lemma_row_count_bounds(row, i, f);
    if i == n - 1 {
    } else {
        lemma_row_count_member(row, n - 1, f, i);
    }
}

/// A cell satisfying `f` makes the field's count positive.
proof fn lemma_grid_count_member(b: Seq<Seq<Cell>>, n: int, f: spec_fn(Cell) -> bool, y: int, x: int)
    requires
        field_wf(b),
        0 <= y < n <= 16,
        0 <= x < 16,
        f(b[y][x]),
    ensures
        grid_count(b, n, f) >= 1,
    decreases n,
{
    lemma_grid_count_bounds(b, y, f);
    if y == n - 1 {
        lemma_row_count_member(b[y], 16, f, x);
        lemma_row_count_bounds(b[y], 16, f);
    } else {
        lemma_grid_count_member(b, n - 1, f, y, x);
        lemma_row_count_bounds(b[n - 1], 16, f);
    }
}

/// The mine-detection game state.
pub struct MinesweeperGame {
    pub grid: Vec<Vec<Cell>>,
    pub cursor_x: usize,
    pub cursor_y: usize,
    pub game_over: bool,
    pub won: bool,
    pub mines_generated: bool,
    pub flags_used: usize,
    pub cells_revealed: usize,
}

/// A field as `new` and `restart` leave it: pristine cells, the cursor in
/// the middle, nothing counted, no mines yet.
pub open spec fn fresh_field(g: MinesweeperGame) -> bool {
    &&& forall|y: int, x: int|
        0 <= y < 16 && 0 <= x < 16 ==> (#[trigger] g.rows()[y][x]) == (Cell {
            is_mine: false,
            adjacent_mines: 0,
            state: CellState::Hidden,
        })
    &&& g.cursor_x == 8
    &&& g.cursor_y == 8
    &&& !g.game_over
    &&& !g.won
    &&& !g.mines_generated
    &&& g.flags_used == 0
    &&& g.cells_revealed == 0
}

impl MinesweeperGame {
    /// The field as a sequence of rows.
    pub open spec fn rows(self) -> Seq<Seq<Cell>> {
        field_rows(self.grid)
    }

    /// Structural soundness: a well-shaped field, the cursor inside it,
    /// exactly the full complement of mines once they are laid (none
    /// before), stored neighbour counts that match the layout, and — while
    /// the game is live — flag and reveal counters that match the field.
    pub open spec fn wf(self) -> bool {
        &&& field_wf(self.rows())
        &&& self.cursor_x < 16
        &&& self.cursor_y < 16
        &&& (if self.mines_generated {
            grid_count(self.rows(), 16, mine_pred()) == 40 && counts_ok(self.rows())
        } else {
            forall|y: int, x: int|
                0 <= y < 16 && 0 <= x < 16 ==> !(#[trigger] self.rows()[y][x]).is_mine
                    && self.rows()[y][x].adjacent_mines == 0
        })
        &&& !self.game_over ==> self.flags_used == grid_count(self.rows(), 16, flag_pred())
        &&& !self.game_over ==> self.cells_revealed == grid_count(self.rows(), 16, revealed_pred())
    }

    /// Read one cell.
    pub fn cell(&self, x: usize, y: usize) -> (c: Cell)
        requires
            field_wf(self.rows()),
            x < 16,
            y < 16,
        ensures
            c == self.rows()[y as int][x as int],
    {
        assert(self.grid@.len() == 16);
        assert(self.grid@[y as int]@.len() == 16) by {
            assert(self.rows()[y as int] == self.grid@[y as int]@);
        }
        self.grid[y][x]
    }

    /// Write one cell.
    fn put_cell(&mut self, x: usize, y: usize, c: Cell)
        requires
            field_wf(old(self).rows()),
            x < 16,
            y < 16,
        ensures
            field_wf(final(self).rows()),
            final(self).rows() =~= old(self).rows().update(
                y as int,
                old(self).rows()[y as int].update(x as int, c),
            ),
            final(self).cursor_x == old(self).cursor_x,
            final(self).cursor_y == old(self).cursor_y,
            final(self).game_over == old(self).game_over,
            final(self).won == old(self).won,
            final(self).mines_generated == old(self).mines_generated,
            final(self).flags_used == old(self).flags_used,
            final(self).cells_revealed == old(self).cells_revealed,
    {
        assert(self.grid@.len() == 16);
        assert(self.grid@[y as int]@.len() == 16) by {
            assert(self.rows()[y as int] == self.grid@[y as int]@);
        }
        let row = &mut self.grid[y];
        row.set(x, c);
        proof {
            let b0 = old(self).rows();
            assert(self.rows() =~= b0.update(y as int, b0[y as int].update(x as int, c)));
            assert forall|i: int| 0 <= i < 16 implies (#[trigger] self.rows()[i]).len() == 16 by {
                if i == y {
                    assert(self.rows()[i] =~= b0[i as int].update(x as int, c));
                }
            }
        }
    }

    /// A fresh game with a pristine field.
    pub fn new() -> (g: MinesweeperGame)
        ensures
            g.wf(),
            fresh_field(g),
    {
        let g = MinesweeperGame {
            grid: fresh_grid(),
            cursor_x: 8,
            cursor_y: 8,
            game_over: false,
            won: false,
            mines_generated: false,
            flags_used: 0,
            cells_revealed: 0,
        };
        proof {
            lemma_fresh_counts(g.rows(), 16);
        }
        g
    }

    /// Reset to a fresh game.
    pub fn restart(&mut self)
        ensures
            final(self).wf(),
            fresh_field(*final(self)),
    {
        self.grid = fresh_grid();
        self.cursor_x = 8;
        self.cursor_y = 8;
        self.game_over = false;
        self.won = false;
        self.mines_generated = false;
        self.flags_used = 0;
        self.cells_revealed = 0;
        proof {
            lemma_fresh_counts(self.rows(), 16);
        }
    }

    /// How many of the eight neighbours of (`x`, `y`) hide a mine.
    pub fn count_adjacent_mines(&self, x: usize, y: usize) -> (n: u8)
        requires
            field_wf(self.rows()),
            x < 16,
            y < 16,
        ensures
            n as int == adj_mines_spec(self.rows(), x as int, y as int),
            n <= 8,
    {
        proof {
            reveal(adj_mines_spec);
        }
        let mut count: u8 = 0;
        if x > 0 && y > 0 && self.cell(x - 1, y - 1).is_mine {
            count = count + 1;
        }
        if y > 0 && self.cell(x, y - 1).is_mine {
            count = count + 1;
        }
        if x + 1 < 16 && y > 0 && self.cell(x + 1, y - 1).is_mine {
            count = count + 1;
        }
        if x > 0 && self.cell(x - 1, y).is_mine {
            count = count + 1;
        }
        if x + 1 < 16 && self.cell(x + 1, y).is_mine {
            count = count + 1;
        }
        if x > 0 && y + 1 < 16 && self.cell(x - 1, y + 1).is_mine {
            count = count + 1;
        }
        if y + 1 < 16 && self.cell(x, y + 1).is_mine {
            count = count + 1;
        }
        if x + 1 < 16 && y + 1 < 16 && self.cell(x + 1, y + 1).is_mine {
            count = count + 1;
        }
        count
    }

    /// Plant or lift a flag on a hidden cell under the flag budget; a
    /// revealed cell or an out-of-range position is left alone.
    #[verifier::rlimit(100)]
    pub fn toggle_flag(&mut self, x: usize, y: usize)
        requires
            old(self).wf(),
            !old(self).game_over,
        ensures
            final(self).wf(),
            final(self).cursor_x == old(self).cursor_x,
            final(self).cursor_y == old(self).cursor_y,
            final(self).game_over == old(self).game_over,
            final(self).won == old(self).won,
            final(self).mines_generated == old(self).mines_generated,
            final(self).cells_revealed == old(self).cells_revealed,
            (if x < 16 && y < 16 {
                let c0 = old(self).rows()[y as int][x as int];
                match c0.state {
                    CellState::Hidden => if old(self).flags_used < 40 {
                        final(self).rows() =~= old(self).rows().update(
                            y as int,
                            old(self).rows()[y as int].update(
                                x as int,
                                Cell { state: CellState::Flagged, ..c0 },
                            ),
                        ) && final(self).flags_used == old(self).flags_used + 1
                    } else {
                        *final(self) == *old(self)
                    },
                    CellState::Flagged => final(self).rows() =~= old(self).rows().update(
                        y as int,
                        old(self).rows()[y as int].update(
                            x as int,
                            Cell { state: CellState::Hidden, ..c0 },
                        ),
                    ) && final(self).flags_used == old(self).flags_used - 1,
                    CellState::Revealed => *final(self) == *old(self),
                }
            } else {
                *final(self) == *old(self)
            }),
    {
        if x >= 16 || y >= 16 {
            return ;
        }
        let ghost b0 = self.rows();
        proof {
            if !self.mines_generated {
                lemma_counts_ok_trivial(b0);
            }
        }
        let c = self.cell(x, y);
        match c.state {
            CellState::Hidden => {
                if self.flags_used < 40 {
                    let c2 = Cell { state: CellState::Flagged, ..c };
                    self.put_cell(x, y, c2);
                    self.flags_used = self.flags_used + 1;
                    proof {
                        lemma_grid_count_update(b0, 16, flag_pred(), y as int, x as int, c2);
                        lemma_grid_count_update(b0, 16, revealed_pred(), y as int, x as int, c2);
                        lemma_grid_count_update(b0, 16, mine_pred(), y as int, x as int, c2);
                        lemma_counts_ok_state_change(b0, y as int, x as int, c2);
                    }
                }
            },
            CellState::Flagged => {
                let c2 = Cell { state: CellState::Hidden, ..c };
                proof {
                    lemma_grid_count_member(b0, 16, flag_pred(), y as int, x as int);
                }
                self.put_cell(x, y, c2);
                self.flags_used = self.flags_used - 1;
                proof {
                    lemma_grid_count_update(b0, 16, flag_pred(), y as int, x as int, c2);
                    lemma_grid_count_update(b0, 16, revealed_pred(), y as int, x as int, c2);
                    lemma_grid_count_update(b0, 16, mine_pred(), y as int, x as int, c2);
                    lemma_counts_ok_state_change(b0, y as int, x as int, c2);
                }
            },
            CellState::Revealed => {},
        }
    }

    /// Lay the mines after the first click at (`fx`, `fy`): the full
    /// complement of mines falls uniformly on cells away from the click,
    /// and every free cell learns its neighbour count. A second call does
    /// nothing.
    pub fn generate_mines(&mut self, first_click_x: usize, first_click_y: usize)
        requires
            old(self).wf(),
            first_click_x < 16,
            first_click_y < 16,
        ensures
            final(self).wf(),
            mines_laid(*old(self), *final(self), first_click_x as int, first_click_y as int),
    {
        if self.mines_generated {
            return ;
        }
        let ghost b0 = self.rows();
        let fx = first_click_x;
        let fy = first_click_y;

        let mut cands: Vec<(usize, usize)> = Vec::new();
        let mut skipped: usize = 0;
        let mut y: usize = 0;
        while y < 16
            invariant
                fx < 16,
                fy < 16,
                y <= 16,
                cands@.len() + skipped == 16 * y,
                skipped as int <= 3 * box_rows_before(fy as int, y as int),
                forall|k: int|
                    0 <= k < cands@.len() ==> {
                        let (cx, cy) = #[trigger] cands@[k];
                        cx < 16 && cy < 16 && !in_safe_box(fx as int, fy as int, cx as int, cy as int)
                    },
                forall|k: int|
                    0 <= k < cands@.len() ==> ((#[trigger] cands@[k]).1 as int) < y as int,
                forall|i: int, j: int|
                    0 <= i < j < cands@.len() ==> cands@[i] != cands@[j],
            decreases 16 - y,
        {
            let mut x: usize = 0;
            while x < 16
                invariant
                    fx < 16,
                    fy < 16,
                    y < 16,
                    x <= 16,
                    cands@.len() + skipped == 16 * y + x,
                    skipped as int <= 3 * box_rows_before(fy as int, y as int) + (if fy as int - 1
                        <= y as int <= fy as int + 1 {
                        box_cols_before(fx as int, x as int)
                    } else {
                        0int
                    }),
                    forall|k: int|
                        0 <= k < cands@.len() ==> {
                            let (cx, cy) = #[trigger] cands@[k];
                            cx < 16 && cy < 16 && !in_safe_box(
                                fx as int,
                                fy as int,
                                cx as int,
                                cy as int,
                            )
                        },
                    forall|k: int|
                        0 <= k < cands@.len() ==> (((#[trigger] cands@[k]).1 as int) < y as int || (
                        cands@[k].1 == y && (cands@[k].0 as int) < x as int)),
                    forall|i: int, j: int|
                        0 <= i < j < cands@.len() ==> cands@[i] != cands@[j],
                decreases 16 - x,
            {
                let in_box = x + 1 >= fx && x <= fx + 1 && y + 1 >= fy && y <= fy + 1;
                if in_box {
                    skipped = skipped + 1;
                } else {
                    cands.push((x, y));
                }
                x = x + 1;
            }
            y = y + 1;
        }
        assert(skipped <= 9);
        assert(cands@.len() >= 247);

        proof {
            lemma_no_mines_count(self.rows(), 16);
        }
        let mut placed: usize = 0;
        while placed < 40
            invariant
                fx < 16,
                fy < 16,
                placed <= 40,
                cands@.len() + placed >= 247,
                cands@.len() <= 256,
                field_wf(self.rows()),
                forall|yy: int, xx: int|
                    0 <= yy < 16 && 0 <= xx < 16 ==> (#[trigger] self.rows()[yy][xx]).state
                        == b0[yy][xx].state && self.rows()[yy][xx].adjacent_mines
                        == b0[yy][xx].adjacent_mines,
                forall|yy: int, xx: int|
                    0 <= yy < 16 && 0 <= xx < 16 && in_safe_box(fx as int, fy as int, xx, yy)
                        ==> !(#[trigger] self.rows()[yy][xx]).is_mine,
                grid_count(self.rows(), 16, mine_pred()) == placed,
                forall|k: int|
                    0 <= k < cands@.len() ==> {
                        let (cx, cy) = #[trigger] cands@[k];
                        cx < 16 && cy < 16 && !in_safe_box(
                            fx as int,
                            fy as int,
                            cx as int,
                            cy as int,
                        ) && !self.rows()[cy as int][cx as int].is_mine
                    },
                forall|i: int, j: int|
                    0 <= i < j < cands@.len() ==> cands@[i] != cands@[j],
                self.cursor_x == old(self).cursor_x,
                self.cursor_y == old(self).cursor_y,
                self.game_over == old(self).game_over,
                self.won == old(self).won,
                self.mines_generated == old(self).mines_generated,
                self.flags_used == old(self).flags_used,
                self.cells_revealed == old(self).cells_revealed,
            decreases 40 - placed,
        {
            let ghost cands0 = cands@;
            let pick = random_below(cands.len() as u32) as usize;
            let (mx, my) = cands.swap_remove(pick);
            proof {
                assert(cands0[pick as int] == (mx, my));
                assert forall|i: int, j: int|
                    0 <= i < j < cands@.len() implies cands@[i] != cands@[j] by {
                    assert(cands@ == cands0.update(pick as int, cands0.last()).drop_last());
                }
                assert forall|k: int| 0 <= k < cands@.len() implies cands@[k] != (mx, my) by {
                    assert(cands@ == cands0.update(pick as int, cands0.last()).drop_last());
                    if cands@[k] == (mx, my) {
                        if k == pick as int {
                            assert(cands@[k] == cands0.last());
                            assert(cands0[cands0.len() - 1] == cands0[pick as int]);
                        } else {
                            assert(cands@[k] == cands0[k]);
                        }
                    }
                }
            }
            let ghost bprev = self.rows();
            let c = self.cell(mx, my);
            let c2 = Cell { is_mine: true, ..c };
            self.put_cell(mx, my, c2);
            proof {
                lemma_grid_count_update(bprev, 16, mine_pred(), my as int, mx as int, c2);
            }
            placed = placed + 1;
        }

        let ghost b1 = self.rows();
        let mut ng: Vec<Vec<Cell>> = Vec::new();
        let mut yy: usize = 0;
        while yy < 16
            invariant
                field_wf(b1),
                b1 == self.rows(),
                yy <= 16,
                ng@.len() == yy,
                forall|j: int| 0 <= j < yy ==> (#[trigger] ng@[j])@.len() == 16,
                forall|j: int, i: int|
                    0 <= j < yy && 0 <= i < 16 ==> (#[trigger] ng@[j]@[i]) == (if b1[j][i].is_mine {
                        b1[j][i]
                    } else {
                        Cell { adjacent_mines: adj_mines_spec(b1, i, j) as u8, ..b1[j][i] }
                    }),
            decreases 16 - yy,
        {
            let mut row: Vec<Cell> = Vec::new();
            let mut xx: usize = 0;
            while xx < 16
                invariant
                    field_wf(b1),
                    b1 == self.rows(),
                    yy < 16,
                    xx <= 16,
                    row@.len() == xx,
                    forall|i: int|
                        0 <= i < xx ==> (#[trigger] row@[i]) == (if b1[yy as int][i].is_mine {
                            b1[yy as int][i]
                        } else {
                            Cell {
                                adjacent_mines: adj_mines_spec(b1, i, yy as int) as u8,
                                ..b1[yy as int][i]
                            }
                        }),
                decreases 16 - xx,
            {
                let c = self.cell(xx, yy);
                let c2: Cell = if c.is_mine {
                    c
                } else {
                    let n = self.count_adjacent_mines(xx, yy);
                    Cell { adjacent_mines: n, ..c }
                };
                row.push(c2);
                xx = xx + 1;
            }
            ng.push(row);
            yy = yy + 1;
        }
        self.grid = ng;
        self.mines_generated = true;
        proof {
            let b2 = self.rows();
            assert(field_wf(b2));
            assert forall|j: int, i: int|
                0 <= j < 16 && 0 <= i < 16 implies (#[trigger] b2[j][i]).is_mine == b1[j][i].is_mine
                && b2[j][i].state == b1[j][i].state by {}
            assert forall|j: int, i: int|
                0 <= j < 16 && 0 <= i < 16 implies #[trigger] adj_mines_spec(b2, i, j)
                == adj_mines_spec(b1, i, j) by {
                lemma_adj_congruent(b2, b1, i, j);
            }
            assert(counts_ok(b2)) by {
                reveal(counts_ok);
                assert forall|j: int, i: int|
                    0 <= j < 16 && 0 <= i < 16 && !(#[trigger] b2[j][i]).is_mine implies b2[j][i].adjacent_mines
                    as int == adj_mines_spec(b2, i, j) by {
                    assert(b2[j][i] == (if b1[j][i].is_mine {
                        b1[j][i]
                    } else {
                        Cell { adjacent_mines: adj_mines_spec(b1, i, j) as u8, ..b1[j][i] }
                    }));
                    assert(0 <= adj_mines_spec(b1, i, j) <= 8) by {
                        reveal(adj_mines_spec);
                    }
                    assert(adj_mines_spec(b2, i, j) == adj_mines_spec(b1, i, j));
                }
            }
            lemma_grid_count_congruent(b2, b1, 16, mine_pred());
            lemma_grid_count_congruent(b2, b0, 16, flag_pred());
            lemma_grid_count_congruent(b2, b0, 16, revealed_pred());
        }
    }

    /// Uncover the cell under (`x`, `y`). The first reveal of a game lays
    /// the mines first, sparing the click's surroundings. A mine ends the
    /// game and uncovers every mine; a free cell is uncovered and an open
    /// region floods outward; uncovering the last free cell wins.
    pub fn reveal_cell(&mut self, x: usize, y: usize)
        requires
            old(self).wf(),
            !old(self).game_over,
        ensures
            final(self).wf(),
            reveal_full(*old(self), *final(self), x as int, y as int),
    {
        if x >= 16 || y >= 16 {
            return ;
        }
        let c0 = self.cell(x, y);
        match c0.state {
            CellState::Hidden => {},
            _ => {
                return ;
            },
        }
        if !self.mines_generated {
            self.generate_mines(x, y);
        }
        let ghost mid = *self;
        proof {
            if !old(self).mines_generated {
                assert(in_safe_box(x as int, y as int, x as int, y as int));
            }
        }
        let c = self.cell(x, y);
        let ghost bmid = self.rows();
        proof {
            lemma_grid_count_bounds(bmid, 16, revealed_pred());
        }
        let c2 = Cell { state: CellState::Revealed, ..c };
        self.put_cell(x, y, c2);
        self.cells_revealed = self.cells_revealed + 1;
        proof {
            lemma_grid_count_update(bmid, 16, revealed_pred(), y as int, x as int, c2);
            lemma_grid_count_update(bmid, 16, flag_pred(), y as int, x as int, c2);
            lemma_grid_count_update(bmid, 16, mine_pred(), y as int, x as int, c2);
            lemma_counts_ok_state_change(bmid, y as int, x as int, c2);
        }
        if c.is_mine {
            self.game_over = true;
            let ghost b1 = self.rows();
            let mut ng: Vec<Vec<Cell>> = Vec::new();
            let mut yy: usize = 0;
            while yy < 16
                invariant
                    field_wf(b1),
                    b1 == self.rows(),
                    yy <= 16,
                    ng@.len() == yy,
                    forall|j: int| 0 <= j < yy ==> (#[trigger] ng@[j])@.len() == 16,
                    forall|j: int, i: int|
                        0 <= j < yy && 0 <= i < 16 ==> (#[trigger] ng@[j]@[i]) == (if b1[j][i].is_mine {
                            Cell { state: CellState::Revealed, ..b1[j][i] }
                        } else {
                            b1[j][i]
                        }),
                decreases 16 - yy,
            {
                let mut row: Vec<Cell> = Vec::new();
                let mut xx: usize = 0;
                while xx < 16
                    invariant
                        field_wf(b1),
                        b1 == self.rows(),
                        yy < 16,
                        xx <= 16,
                        row@.len() == xx,
                        forall|i: int|
                            0 <= i < xx ==> (#[trigger] row@[i]) == (if b1[yy as int][i].is_mine {
                                Cell { state: CellState::Revealed, ..b1[yy as int][i] }
                            } else {
                                b1[yy as int][i]
                            }),
                    decreases 16 - xx,
                {
                    let cc = self.cell(xx, yy);
                    let cc2: Cell = if cc.is_mine {
                        Cell { state: CellState::Revealed, ..cc }
                    } else {
                        cc
                    };
                    row.push(cc2);
                    xx = xx + 1;
                }
                ng.push(row);
                yy = yy + 1;
            }
            self.grid = ng;
            proof {
                let b2 = self.rows();
                assert(field_wf(b2));
                lemma_counts_ok_congruent(b1, b2);
                lemma_grid_count_congruent(b2, b1, 16, mine_pred());
                assert forall|j: int, i: int|
                    0 <= j < 16 && 0 <= i < 16 implies (#[trigger] b2[j][i]).state == (if mid.rows()[j][i].is_mine
                        || (j == y as int && i == x as int) {
                        CellState::Revealed
                    } else {
                        mid.rows()[j][i].state
                    }) by {}
                assert(reveal_core(mid, *self, x as int, y as int));
                assert(mines_laid(*old(self), mid, x as int, y as int));
                assert(reveal_full(*old(self), *self, x as int, y as int));
            }
            return ;
        }
        let ghost mid2 = *self;
        let mut changed: bool = true;
        loop
            invariant
                self.wf(),
                self.mines_generated,
                !self.game_over,
                self.won == mid2.won,
                self.cursor_x == mid2.cursor_x,
                self.cursor_y == mid2.cursor_y,
                self.flags_used == mid2.flags_used,
                forall|yy: int, xx: int|
                    0 <= yy < 16 && 0 <= xx < 16 ==> (#[trigger] self.rows()[yy][xx]).is_mine
                        == mid2.rows()[yy][xx].is_mine && self.rows()[yy][xx].adjacent_mines
                        == mid2.rows()[yy][xx].adjacent_mines,
                forall|yy: int, xx: int|
                    0 <= yy < 16 && 0 <= xx < 16 && (#[trigger] mid2.rows()[yy][xx]).state is Revealed
                        ==> self.rows()[yy][xx].state is Revealed,
                forall|yy: int, xx: int|
                    0 <= yy < 16 && 0 <= xx < 16 && (#[trigger] self.rows()[yy][xx]).state != mid2.rows()[yy][xx].state
                        ==> mid2.rows()[yy][xx].state is Hidden && self.rows()[yy][xx].state is Revealed
                        && !self.rows()[yy][xx].is_mine,
                !changed ==> forall|yy: int, xx: int|
                    0 <= yy < 16 && 0 <= xx < 16 && (#[trigger] self.rows()[yy][xx]).state is Hidden
                        ==> !open_neighbor(self.rows(), xx, yy),
                forall|yy: int, xx: int|
                    0 <= yy < 16 && 0 <= xx < 16 && (#[trigger] self.rows()[yy][xx]).state != mid2.rows()[yy][xx].state
                        ==> open_neighbor(self.rows(), xx, yy),
            ensures
                self.wf(),
                self.mines_generated,
                !self.game_over,
                self.won == mid2.won,
                self.cursor_x == mid2.cursor_x,
                self.cursor_y == mid2.cursor_y,
                self.flags_used == mid2.flags_used,
                forall|yy: int, xx: int|
                    0 <= yy < 16 && 0 <= xx < 16 ==> (#[trigger] self.rows()[yy][xx]).is_mine
                        == mid2.rows()[yy][xx].is_mine && self.rows()[yy][xx].adjacent_mines
                        == mid2.rows()[yy][xx].adjacent_mines,
                forall|yy: int, xx: int|
                    0 <= yy < 16 && 0 <= xx < 16 && (#[trigger] mid2.rows()[yy][xx]).state is Revealed
                        ==> self.rows()[yy][xx].state is Revealed,
                forall|yy: int, xx: int|
                    0 <= yy < 16 && 0 <= xx < 16 && (#[trigger] self.rows()[yy][xx]).state != mid2.rows()[yy][xx].state
                        ==> mid2.rows()[yy][xx].state is Hidden && self.rows()[yy][xx].state is Revealed
                        && !self.rows()[yy][xx].is_mine,
                forall|yy: int, xx: int|
                    0 <= yy < 16 && 0 <= xx < 16 && (#[trigger] self.rows()[yy][xx]).state is Hidden
                        ==> !open_neighbor(self.rows(), xx, yy),
                forall|yy: int, xx: int|
                    0 <= yy < 16 && 0 <= xx < 16 && (#[trigger] self.rows()[yy][xx]).state != mid2.rows()[yy][xx].state
                        ==> open_neighbor(self.rows(), xx, yy),
            decreases 2 * grid_count(self.rows(), 16, hidden_pred()) + (if changed {
                1int
            } else {
                0int
            }),
        {
            if !changed {
                break ;
            }
            proof {
                lemma_grid_count_bounds(self.rows(), 16, hidden_pred());
            }
            let ghost before_pass = *self;
            changed = self.flood_pass();
            proof {
                lemma_grid_count_bounds(self.rows(), 16, hidden_pred());
                assert forall|yy: int, xx: int|
                    0 <= yy < 16 && 0 <= xx < 16 && (#[trigger] self.rows()[yy][xx]).state
                        != mid2.rows()[yy][xx].state implies open_neighbor(
                    self.rows(),
                    xx,
                    yy,
                ) by {
                    if self.rows()[yy][xx].state == before_pass.rows()[yy][xx].state {
                        assert(open_neighbor(before_pass.rows(), xx, yy));
                    }
                }
            }
        }
        if self.cells_revealed == 216 {
            self.won = true;
        }
        proof {
            assert(self.rows()[y as int][x as int].state is Revealed) by {
                assert(mid2.rows()[y as int][x as int].state is Revealed);
            }
            assert forall|yy: int, xx: int|
                0 <= yy < 16 && 0 <= xx < 16 && (#[trigger] self.rows()[yy][xx]).state != mid.rows()[yy][xx].state implies mid.rows()[yy][xx].state is Hidden
                && self.rows()[yy][xx].state is Revealed && !self.rows()[yy][xx].is_mine by {
                if self.rows()[yy][xx].state == mid2.rows()[yy][xx].state {
                    assert(mid2.rows()[yy][xx].state != mid.rows()[yy][xx].state);
                } else {
                }
            }
            assert forall|yy: int, xx: int|
                0 <= yy < 16 && 0 <= xx < 16 && (#[trigger] self.rows()[yy][xx]).state != mid.rows()[yy][xx].state
                    && !(yy == y as int && xx == x as int) implies open_neighbor(
                self.rows(),
                xx,
                yy,
            ) by {
                assert(self.rows()[yy][xx].state != mid2.rows()[yy][xx].state);
            }
            assert(reveal_core(mid, *self, x as int, y as int));
            assert(mines_laid(*old(self), mid, x as int, y as int));
            assert(reveal_full(*old(self), *self, x as int, y as int));
        }
    }

    /// One sweep of the flood: uncover every hidden cell that touches an
    /// uncovered free cell with no mines around it. Whether anything was
    /// uncovered.
    #[verifier::rlimit(100)]
    fn flood_pass(&mut self) -> (changed: bool)
        requires
            old(self).wf(),
            old(self).mines_generated,
            !old(self).game_over,
        ensures
            final(self).wf(),
            final(self).mines_generated,
            !final(self).game_over,
            final(self).won == old(self).won,
            final(self).cursor_x == old(self).cursor_x,
            final(self).cursor_y == old(self).cursor_y,
            final(self).flags_used == old(self).flags_used,
            forall|yy: int, xx: int|
                0 <= yy < 16 && 0 <= xx < 16 ==> (#[trigger] final(self).rows()[yy][xx]).is_mine
                    == old(self).rows()[yy][xx].is_mine && final(self).rows()[yy][xx].adjacent_mines
                    == old(self).rows()[yy][xx].adjacent_mines,
            forall|yy: int, xx: int|
                0 <= yy < 16 && 0 <= xx < 16 && (#[trigger] old(self).rows()[yy][xx]).state is Revealed
                    ==> final(self).rows()[yy][xx].state is Revealed,
            forall|yy: int, xx: int|
                0 <= yy < 16 && 0 <= xx < 16 && (#[trigger] final(self).rows()[yy][xx]).state != old(self).rows()[yy][xx].state ==> old(self).rows()[yy][xx].state is Hidden && final(self).rows()[yy][xx].state is Revealed && !final(self).rows()[yy][xx].is_mine,
            !changed ==> *final(self) == *old(self),
            changed ==> grid_count(final(self).rows(), 16, hidden_pred()) < grid_count(
                old(self).rows(),
                16,
                hidden_pred(),
            ),
            !changed ==> forall|yy: int, xx: int|
                0 <= yy < 16 && 0 <= xx < 16 && (#[trigger] final(self).rows()[yy][xx]).state is Hidden
                    ==> !open_neighbor(final(self).rows(), xx, yy),
            forall|yy: int, xx: int|
                0 <= yy < 16 && 0 <= xx < 16 && (#[trigger] final(self).rows()[yy][xx]).state != old(
                    self,
                ).rows()[yy][xx].state ==> open_neighbor(final(self).rows(), xx, yy),
            forall|yy: int, xx: int|
                0 <= yy < 16 && 0 <= xx < 16 && #[trigger] open_neighbor(old(self).rows(), xx, yy)
                    ==> open_neighbor(final(self).rows(), xx, yy),
    {
        let ghost pre = *old(self);
        let mut changed: bool = false;
        let mut y: usize = 0;
        while y < 16
            invariant
                pre.wf(),
                pre.mines_generated,
                !pre.game_over,
                self.wf(),
                self.mines_generated,
                !self.game_over,
                self.won == pre.won,
                self.cursor_x == pre.cursor_x,
                self.cursor_y == pre.cursor_y,
                self.flags_used == pre.flags_used,
                y <= 16,
                forall|yy: int, xx: int|
                    0 <= yy < 16 && 0 <= xx < 16 ==> (#[trigger] self.rows()[yy][xx]).is_mine
                        == pre.rows()[yy][xx].is_mine && self.rows()[yy][xx].adjacent_mines
                        == pre.rows()[yy][xx].adjacent_mines,
                forall|yy: int, xx: int|
                    0 <= yy < 16 && 0 <= xx < 16 && (#[trigger] pre.rows()[yy][xx]).state is Revealed
                        ==> self.rows()[yy][xx].state is Revealed,
                forall|yy: int, xx: int|
                    0 <= yy < 16 && 0 <= xx < 16 && (#[trigger] self.rows()[yy][xx]).state != pre.rows()[yy][xx].state
                        ==> pre.rows()[yy][xx].state is Hidden && self.rows()[yy][xx].state is Revealed
                        && !self.rows()[yy][xx].is_mine,
                !changed ==> *self == pre,
                changed ==> grid_count(self.rows(), 16, hidden_pred()) < grid_count(
                    pre.rows(),
                    16,
                    hidden_pred(),
                ),
                !changed ==> forall|yy: int, xx: int|
                    0 <= yy < y as int && 0 <= xx < 16 && (#[trigger] pre.rows()[yy][xx]).state is Hidden
                        ==> !open_neighbor(pre.rows(), xx, yy),
                forall|yy: int, xx: int|
                    0 <= yy < 16 && 0 <= xx < 16 && (#[trigger] self.rows()[yy][xx]).state != pre.rows()[yy][xx].state
                        ==> open_neighbor(self.rows(), xx, yy),
            decreases 16 - y,
        {
            let mut x: usize = 0;
            while x < 16
                invariant
                    pre.wf(),
                    pre.mines_generated,
                    !pre.game_over,
                    self.wf(),
                    self.mines_generated,
                    !self.game_over,
                    self.won == pre.won,
                    self.cursor_x == pre.cursor_x,
                    self.cursor_y == pre.cursor_y,
                    self.flags_used == pre.flags_used,
                    y < 16,
                    x <= 16,
                    forall|yy: int, xx: int|
                        0 <= yy < 16 && 0 <= xx < 16 ==> (#[trigger] self.rows()[yy][xx]).is_mine
                            == pre.rows()[yy][xx].is_mine && self.rows()[yy][xx].adjacent_mines
                            == pre.rows()[yy][xx].adjacent_mines,
                    forall|yy: int, xx: int|
                        0 <= yy < 16 && 0 <= xx < 16 && (#[trigger] pre.rows()[yy][xx]).state is Revealed
                            ==> self.rows()[yy][xx].state is Revealed,
                    forall|yy: int, xx: int|
                        0 <= yy < 16 && 0 <= xx < 16 && (#[trigger] self.rows()[yy][xx]).state != pre.rows()[yy][xx].state
                            ==> pre.rows()[yy][xx].state is Hidden && self.rows()[yy][xx].state is Revealed
                            && !self.rows()[yy][xx].is_mine,
                    !changed ==> *self == pre,
                    changed ==> grid_count(self.rows(), 16, hidden_pred()) < grid_count(
                        pre.rows(),
                        16,
                        hidden_pred(),
                    ),
                    !changed ==> forall|yy: int, xx: int|
                        0 <= yy < y as int && 0 <= xx < 16 && (#[trigger] pre.rows()[yy][xx]).state is Hidden
                            ==> !open_neighbor(pre.rows(), xx, yy),
                    !changed ==> forall|xx: int|
                        0 <= xx < x as int && (#[trigger] pre.rows()[y as int][xx]).state is Hidden
                            ==> !open_neighbor(pre.rows(), xx, y as int),
                    forall|yy: int, xx: int|
                        0 <= yy < 16 && 0 <= xx < 16 && (#[trigger] self.rows()[yy][xx]).state != pre.rows()[yy][xx].state
                            ==> open_neighbor(self.rows(), xx, yy),
                decreases 16 - x,
            {
                let c = self.cell(x, y);
                let is_hidden = match c.state {
                    CellState::Hidden => true,
                    _ => false,
                };
                if is_hidden && self.has_open_neighbor(x, y) {
                    proof {
                        lemma_open_neighbor_safe(self.rows(), x as int, y as int);
                    }
                    let ghost bprev = self.rows();
                    proof {
                        lemma_grid_count_bounds(bprev, 16, revealed_pred());
                    }
                    let c2 = Cell { state: CellState::Revealed, ..c };
                    self.put_cell(x, y, c2);
                    self.cells_revealed = self.cells_revealed + 1;
                    changed = true;
                    proof {
                        lemma_grid_count_update(bprev, 16, revealed_pred(), y as int, x as int, c2);
                        lemma_grid_count_update(bprev, 16, flag_pred(), y as int, x as int, c2);
                        lemma_grid_count_update(bprev, 16, mine_pred(), y as int, x as int, c2);
                        lemma_grid_count_update(bprev, 16, hidden_pred(), y as int, x as int, c2);
                        lemma_counts_ok_state_change(bprev, y as int, x as int, c2);
                        lemma_grid_count_bounds(pre.rows(), 16, hidden_pred());
                        assert forall|yy: int, xx: int|
                            0 <= yy < 16 && 0 <= xx < 16 && (#[trigger] self.rows()[yy][xx]).state
                                != pre.rows()[yy][xx].state implies open_neighbor(
                            self.rows(),
                            xx,
                            yy,
                        ) by {
                            if yy == y as int && xx == x as int {
                                lemma_open_neighbor_monotone(bprev, self.rows(), xx, yy);
                            } else {
                                assert(bprev[yy][xx].state != pre.rows()[yy][xx].state);
                                lemma_open_neighbor_monotone(bprev, self.rows(), xx, yy);
                            }
                        }
                    }
                }
                x = x + 1;
            }
            y = y + 1;
        }
        proof {
            assert forall|yy: int, xx: int|
                0 <= yy < 16 && 0 <= xx < 16 && #[trigger] open_neighbor(pre.rows(), xx, yy) implies open_neighbor(
                self.rows(),
                xx,
                yy,
            ) by {
                lemma_open_neighbor_monotone(pre.rows(), self.rows(), xx, yy);
            }
        }
        changed
    }

    /// Whether one of the eight neighbours is an uncovered free cell with
    /// no mines around it.
    fn has_open_neighbor(&self, x: usize, y: usize) -> (r: bool)
        requires
            field_wf(self.rows()),
            x < 16,
            y < 16,
        ensures
            r == open_neighbor(self.rows(), x as int, y as int),
    {
        let mut found: bool = false;
        if x > 0 && y > 0 && is_open(&self.cell(x - 1, y - 1)) {
            found = true;
        }
        if y > 0 && is_open(&self.cell(x, y - 1)) {
            found = true;
        }
        if x + 1 < 16 && y > 0 && is_open(&self.cell(x + 1, y - 1)) {
            found = true;
        }
        if x > 0 && is_open(&self.cell(x - 1, y)) {
            found = true;
        }
        if x + 1 < 16 && is_open(&self.cell(x + 1, y)) {
            found = true;
        }
        if x > 0 && y + 1 < 16 && is_open(&self.cell(x - 1, y + 1)) {
            found = true;
        }
        if y + 1 < 16 && is_open(&self.cell(x, y + 1)) {
            found = true;
        }
        if x + 1 < 16 && y + 1 < 16 && is_open(&self.cell(x + 1, y + 1)) {
            found = true;
        }
        proof {
            if !found {
                assert forall|nx: int, ny: int|
                    0 <= nx < 16 && 0 <= ny < 16 && (nx != x as int || ny != y as int) && x as int
                        - 1 <= nx <= x as int + 1 && y as int - 1 <= ny <= y as int
                        + 1 implies !((#[trigger] self.rows()[ny][nx]).state is Revealed
                    && !self.rows()[ny][nx].is_mine && self.rows()[ny][nx].adjacent_mines == 0) by {}
            }
        }
        found
    }

    /// Dispatch one key press: cursor movement, uncovering, flagging and
    /// restarting while play goes on; after a win or a loss only restart
    /// and quit act. Unmapped keys are a silent no-op.
    pub fn handle_key(&mut self, key: Key) -> (action: GameAction)
        requires
            old(self).wf(),
        ensures
            final(self).wf(),
            ms_key_rel(*old(self), *final(self), key, action),
    {
        if self.game_over || self.won {
            match key {
                Key::Char(ch) => {
                    if ch == 'r' {
                        self.restart();
                        GameAction::Continue
                    } else if ch == 'q' {
                        GameAction::Quit
                    } else {
                        GameAction::Continue
                    }
                },
                _ => GameAction::Continue,
            }
        } else {
            match key {
                Key::Up => {
                    if self.cursor_y > 0 {
                        self.cursor_y = self.cursor_y - 1;
                    }
                    GameAction::Continue
                },
                Key::Down => {
                    if self.cursor_y < 15 {
                        self.cursor_y = self.cursor_y + 1;
                    }
                    GameAction::Continue
                },
                Key::Left => {
                    if self.cursor_x > 0 {
                        self.cursor_x = self.cursor_x - 1;
                    }
                    GameAction::Continue
                },
                Key::Right => {
                    if self.cursor_x < 15 {
                        self.cursor_x = self.cursor_x + 1;
                    }
                    GameAction::Continue
                },
                Key::Enter => {
                    let cx = self.cursor_x;
                    let cy = self.cursor_y;
                    self.reveal_cell(cx, cy);
                    GameAction::Continue
                },
                Key::Char(ch) => {
                    if ch == 'w' {
                        if self.cursor_y > 0 {
                            self.cursor_y = self.cursor_y - 1;
                        }
                        GameAction::Continue
                    } else if ch == 's' {
                        if self.cursor_y < 15 {
                            self.cursor_y = self.cursor_y + 1;
                        }
                        GameAction::Continue
                    } else if ch == 'a' {
                        if self.cursor_x > 0 {
                            self.cursor_x = self.cursor_x - 1;
                        }
                        GameAction::Continue
                    } else if ch == 'd' {
                        if self.cursor_x < 15 {
                            self.cursor_x = self.cursor_x + 1;
                        }
                        GameAction::Continue
                    } else if ch == ' ' {
                        let cx = self.cursor_x;
                        let cy = self.cursor_y;
                        self.reveal_cell(cx, cy);
                        GameAction::Continue
                    } else if ch == 'f' {
                        let cx = self.cursor_x;
                        let cy = self.cursor_y;
                        self.toggle_flag(cx, cy);
                        GameAction::Continue
                    } else if ch == 'r' {
                        self.restart();
                        GameAction::Continue
                    } else if ch == 'q' {
                        GameAction::Quit
                    } else {
                        GameAction::Continue
                    }
                },
                _ => GameAction::Continue,
            }
        }
    }

    /// Ticks do nothing in this turn-based game.
    pub fn update(&mut self) -> (action: GameAction)
        ensures
            *final(self) == *old(self),
            action == GameAction::Continue,
    {
        GameAction::Continue
    }

    /// The registry name of this game.
    pub fn name(&self) -> (r: &'static str)
        ensures
            r@ == "Minesweeper"@,
    {
        "Minesweeper"
    }

    /// The registry description of this game.
    pub fn description(&self) -> (r: &'static str)
        ensures
            r@ == "Classic mine detection game"@,
    {
        "Classic mine detection game"
    }

    /// How long the driving loop waits between ticks, in milliseconds.
    pub fn tick_rate(&self) -> (r: u64)
        ensures
            r == 100,
    {
        100
    }

    /// The one-character label a cell shows: blank while hidden or empty,
    /// the flag mark, the mine mark, or its neighbour count.
    pub fn get_cell_text(cell: &Cell) -> (r: String)
        requires
            cell.adjacent_mines <= 8,
        ensures
            r@ == match cell.state {
                CellState::Hidden => " "@,
                CellState::Flagged => "F"@,
                CellState::Revealed => if cell.is_mine {
                    "*"@
                } else if cell.adjacent_mines == 1 {
                    "1"@
                } else if cell.adjacent_mines == 2 {
                    "2"@
                } else if cell.adjacent_mines == 3 {
                    "3"@
                } else if cell.adjacent_mines == 4 {
                    "4"@
                } else if cell.adjacent_mines == 5 {
                    "5"@
                } else if cell.adjacent_mines == 6 {
                    "6"@
                } else if cell.adjacent_mines == 7 {
                    "7"@
                } else if cell.adjacent_mines == 8 {
                    "8"@
                } else {
                    " "@
                },
            },
    {
        match cell.state {
            CellState::Hidden => " ".to_owned(),
            CellState::Flagged => "F".to_owned(),
            CellState::Revealed => {
                if cell.is_mine {
                    "*".to_owned()
                } else {
                    match cell.adjacent_mines {
                        1 => "1".to_owned(),
                        2 => "2".to_owned(),
                        3 => "3".to_owned(),
                        4 => "4".to_owned(),
                        5 => "5".to_owned(),
                        6 => "6".to_owned(),
                        7 => "7".to_owned(),
                        8 => "8".to_owned(),
                        _ => " ".to_owned(),
                    }
                }
            },
        }
    }
}

/// How many columns of the protected box lie strictly left of `x`.
pub open spec fn box_cols_before(fx: int, x: int) -> int {
    (if fx >= 1 && fx - 1 < x {
        1int
    } else {
        0int
    }) + (if fx < x {
        1int
    } else {
        0int
    }) + (if fx + 1 < x {
        1int
    } else {
        0int
    })
}

/// How many rows of the protected box lie strictly above `y`.
pub open spec fn box_rows_before(fy: int, y: int) -> int {
    (if fy >= 1 && fy - 1 < y {
        1int
    } else {
        0int
    }) + (if fy < y {
        1int
    } else {
        0int
    }) + (if fy + 1 < y {
        1int
    } else {
        0int
    })
}

/// Whether (`x`, `y`) lies in the protected three-by-three box around the
/// first click.
pub open spec fn in_safe_box(fx: int, fy: int, x: int, y: int) -> bool {
    fx - 1 <= x <= fx + 1 && fy - 1 <= y <= fy + 1
}

/// How the field looks right after the mines are laid for a first click at
/// (`fx`, `fy`): exactly the full complement of mines, none near the
/// click, correct neighbour counts, every cell's visible state untouched,
/// and every counter as it was. Laying mines twice does nothing.
pub open spec fn mines_laid(
    pre: MinesweeperGame,
    post: MinesweeperGame,
    fx: int,
    fy: int,
) -> bool {
    if pre.mines_generated {
        post == pre
    } else {
        &&& post.wf()
        &&& post.mines_generated
        &&& forall|y: int, x: int|
            0 <= y < 16 && 0 <= x < 16 ==> (#[trigger] post.rows()[y][x]).state
                == pre.rows()[y][x].state
        &&& forall|y: int, x: int|
            0 <= y < 16 && 0 <= x < 16 && in_safe_box(fx, fy, x, y) ==> !(
            #[trigger] post.rows()[y][x]).is_mine
        &&& post.cursor_x == pre.cursor_x
        &&& post.cursor_y == pre.cursor_y
        &&& post.game_over == pre.game_over
        &&& post.won == pre.won
        &&& post.flags_used == pre.flags_used
        &&& post.cells_revealed == pre.cells_revealed
    }
}

/// What revealing the hidden cell (`x`, `y`) does once the mines lie: a
/// mine ends the game and uncovers every mine; a free cell is uncovered,
/// an open region floods outward onto free cells only, and uncovering the
/// last free cell wins.
pub open spec fn reveal_core(
    pre: MinesweeperGame,
    post: MinesweeperGame,
    x: int,
    y: int,
) -> bool {
    let c = pre.rows()[y][x];
    &&& post.cursor_x == pre.cursor_x
    &&& post.cursor_y == pre.cursor_y
    &&& post.flags_used == pre.flags_used
    &&& post.mines_generated == pre.mines_generated
    &&& forall|yy: int, xx: int|
        0 <= yy < 16 && 0 <= xx < 16 ==> (#[trigger] post.rows()[yy][xx]).is_mine
            == pre.rows()[yy][xx].is_mine && post.rows()[yy][xx].adjacent_mines
            == pre.rows()[yy][xx].adjacent_mines
    &&& (if c.is_mine {
        &&& post.game_over
        &&& post.won == pre.won
        &&& post.cells_revealed == pre.cells_revealed + 1
        &&& forall|yy: int, xx: int|
            0 <= yy < 16 && 0 <= xx < 16 ==> (#[trigger] post.rows()[yy][xx]).state == (if pre.rows()[yy][xx].is_mine
                || (yy == y && xx == x) {
                CellState::Revealed
            } else {
                pre.rows()[yy][xx].state
            })
    } else {
        &&& post.game_over == pre.game_over
        &&& post.rows()[y][x].state is Revealed
        &&& forall|yy: int, xx: int|
            0 <= yy < 16 && 0 <= xx < 16 && (#[trigger] pre.rows()[yy][xx]).state is Revealed
                ==> post.rows()[yy][xx].state is Revealed
        &&& forall|yy: int, xx: int|
            0 <= yy < 16 && 0 <= xx < 16 && (#[trigger] post.rows()[yy][xx]).state != pre.rows()[yy][xx].state
                ==> pre.rows()[yy][xx].state is Hidden && post.rows()[yy][xx].state is Revealed
                && !post.rows()[yy][xx].is_mine
        &&& post.cells_revealed == grid_count(post.rows(), 16, revealed_pred())
        &&& post.won == (pre.won || post.cells_revealed == 216)
        &&& forall|yy: int, xx: int|
            0 <= yy < 16 && 0 <= xx < 16 && (#[trigger] post.rows()[yy][xx]).state is Hidden
                ==> !open_neighbor(post.rows(), xx, yy)
        &&& forall|yy: int, xx: int|
            0 <= yy < 16 && 0 <= xx < 16 && (#[trigger] post.rows()[yy][xx]).state != pre.rows()[yy][xx].state
                && !(yy == y && xx == x) ==> open_neighbor(post.rows(), xx, yy)
    })
}

/// Two fields with the same mine layout number their neighbours alike.
proof fn lemma_adj_congruent(a: Seq<Seq<Cell>>, b: Seq<Seq<Cell>>, x: int, y: int)
    requires
        forall|yy: int, xx: int|
            0 <= yy < 16 && 0 <= xx < 16 ==> (#[trigger] a[yy][xx]).is_mine == b[yy][xx].is_mine,
    ensures
        adj_mines_spec(a, x, y) == adj_mines_spec(b, x, y),
{
    reveal(adj_mines_spec);
    assert forall|dx: int, dy: int|
        -1 <= dx <= 1 && -1 <= dy <= 1 implies #[trigger] mine_at(a, x + dx, y + dy) == mine_at(
        b,
        x + dx,
        y + dy,
    ) by {}
}

/// A field without a single mine counts no mines.
proof fn lemma_no_mines_count(b: Seq<Seq<Cell>>, n: int)
    requires
        field_wf(b),
        0 <= n <= 16,
        forall|yy: int, xx: int|
            0 <= yy < 16 && 0 <= xx < 16 ==> !(#[trigger] b[yy][xx]).is_mine,
    ensures
        grid_count(b, n, mine_pred()) == 0,
    decreases n,
{
    if n > 0 {
        lemma_no_mines_count(b, n - 1);
        lemma_no_mines_row(b[n - 1], 16, n - 1, b);
    }
}

/// One mine-free row counts no mines.
proof fn lemma_no_mines_row(row: Seq<Cell>, n: int, y: int, b: Seq<Seq<Cell>>)
    requires
        0 <= n <= 16,
        0 <= y < 16,
        row == b[y],
        forall|yy: int, xx: int|
            0 <= yy < 16 && 0 <= xx < 16 ==> !(#[trigger] b[yy][xx]).is_mine,
    ensures
        row_count(row, n, mine_pred()) == 0,
    decreases n,
{
    if n > 0 {
        lemma_no_mines_row(row, n - 1, y, b);
    }
}

/// With no mines and no stored counts, the numbering is trivially right.
proof fn lemma_counts_ok_trivial(b: Seq<Seq<Cell>>)
    requires
        field_wf(b),
        forall|yy: int, xx: int|
            0 <= yy < 16 && 0 <= xx < 16 ==> !(#[trigger] b[yy][xx]).is_mine
                && b[yy][xx].adjacent_mines == 0,
    ensures
        counts_ok(b),
{
    reveal(counts_ok);
    reveal(adj_mines_spec);
    assert forall|y: int, x: int|
        0 <= y < 16 && 0 <= x < 16 && !(#[trigger] b[y][x]).is_mine implies b[y][x].adjacent_mines
        as int == adj_mines_spec(b, x, y) by {
        assert forall|dx: int, dy: int|
            -1 <= dx <= 1 && -1 <= dy <= 1 implies #[trigger] mine_at(b, x + dx, y + dy)
            == 0 by {}
    }
}

/// The effect of one cursor move: one step, stopped at the field's edge.
pub open spec fn cursor_moved(
    pre: MinesweeperGame,
    post: MinesweeperGame,
    dx: int,
    dy: int,
) -> bool {
    &&& post.cursor_x as int == (if 0 <= pre.cursor_x + dx < 16 {
        pre.cursor_x + dx
    } else {
        pre.cursor_x as int
    })
    &&& post.cursor_y as int == (if 0 <= pre.cursor_y + dy < 16 {
        pre.cursor_y + dy
    } else {
        pre.cursor_y as int
    })
    &&& post.grid == pre.grid
    &&& post.game_over == pre.game_over
    &&& post.won == pre.won
    &&& post.mines_generated == pre.mines_generated
    &&& post.flags_used == pre.flags_used
    &&& post.cells_revealed == pre.cells_revealed
}

/// What one key press does, per key and per phase of the game.
pub open spec fn ms_key_rel(
    pre: MinesweeperGame,
    post: MinesweeperGame,
    key: Key,
    action: GameAction,
) -> bool {
    if pre.game_over || pre.won {
        match key {
            Key::Char(ch) => {
                if ch == 'r' {
                    action == GameAction::Continue && fresh_field(post)
                } else if ch == 'q' {
                    action == GameAction::Quit && post == pre
                } else {
                    action == GameAction::Continue && post == pre
                }
            },
            _ => action == GameAction::Continue && post == pre,
        }
    } else {
        match key {
            Key::Up => action == GameAction::Continue && cursor_moved(pre, post, 0, -1),
            Key::Down => action == GameAction::Continue && cursor_moved(pre, post, 0, 1),
            Key::Left => action == GameAction::Continue && cursor_moved(pre, post, -1, 0),
            Key::Right => action == GameAction::Continue && cursor_moved(pre, post, 1, 0),
            Key::Enter => action == GameAction::Continue && reveal_full(
                pre,
                post,
                pre.cursor_x as int,
                pre.cursor_y as int,
            ),
            Key::Char(ch) => {
                if ch == 'w' {
                    action == GameAction::Continue && cursor_moved(pre, post, 0, -1)
                } else if ch == 's' {
                    action == GameAction::Continue && cursor_moved(pre, post, 0, 1)
                } else if ch == 'a' {
                    action == GameAction::Continue && cursor_moved(pre, post, -1, 0)
                } else if ch == 'd' {
                    action == GameAction::Continue && cursor_moved(pre, post, 1, 0)
                } else if ch == ' ' {
                    action == GameAction::Continue && reveal_full(
                        pre,
                        post,
                        pre.cursor_x as int,
                        pre.cursor_y as int,
                    )
                } else if ch == 'f' {
                    action == GameAction::Continue && flag_toggled(
                        pre,
                        post,
                        pre.cursor_x as int,
                        pre.cursor_y as int,
                    )
                } else if ch == 'r' {
                    action == GameAction::Continue && fresh_field(post)
                } else if ch == 'q' {
                    action == GameAction::Quit && post == pre
                } else {
                    action == GameAction::Continue && post == pre
                }
            },
            _ => action == GameAction::Continue && post == pre,
        }
    }
}

/// The effect of toggling a flag at (`x`, `y`), as `toggle_flag` leaves
/// it.
pub open spec fn flag_toggled(
    pre: MinesweeperGame,
    post: MinesweeperGame,
    x: int,
    y: int,
) -> bool {
    &&& post.cursor_x == pre.cursor_x
    &&& post.cursor_y == pre.cursor_y
    &&& post.game_over == pre.game_over
    &&& post.won == pre.won
    &&& post.mines_generated == pre.mines_generated
    &&& post.cells_revealed == pre.cells_revealed
    &&& (if 0 <= x < 16 && 0 <= y < 16 {
        let c0 = pre.rows()[y][x];
        match c0.state {
            CellState::Hidden => if pre.flags_used < 40 {
                post.rows() =~= pre.rows().update(
                    y,
                    pre.rows()[y].update(x, Cell { state: CellState::Flagged, ..c0 }),
                ) && post.flags_used == pre.flags_used + 1
            } else {
                post == pre
            },
            CellState::Flagged => post.rows() =~= pre.rows().update(
                y,
                pre.rows()[y].update(x, Cell { state: CellState::Hidden, ..c0 }),
            ) && post.flags_used == pre.flags_used - 1,
            CellState::Revealed => post == pre,
        }
    } else {
        post == pre
    })
}

/// An uncovered free cell whose count is zero, seen from a neighbour.
pub open spec fn open_neighbor(b: Seq<Seq<Cell>>, x: int, y: int) -> bool {
    exists|nx: int, ny: int|
        0 <= nx < 16 && 0 <= ny < 16 && (nx != x || ny != y) && x - 1 <= nx <= x + 1 && y - 1 <= ny
            <= y + 1 && (#[trigger] b[ny][nx]).state is Revealed && !b[ny][nx].is_mine
            && b[ny][nx].adjacent_mines == 0
}

/// The whole effect of `reveal_cell`: nothing on an out-of-range or
/// already-settled cell; otherwise the mines are laid if need be and the
/// uncovering of `reveal_core` follows.
pub open spec fn reveal_full(
    pre: MinesweeperGame,
    post: MinesweeperGame,
    x: int,
    y: int,
) -> bool {
    if 0 <= x < 16 && 0 <= y < 16 && pre.rows()[y][x].state is Hidden {
        exists|mid: MinesweeperGame|
            #[trigger] mines_laid(pre, mid, x, y) && reveal_core(mid, post, x, y)
    } else {
        post == pre
    }
}

/// Whether a cell is an uncovered free cell with no mines around it.
fn is_open(c: &Cell) -> (r: bool)
    ensures
        r == (c.state is Revealed && !c.is_mine && c.adjacent_mines == 0),
{
    let revealed = match c.state {
        CellState::Revealed => true,
        _ => false,
    };
    revealed && !c.is_mine && c.adjacent_mines == 0
}

/// A hidden cell beside an uncovered zero-count free cell hides no mine:
/// the zero count rules every neighbouring mine out.
proof fn lemma_open_neighbor_safe(b: Seq<Seq<Cell>>, x: int, y: int)
    requires
        field_wf(b),
        counts_ok(b),
        open_neighbor(b, x, y),
        0 <= x < 16,
        0 <= y < 16,
    ensures
        !b[y][x].is_mine,
{
    let (nx, ny): (int, int) = choose|nx: int, ny: int|
        0 <= nx < 16 && 0 <= ny < 16 && (nx != x || ny != y) && x - 1 <= nx <= x + 1 && y - 1 <= ny
            <= y + 1 && (#[trigger] b[ny][nx]).state is Revealed && !b[ny][nx].is_mine
            && b[ny][nx].adjacent_mines == 0;
    reveal(counts_ok);
    reveal(adj_mines_spec);
    assert(adj_mines_spec(b, nx, ny) == 0);
    assert(mine_at(b, x, y) == 0);
}

/// An open neighbour stays open while cells are only uncovered and the
/// layout stands still.
proof fn lemma_open_neighbor_monotone(a: Seq<Seq<Cell>>, b: Seq<Seq<Cell>>, x: int, y: int)
    requires
        open_neighbor(a, x, y),
        forall|yy: int, xx: int|
            0 <= yy < 16 && 0 <= xx < 16 ==> (#[trigger] b[yy][xx]).is_mine == a[yy][xx].is_mine
                && b[yy][xx].adjacent_mines == a[yy][xx].adjacent_mines,
        forall|yy: int, xx: int|
            0 <= yy < 16 && 0 <= xx < 16 && (#[trigger] a[yy][xx]).state is Revealed
                ==> b[yy][xx].state is Revealed,
    ensures
        open_neighbor(b, x, y),
{
    let (nx, ny): (int, int) = choose|nx: int, ny: int|
        0 <= nx < 16 && 0 <= ny < 16 && (nx != x || ny != y) && x - 1 <= nx <= x + 1 && y - 1 <= ny
            <= y + 1 && (#[trigger] a[ny][nx]).state is Revealed && !a[ny][nx].is_mine
            && a[ny][nx].adjacent_mines == 0;
    assert(b[ny][nx].state is Revealed && !b[ny][nx].is_mine && b[ny][nx].adjacent_mines == 0);
}

/// Fields with the same mines and numbers are numbered right together.
proof fn lemma_counts_ok_congruent(a: Seq<Seq<Cell>>, b: Seq<Seq<Cell>>)
    requires
        field_wf(a),
        field_wf(b),
        counts_ok(a),
        forall|yy: int, xx: int|
            0 <= yy < 16 && 0 <= xx < 16 ==> (#[trigger] a[yy][xx]).is_mine == b[yy][xx].is_mine
                && a[yy][xx].adjacent_mines == b[yy][xx].adjacent_mines,
    ensures
        counts_ok(b),
{
    reveal(counts_ok);
    assert forall|y: int, x: int|
        0 <= y < 16 && 0 <= x < 16 && !(#[trigger] b[y][x]).is_mine implies b[y][x].adjacent_mines
        as int == adj_mines_spec(b, x, y) by {
        assert(!a[y][x].is_mine);
        assert(a[y][x].adjacent_mines as int == adj_mines_spec(a, x, y));
        lemma_adj_congruent(a, b, x, y);
    }
}

/// Changing only a cell's visible state never disturbs the stored
/// neighbour counts' correctness.
proof fn lemma_counts_ok_state_change(b: Seq<Seq<Cell>>, y: int, x: int, c: Cell)
    requires
        field_wf(b),
        0 <= y < 16,
        0 <= x < 16,
        c.is_mine == b[y][x].is_mine,
        c.adjacent_mines == b[y][x].adjacent_mines,
        counts_ok(b),
    ensures
        counts_ok(b.update(y, b[y].update(x, c))),
{
    reveal(counts_ok);
    let b2 = b.update(y, b[y].update(x, c));
    assert forall|yy: int, xx: int|
        0 <= yy < 16 && 0 <= xx < 16 && !(#[trigger] b2[yy][xx]).is_mine implies b2[yy][xx].adjacent_mines
        as int == adj_mines_spec(b2, xx, yy) by {
        assert(b2[yy][xx].adjacent_mines == b[yy][xx].adjacent_mines);
        assert(b2[yy][xx].is_mine == b[yy][xx].is_mine);
        lemma_adj_congruent(b2, b, xx, yy);
    }
}

/// Two fields whose cells agree under `f` count alike.
proof fn lemma_row_count_congruent(a: Seq<Cell>, b: Seq<Cell>, n: int, f: spec_fn(Cell) -> bool)
    requires
        0 <= n,
        forall|k: int| 0 <= k < n ==> f(#[trigger] a[k]) == f(b[k]),
    ensures
        row_count(a, n, f) == row_count(b, n, f),
    decreases n,
{
    if n > 0 {
        lemma_row_count_congruent(a, b, n - 1, f);
    }
}

/// Two fields whose cells agree under `f` count alike.
proof fn lemma_grid_count_congruent(
    a: Seq<Seq<Cell>>,
    b: Seq<Seq<Cell>>,
    n: int,
    f: spec_fn(Cell) -> bool,
)
    requires
        field_wf(a),
        field_wf(b),
        0 <= n <= 16,
        forall|y: int, x: int| 0 <= y < 16 && 0 <= x < 16 ==> f(#[trigger] a[y][x]) == f(b[y][x]),
    ensures
        grid_count(a, n, f) == grid_count(b, n, f),
    decreases n,
{
    if n > 0 {
        lemma_grid_count_congruent(a, b, n - 1, f);
        assert forall|k: int| 0 <= k < 16 implies f(#[trigger] a[n - 1][k]) == f(
            b[n - 1][k],
        ) by {}
        lemma_row_count_congruent(a[n - 1], b[n - 1], 16, f);
    }
}

/// A pristine field has nothing flagged, revealed or mined.
proof fn lemma_fresh_counts(b: Seq<Seq<Cell>>, n: int)
    requires
        0 <= n <= 16,
        field_wf(b),
        forall|y: int, x: int|
            0 <= y < 16 && 0 <= x < 16 ==> (#[trigger] b[y][x]) == (Cell {
                is_mine: false,
                adjacent_mines: 0,
                state: CellState::Hidden,
            }),
    ensures
        grid_count(b, n, flag_pred()) == 0,
        grid_count(b, n, revealed_pred()) == 0,
        grid_count(b, n, mine_pred()) == 0,
    decreases n,
{
    if n > 0 {
        lemma_fresh_counts(b, n - 1);
        lemma_fresh_row_counts(b[n - 1], 16, n - 1, b);
    }
}

/// One pristine row counts to zero for every predicate of interest.
proof fn lemma_fresh_row_counts(row: Seq<Cell>, n: int, y: int, b: Seq<Seq<Cell>>)
    requires
        0 <= n <= 16,
        0 <= y < 16,
        row == b[y],
        forall|yy: int, xx: int|
            0 <= yy < 16 && 0 <= xx < 16 ==> (#[trigger] b[yy][xx]) == (Cell {
                is_mine: false,
                adjacent_mines: 0,
                state: CellState::Hidden,
            }),
    ensures
        row_count(row, n, flag_pred()) == 0,
        row_count(row, n, revealed_pred()) == 0,
        row_count(row, n, mine_pred()) == 0,
    decreases n,
{
    if n > 0 {
        lemma_fresh_row_counts(row, n - 1, y, b);
        assert(b[y][n - 1].state is Hidden);
    }
}

/// A sixteen-by-sixteen field of pristine cells.
fn fresh_grid() -> (g: Vec<Vec<Cell>>)
    ensures
        field_wf(field_rows(g)),
        forall|y: int, x: int|
            0 <= y < 16 && 0 <= x < 16 ==> (#[trigger] field_rows(g)[y][x]) == (Cell {
                is_mine: false,
                adjacent_mines: 0,
                state: CellState::Hidden,
            }),
{
    let mut grid: Vec<Vec<Cell>> = Vec::new();
    let mut y: usize = 0;
    while y < 16
        invariant
            y <= 16,
            grid@.len() == y,
            forall|j: int| 0 <= j < y ==> (#[trigger] grid@[j])@.len() == 16,
            forall|j: int, i: int|
                0 <= j < y && 0 <= i < 16 ==> (#[trigger] grid@[j]@[i]) == (Cell {
                    is_mine: false,
                    adjacent_mines: 0,
                    state: CellState::Hidden,
                }),
        decreases 16 - y,
    {
        let mut row: Vec<Cell> = Vec::new();
        let mut x: usize = 0;
        while x < 16
            invariant
                x <= 16,
                row@.len() == x,
                forall|i: int|
                    0 <= i < x ==> (#[trigger] row@[i]) == (Cell {
                        is_mine: false,
                        adjacent_mines: 0,
                        state: CellState::Hidden,
                    }),
            decreases 16 - x,
        {
            row.push(Cell::new());
            x = x + 1;
        }
        grid.push(row);
        y = y + 1;
    }
    grid
}

} // verus!
