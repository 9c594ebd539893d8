//! The sliding-tile game: a four-by-four grid of powers of two, slid and
//! merged along a direction, with a random tile dropped after every move
//! that changed something.

use vstd::prelude::*;

use crate::engine::{GameAction, Key};
use crate::rng::random_below;

verus! {

broadcast use vstd::seq_lib::group_filter_ensures;

/// Side length of the grid.
pub const GRID_SIZE: usize = 4;

/// Tiles at or below this bound keep every merge and score update far from
/// overflow; real play never comes near it.
pub const TILE_LIMIT: u32 = 0x0100_0000;

/// The four directions a move can slide the tiles.
#[derive(Debug, Clone, Copy, PartialEq, Eq, Structural)]
pub enum Direction {
    Up,
    Down,
    Left,
    Right,
}

/// The grid as a mathematical value: four rows of four tiles, zero for an
/// empty cell.
pub open spec fn grid_of(g: Vec<Vec<u32>>) -> Seq<Seq<u32>> {
    g@.map_values(|row: Vec<u32>| row@)
}

/// A well-shaped grid: four rows of four cells.
pub open spec fn grid_wf(b: Seq<Seq<u32>>) -> bool {
    &&& b.len() == 4
    &&& forall|r: int| 0 <= r < 4 ==> (#[trigger] b[r]).len() == 4
}

/// Every tile within the merge-safe bound.
pub open spec fn tiles_small(b: Seq<Seq<u32>>) -> bool {
    forall|r: int, c: int| 0 <= r < 4 && 0 <= c < 4 ==> #[trigger] b[r][c] <= TILE_LIMIT
}

/// The non-empty tiles of a line, order kept.
pub open spec fn compress(line: Seq<u32>) -> Seq<u32> {
    line.filter(|x: u32| x != 0)
}

/// One merge pass over a compressed line, front first: two equal
/// neighbours fuse into their double and are both consumed; an unequal
/// front tile passes through.
pub open spec fn merge_pairs(line: Seq<u32>) -> Seq<u32>
    decreases line.len(),
{
    if line.len() == 0 {
        Seq::empty()
    } else if line.len() >= 2 && line[0] == line[1] {
        seq![((2 * line[0] as int) as u32)] + merge_pairs(line.subrange(2, line.len() as int))
    } else {
        seq![line[0]] + merge_pairs(line.subrange(1, line.len() as int))
    }
}

/// The points a merge pass awards: the sum of the fused tiles.
pub open spec fn merge_gain(line: Seq<u32>) -> int
    decreases line.len(),
{
    if line.len() == 0 {
        0
    } else if line.len() >= 2 && line[0] == line[1] {
        2 * line[0] as int + merge_gain(line.subrange(2, line.len() as int))
    } else {
        merge_gain(line.subrange(1, line.len() as int))
    }
}

/// Whether a merge pass produces the winning tile.
pub open spec fn merge_wins(line: Seq<u32>) -> bool
    decreases line.len(),
{
    if line.len() == 0 {
        false
    } else if line.len() >= 2 && line[0] == line[1] {
        2 * line[0] as int == 2048 || merge_wins(line.subrange(2, line.len() as int))
    } else {
        merge_wins(line.subrange(1, line.len() as int))
    }
}

/// A line padded with empty cells back to full width.
pub open spec fn pad4(line: Seq<u32>) -> Seq<u32> {
    line + Seq::new((4 - line.len()) as nat, |i: int| 0u32)
}

/// A whole leftward slide of one line: compress, merge, pad.
pub open spec fn slide_left(row: Seq<u32>) -> Seq<u32> {
    pad4(merge_pairs(compress(row)))
}

/// A rightward slide: the leftward slide mirrored.
pub open spec fn slide_right(row: Seq<u32>) -> Seq<u32> {
    slide_left(row.reverse()).reverse()
}

/// The points a slide of one line awards, for a leftward slide and its
/// mirrored use.
pub open spec fn row_gain(row: Seq<u32>) -> int {
    merge_gain(compress(row))
}

/// Whether a slide of one line produces the winning tile.
pub open spec fn row_wins(row: Seq<u32>) -> bool {
    merge_wins(compress(row))
}

/// Column `c` of the grid, top to bottom.
pub open spec fn col(b: Seq<Seq<u32>>, c: int) -> Seq<u32> {
    Seq::new(4, |r: int| b[r][c])
}

/// The whole grid after sliding every line in the given direction: rows
/// slide as rows, columns as columns, rightward and downward slides are
/// mirrored leftward ones.
pub open spec fn grid_after_slide(b: Seq<Seq<u32>>, dir: Direction) -> Seq<Seq<u32>> {
    match dir {
        Direction::Left => Seq::new(4, |r: int| slide_left(b[r])),
        Direction::Right => Seq::new(4, |r: int| slide_right(b[r])),
        Direction::Up => Seq::new(4, |r: int| Seq::new(4, |c: int| slide_left(col(b, c))[r])),
        Direction::Down => Seq::new(4, |r: int| Seq::new(4, |c: int| slide_right(col(b, c))[r])),
    }
}

/// The points the whole slide awards: the four lines' gains.
pub open spec fn slide_gain(b: Seq<Seq<u32>>, dir: Direction) -> int {
    match dir {
        Direction::Left => row_gain(b[0]) + row_gain(b[1]) + row_gain(b[2]) + row_gain(b[3]),
        Direction::Right => row_gain(b[0].reverse()) + row_gain(b[1].reverse()) + row_gain(
            b[2].reverse(),
        ) + row_gain(b[3].reverse()),
        Direction::Up => row_gain(col(b, 0)) + row_gain(col(b, 1)) + row_gain(col(b, 2))
            + row_gain(col(b, 3)),
        Direction::Down => row_gain(col(b, 0).reverse()) + row_gain(col(b, 1).reverse())
            + row_gain(col(b, 2).reverse()) + row_gain(col(b, 3).reverse()),
    }
}

/// Whether the whole slide produces the winning tile.
pub open spec fn slide_wins(b: Seq<Seq<u32>>, dir: Direction) -> bool {
    match dir {
        Direction::Left => row_wins(b[0]) || row_wins(b[1]) || row_wins(b[2]) || row_wins(b[3]),
        Direction::Right => row_wins(b[0].reverse()) || row_wins(b[1].reverse()) || row_wins(
            b[2].reverse(),
        ) || row_wins(b[3].reverse()),
        Direction::Up => row_wins(col(b, 0)) || row_wins(col(b, 1)) || row_wins(col(b, 2))
            || row_wins(col(b, 3)),
        Direction::Down => row_wins(col(b, 0).reverse()) || row_wins(col(b, 1).reverse())
            || row_wins(col(b, 2).reverse()) || row_wins(col(b, 3).reverse()),
    }
}

/// Whether any move is still possible: an empty cell, or two equal
/// neighbours in a row or column.
pub open spec fn can_move_spec(b: Seq<Seq<u32>>) -> bool {
    exists|r: int, c: int|
        0 <= r < 4 && 0 <= c < 4 && ((#[trigger] b[r][c]) == 0 || (c < 3 && b[r][c + 1] == b[r][c])
            || (r < 3 && b[r + 1][c] == b[r][c]))
}

/// The grid with one cell replaced.
pub open spec fn grid_set(b: Seq<Seq<u32>>, r: int, c: int, v: u32) -> Seq<Seq<u32>> {
    b.update(r, b[r].update(c, v))
}

/// How a random tile enters: some empty cell of `b2` now holds a two or a
/// four and nothing else changed — or there was no empty cell and the grid
/// is untouched.
pub open spec fn tile_added(b2: Seq<Seq<u32>>, b3: Seq<Seq<u32>>) -> bool {
    if exists|r: int, c: int| 0 <= r < 4 && 0 <= c < 4 && (#[trigger] b2[r][c]) == 0 {
        exists|r: int, c: int|
            0 <= r < 4 && 0 <= c < 4 && (#[trigger] b2[r][c]) == 0 && (b3 =~= grid_set(b2, r, c, 2)
                || b3 =~= grid_set(b2, r, c, 4))
    } else {
        b3 =~= b2
    }
}

/// A game as `new` and `restart` leave it: zeroed counters, no flags, and
/// an empty grid into which two random tiles have entered one after the
/// other.
pub open spec fn fresh_2048(g: Game2048) -> bool {
    &&& exists|b1: Seq<Seq<u32>>|
        #[trigger] tile_added(empty_grid(), b1) && tile_added(b1, g.rows())
    &&& g.score == 0
    &&& !g.game_over
    &&& !g.won
    &&& !g.moved
}

/// The all-empty grid.
pub open spec fn empty_grid() -> Seq<Seq<u32>> {
    Seq::new(4, |r: int| Seq::new(4, |c: int| 0u32))
}

/// What one slide command does: every line slides, the gains feed the
/// score, the winning tile sets the won flag, and — exactly when the slide
/// changed the grid — a random tile enters and a dead grid ends the game.
/// The best score tracks the score.
pub open spec fn move_rel(pre: Game2048, post: Game2048, dir: Direction) -> bool {
    let b0 = pre.rows();
    let b2 = grid_after_slide(b0, dir);
    let moved = !(b2 =~= b0);
    &&& post.moved == moved
    &&& post.score as int == pre.score as int + slide_gain(b0, dir)
    &&& post.won == (pre.won || slide_wins(b0, dir))
    &&& (if moved {
        tile_added(b2, post.rows()) && post.game_over == (pre.game_over || !can_move_spec(
            post.rows(),
        ))
    } else {
        post.rows() =~= b0 && post.game_over == pre.game_over
    })
    &&& post.best_score == (if post.score > pre.best_score {
        post.score
    } else {
        pre.best_score
    })
}

/// The sliding-tile game state.
pub struct Game2048 {
    pub grid: Vec<Vec<u32>>,
    pub score: u32,
    pub best_score: u32,
    pub game_over: bool,
    pub won: bool,
    pub moved: bool,
}

impl Game2048 {
    /// The grid as a sequence of rows.
    pub open spec fn rows(self) -> Seq<Seq<u32>> {
        grid_of(self.grid)
    }

    /// A well-shaped grid.
    pub open spec fn wf(self) -> bool {
        grid_wf(self.rows())
    }

    /// Room for one more move's worth of points, and tiles small enough to
    /// merge without overflow.
    pub open spec fn room(self) -> bool {
        &&& tiles_small(self.rows())
        &&& self.score as int + 0x2000_0000 <= u32::MAX as int
    }

    /// A fresh game: empty grid, two random starting tiles.
    pub fn new() -> (g: Game2048)
        ensures
            g.wf(),
            fresh_2048(g),
    {
        let mut game = Game2048 {
            grid: new_empty_grid(),
            score: 0,
            best_score: 0,
            game_over: false,
            won: false,
            moved: false,
        };
        game.add_random_tile();
        let ghost b1 = game.rows();
        game.add_random_tile();
        proof {
            assert(tile_added(empty_grid(), b1) && tile_added(b1, game.rows()));
        }
        game
    }

    /// Drop a random tile — a two nine times out of ten, else a four —
    /// into a uniformly chosen empty cell; with no empty cell, do nothing.
    pub fn add_random_tile(&mut self)
        requires
            old(self).wf(),
        ensures
            final(self).wf(),
            tile_added(old(self).rows(), final(self).rows()),
            final(self).score == old(self).score,
            final(self).best_score == old(self).best_score,
            final(self).game_over == old(self).game_over,
            final(self).won == old(self).won,
            final(self).moved == old(self).moved,
    {
        let ghost b0 = self.rows();
        let mut empties: Vec<(usize, usize)> = Vec::new();
        let mut r: usize = 0;
        while r < 4
            invariant
                self.wf(),
                b0 == self.rows(),
                r <= 4,
                empties@.len() <= 4 * r,
                forall|k: int|
                    0 <= k < empties@.len() ==> {
                        let (er, ec) = #[trigger] empties@[k];
                        er < 4 && ec < 4 && b0[er as int][ec as int] == 0
                    },
                (exists|rr: int, cc: int|
                    0 <= rr < r && 0 <= cc < 4 && (#[trigger] b0[rr][cc]) == 0) ==> empties@.len()
                    > 0,
            decreases 4 - r,
        {
            let mut c: usize = 0;
            while c < 4
                invariant
                    self.wf(),
                    b0 == self.rows(),
                    r < 4,
                    c <= 4,
                    empties@.len() <= 4 * r + c,
                    forall|k: int|
                        0 <= k < empties@.len() ==> {
                            let (er, ec) = #[trigger] empties@[k];
                            er < 4 && ec < 4 && b0[er as int][ec as int] == 0
                        },
                    (exists|rr: int, cc: int|
                        0 <= rr < r && 0 <= cc < 4 && (#[trigger] b0[rr][cc]) == 0)
                        ==> empties@.len() > 0,
                    (exists|cc: int| 0 <= cc < c && (#[trigger] b0[r as int][cc]) == 0)
                        ==> empties@.len() > 0,
                decreases 4 - c,
            {
                assert(self.grid@.len() == 4);
                assert(self.grid@[r as int]@.len() == 4) by {
                    assert(b0[r as int] == self.grid@[r as int]@);
                }
                if self.grid[r][c] == 0 {
                    empties.push((r, c));
                }
                c = c + 1;
            }
            r = r + 1;
        }
        if empties.len() == 0 {
            proof {
                assert forall|rr: int, cc: int|
                    0 <= rr < 4 && 0 <= cc < 4 implies (#[trigger] b0[rr][cc]) != 0 by {
                    if b0[rr][cc] == 0 {
                        assert(empties@.len() > 0);
                    }
                }
            }
            return ;
        }
        let pick = random_below(empties.len() as u32) as usize;
        let (er, ec) = empties[pick];
        let value: u32 = if random_below(10) < 9 {
            2
        } else {
            4
        };
        self.set_tile(er, ec, value);
        proof {
            assert(b0[er as int][ec as int] == 0);
            assert(self.rows() =~= grid_set(b0, er as int, ec as int, value));
        }
    }

    /// Write one tile into the grid.
    fn set_tile(&mut self, r: usize, c: usize, v: u32)
        requires
            old(self).wf(),
            r < 4,
            c < 4,
        ensures
            final(self).wf(),
            final(self).rows() =~= grid_set(old(self).rows(), r as int, c as int, v),
            final(self).score == old(self).score,
            final(self).best_score == old(self).best_score,
            final(self).game_over == old(self).game_over,
            final(self).won == old(self).won,
            final(self).moved == old(self).moved,
    {
        assert(self.grid@.len() == 4);
        assert(self.grid@[r as int]@.len() == 4) by {
            assert(self.rows()[r as int] == self.grid@[r as int]@);
        }
        let row = &mut self.grid[r];
        row.set(c, v);
        proof {
            let b0 = old(self).rows();
            assert(self.rows() =~= grid_set(b0, r as int, c as int, v));
            assert forall|i: int| 0 <= i < 4 implies (#[trigger] self.rows()[i]).len() == 4 by {
                if i == r {
                    assert(self.rows()[i] =~= b0[i as int].update(c as int, v));
                }
            }
        }
    }

    /// Whether any move is still possible on this grid.
    pub fn can_move(&self) -> (can: bool)
        requires
            self.wf(),
        ensures
            can == can_move_spec(self.rows()),
    {
        let ghost b0 = self.rows();
        let mut r: usize = 0;
        while r < 4
            invariant
                self.wf(),
                b0 == self.rows(),
                r <= 4,
                forall|rr: int, cc: int|
                    0 <= rr < r && 0 <= cc < 4 ==> !((#[trigger] b0[rr][cc]) == 0 || (cc < 3
                        && b0[rr][cc + 1] == b0[rr][cc]) || (rr < 3 && b0[rr + 1][cc]
                        == b0[rr][cc])),
            decreases 4 - r,
        {
            let mut c: usize = 0;
            while c < 4
                invariant
                    self.wf(),
                    b0 == self.rows(),
                    r < 4,
                    c <= 4,
                    forall|rr: int, cc: int|
                        0 <= rr < r && 0 <= cc < 4 ==> !((#[trigger] b0[rr][cc]) == 0 || (cc < 3
                            && b0[rr][cc + 1] == b0[rr][cc]) || (rr < 3 && b0[rr + 1][cc]
                            == b0[rr][cc])),
                    forall|cc: int|
                        0 <= cc < c ==> !((#[trigger] b0[r as int][cc]) == 0 || (cc < 3 && b0[
                            r as int][cc + 1] == b0[r as int][cc]) || (r < 3 && b0[r as int + 1][cc]
                            == b0[r as int][cc])),
                decreases 4 - c,
            {
                let cur = self.tile(r, c);
                if cur == 0 {
                    return true;
                }
                if c < 3 && self.tile(r, c + 1) == cur {
                    return true;
                }
                if r < 3 && self.tile(r + 1, c) == cur {
                    return true;
                }
                c = c + 1;
            }
            r = r + 1;
        }
        false
    }

    /// Read one tile.
    pub fn tile(&self, r: usize, c: usize) -> (v: u32)
        requires
            self.wf(),
            r < 4,
            c < 4,
        ensures
            v == self.rows()[r as int][c as int],
    {
        assert(self.grid@.len() == 4);
        assert(self.grid@[r as int]@.len() == 4) by {
            assert(self.rows()[r as int] == self.grid@[r as int]@);
        }
        self.grid[r][c]
    }

    /// Replace one whole row.
    fn set_row(&mut self, r: usize, row: Vec<u32>)
        requires
            old(self).wf(),
            r < 4,
            row@.len() == 4,
        ensures
            final(self).wf(),
            final(self).rows() =~= old(self).rows().update(r as int, row@),
            final(self).score == old(self).score,
            final(self).best_score == old(self).best_score,
            final(self).game_over == old(self).game_over,
            final(self).won == old(self).won,
            final(self).moved == old(self).moved,
    {
        assert(self.grid@.len() == 4);
        self.grid.set(r, row);
        proof {
            assert(self.rows() =~= old(self).rows().update(r as int, row@));
        }
    }

    /// Copy one row out of the grid.
    fn row_vec(&self, r: usize) -> (v: Vec<u32>)
        requires
            self.wf(),
            r < 4,
        ensures
            v@ =~= self.rows()[r as int],
            v@.len() == 4,
    {
        let mut out: Vec<u32> = Vec::new();
        out.push(self.tile(r, 0));
        out.push(self.tile(r, 1));
        out.push(self.tile(r, 2));
        out.push(self.tile(r, 3));
        out
    }

    /// Copy one column out of the grid, top to bottom.
    fn col_vec(&self, c: usize) -> (v: Vec<u32>)
        requires
            self.wf(),
            c < 4,
        ensures
            v@ =~= col(self.rows(), c as int),
            v@.len() == 4,
    {
        let mut out: Vec<u32> = Vec::new();
        out.push(self.tile(0, c));
        out.push(self.tile(1, c));
        out.push(self.tile(2, c));
        out.push(self.tile(3, c));
        assert(out@ =~= col(self.rows(), c as int));
        out
    }

    /// Write one whole column, top to bottom.
    fn set_col(&mut self, c: usize, v: &Vec<u32>)
        requires
            old(self).wf(),
            c < 4,
            v@.len() == 4,
        ensures
            final(self).wf(),
            forall|r: int, cc: int|
                0 <= r < 4 && 0 <= cc < 4 ==> #[trigger] final(self).rows()[r][cc] == (if cc
                    == c as int {
                    v@[r]
                } else {
                    old(self).rows()[r][cc]
                }),
            final(self).score == old(self).score,
            final(self).best_score == old(self).best_score,
            final(self).game_over == old(self).game_over,
            final(self).won == old(self).won,
            final(self).moved == old(self).moved,
    {
        self.set_tile(0, c, v[0]);
        self.set_tile(1, c, v[1]);
        self.set_tile(2, c, v[2]);
        self.set_tile(3, c, v[3]);
    }

    /// Slide one row leftward in place; whether it changed.
    fn slide_row_left(&mut self, r: usize) -> (changed: bool)
        requires
            old(self).wf(),
            r < 4,
            forall|i: int| 0 <= i < 4 ==> (#[trigger] old(self).rows()[r as int][i]) <= TILE_LIMIT,
            old(self).score as int + 0x0800_0000 <= u32::MAX as int,
        ensures
            final(self).wf(),
            final(self).rows() =~= old(self).rows().update(
                r as int,
                slide_left(old(self).rows()[r as int]),
            ),
            final(self).score as int == old(self).score as int + row_gain(
                old(self).rows()[r as int],
            ),
            final(self).won == (old(self).won || row_wins(old(self).rows()[r as int])),
            changed == (slide_left(old(self).rows()[r as int]) != old(self).rows()[r as int]),
            final(self).best_score == old(self).best_score,
            final(self).game_over == old(self).game_over,
            final(self).moved == old(self).moved,
    {
        let row = self.row_vec(r);
        let (new_row, gain, win) = merge_line(&row);
        let changed = !rows_equal(&row, &new_row);
        self.set_row(r, new_row);
        self.score = self.score + gain;
        if win {
            self.won = true;
        }
        changed
    }

    /// Slide one row rightward in place; whether it changed.
    fn slide_row_right(&mut self, r: usize) -> (changed: bool)
        requires
            old(self).wf(),
            r < 4,
            forall|i: int| 0 <= i < 4 ==> (#[trigger] old(self).rows()[r as int][i]) <= TILE_LIMIT,
            old(self).score as int + 0x0800_0000 <= u32::MAX as int,
        ensures
            final(self).wf(),
            final(self).rows() =~= old(self).rows().update(
                r as int,
                slide_right(old(self).rows()[r as int]),
            ),
            final(self).score as int == old(self).score as int + row_gain(
                old(self).rows()[r as int].reverse(),
            ),
            final(self).won == (old(self).won || row_wins(old(self).rows()[r as int].reverse())),
            changed == (slide_right(old(self).rows()[r as int]) != old(self).rows()[r as int]),
            final(self).best_score == old(self).best_score,
            final(self).game_over == old(self).game_over,
            final(self).moved == old(self).moved,
    {
        let row = self.row_vec(r);
        let rev = reversed(&row);
        proof {
            assert forall|i: int| 0 <= i < 4 implies (#[trigger] rev@[i]) <= TILE_LIMIT by {
                assert(rev@[i] == row@[3 - i]);
            }
        }
        let (merged, gain, win) = merge_line(&rev);
        let new_row = reversed(&merged);
        assert(new_row@ =~= slide_right(self.rows()[r as int]));
        let changed = !rows_equal(&row, &new_row);
        self.set_row(r, new_row);
        self.score = self.score + gain;
        if win {
            self.won = true;
        }
        changed
    }

    /// Slide one column upward in place; whether it changed.
    fn slide_col_up(&mut self, c: usize) -> (changed: bool)
        requires
            old(self).wf(),
            c < 4,
            forall|i: int| 0 <= i < 4 ==> (#[trigger] col(old(self).rows(), c as int)[i])
                <= TILE_LIMIT,
            old(self).score as int + 0x0800_0000 <= u32::MAX as int,
        ensures
            final(self).wf(),
            forall|r: int, cc: int|
                0 <= r < 4 && 0 <= cc < 4 ==> #[trigger] final(self).rows()[r][cc] == (if cc
                    == c as int {
                    slide_left(col(old(self).rows(), c as int))[r]
                } else {
                    old(self).rows()[r][cc]
                }),
            final(self).score as int == old(self).score as int + row_gain(
                col(old(self).rows(), c as int),
            ),
            final(self).won == (old(self).won || row_wins(col(old(self).rows(), c as int))),
            changed == (slide_left(col(old(self).rows(), c as int)) != col(
                old(self).rows(),
                c as int,
            )),
            final(self).best_score == old(self).best_score,
            final(self).game_over == old(self).game_over,
            final(self).moved == old(self).moved,
    {
        let column = self.col_vec(c);
        let (new_col, gain, win) = merge_line(&column);
        let changed = !rows_equal(&column, &new_col);
        self.set_col(c, &new_col);
        self.score = self.score + gain;
        if win {
            self.won = true;
        }
        changed
    }

    /// Slide one column downward in place; whether it changed.
    fn slide_col_down(&mut self, c: usize) -> (changed: bool)
        requires
            old(self).wf(),
            c < 4,
            forall|i: int| 0 <= i < 4 ==> (#[trigger] col(old(self).rows(), c as int)[i])
                <= TILE_LIMIT,
            old(self).score as int + 0x0800_0000 <= u32::MAX as int,
        ensures
            final(self).wf(),
            forall|r: int, cc: int|
                0 <= r < 4 && 0 <= cc < 4 ==> #[trigger] final(self).rows()[r][cc] == (if cc
                    == c as int {
                    slide_right(col(old(self).rows(), c as int))[r]
                } else {
                    old(self).rows()[r][cc]
                }),
            final(self).score as int == old(self).score as int + row_gain(
                col(old(self).rows(), c as int).reverse(),
            ),
            final(self).won == (old(self).won || row_wins(
                col(old(self).rows(), c as int).reverse(),
            )),
            changed == (slide_right(col(old(self).rows(), c as int)) != col(
                old(self).rows(),
                c as int,
            )),
            final(self).best_score == old(self).best_score,
            final(self).game_over == old(self).game_over,
            final(self).moved == old(self).moved,
    {
        let column = self.col_vec(c);
        let rev = reversed(&column);
        proof {
            assert forall|i: int| 0 <= i < 4 implies (#[trigger] rev@[i]) <= TILE_LIMIT by {
                assert(rev@[i] == column@[3 - i]);
            }
        }
        let (merged, gain, win) = merge_line(&rev);
        let new_col = reversed(&merged);
        assert(new_col@ =~= slide_right(col(self.rows(), c as int)));
        let changed = !rows_equal(&column, &new_col);
        self.set_col(c, &new_col);
        self.score = self.score + gain;
        if win {
            self.won = true;
        }
        changed
    }

    /// Slide the whole grid in a direction, score the merges, flag a win,
    /// and — exactly when something moved — drop a random tile and check
    /// whether the game is dead. The best score follows the score.
    pub fn move_tiles(&mut self, direction: Direction)
        requires
            old(self).wf(),
            old(self).room(),
        ensures
            final(self).wf(),
            move_rel(*old(self), *final(self), direction),
    {
        let ghost pre = *old(self);
        let ghost b0 = self.rows();
        self.moved = false;
        let changed: bool = match direction {
            Direction::Left => {
                proof {
                    lemma_row_gain_bound(b0[0]);
                    lemma_row_gain_bound(b0[1]);
                    lemma_row_gain_bound(b0[2]);
                }
                let c0 = self.slide_row_left(0);
                let c1 = self.slide_row_left(1);
                let c2 = self.slide_row_left(2);
                let c3 = self.slide_row_left(3);
                proof {
                    assert(self.rows() =~= grid_after_slide(b0, direction));
                    let b2 = grid_after_slide(b0, direction);
                    if c0 || c1 || c2 || c3 {
                        assert(!(b2 =~= b0)) by {
                            if c0 {
                                assert(b2[0] != b0[0]);
                            } else if c1 {
                                assert(b2[1] != b0[1]);
                            } else if c2 {
                                assert(b2[2] != b0[2]);
                            } else {
                                assert(b2[3] != b0[3]);
                            }
                        }
                    } else {
                        assert(b2 =~= b0);
                    }
                }
                c0 || c1 || c2 || c3
            },
            Direction::Right => {
                proof {
                    assert forall|r: int, i: int| 0 <= r < 4 && 0 <= i < 4 implies (
                    #[trigger] b0[r].reverse()[i]) <= TILE_LIMIT by {
                        assert(b0[r].reverse()[i] == b0[r][3 - i]);
                    }
                    lemma_row_gain_bound(b0[0].reverse());
                    lemma_row_gain_bound(b0[1].reverse());
                    lemma_row_gain_bound(b0[2].reverse());
                }
                let c0 = self.slide_row_right(0);
                let c1 = self.slide_row_right(1);
                let c2 = self.slide_row_right(2);
                let c3 = self.slide_row_right(3);
                proof {
                    assert(self.rows() =~= grid_after_slide(b0, direction));
                    let b2 = grid_after_slide(b0, direction);
                    if c0 || c1 || c2 || c3 {
                        assert(!(b2 =~= b0)) by {
                            if c0 {
                                assert(b2[0] != b0[0]);
                            } else if c1 {
                                assert(b2[1] != b0[1]);
                            } else if c2 {
                                assert(b2[2] != b0[2]);
                            } else {
                                assert(b2[3] != b0[3]);
                            }
                        }
                    } else {
                        assert(b2 =~= b0);
                    }
                }
                c0 || c1 || c2 || c3
            },
            Direction::Up => {
                proof {
                    assert forall|cc: int, i: int| 0 <= cc < 4 && 0 <= i < 4 implies (
                    #[trigger] col(b0, cc)[i]) <= TILE_LIMIT by {
                        assert(col(b0, cc)[i] == b0[i][cc]);
                    }
                    lemma_row_gain_bound(col(b0, 0));
                    lemma_row_gain_bound(col(b0, 1));
                    lemma_row_gain_bound(col(b0, 2));
                }
                let c0 = self.slide_col_up(0);
                proof {
                    assert(col(self.rows(), 1) =~= col(b0, 1));
                    assert(col(self.rows(), 2) =~= col(b0, 2));
                    assert(col(self.rows(), 3) =~= col(b0, 3));
                }
                let c1 = self.slide_col_up(1);
                proof {
                    assert(col(self.rows(), 2) =~= col(b0, 2));
                    assert(col(self.rows(), 3) =~= col(b0, 3));
                }
                let c2 = self.slide_col_up(2);
                proof {
                    assert(col(self.rows(), 3) =~= col(b0, 3));
                }
                let c3 = self.slide_col_up(3);
                proof {
                    assert forall|r: int| 0 <= r < 4 implies self.rows()[r] =~= grid_after_slide(
                        b0,
                        direction,
                    )[r] by {}
                    assert(self.rows() =~= grid_after_slide(b0, direction));
                    let b2 = grid_after_slide(b0, direction);
                    if c0 || c1 || c2 || c3 {
                        let cstar: int = if c0 {
                            0
                        } else if c1 {
                            1
                        } else if c2 {
                            2
                        } else {
                            3
                        };
                        let oldc = col(b0, cstar);
                        let newc = slide_left(oldc);
                        assert(newc != oldc);
                        assert(newc.len() == 4) by {
                            lemma_slide_left_len(oldc);
                        }
                        assert(!(newc =~= oldc));
                        let rstar = choose|r: int| 0 <= r < 4 && newc[r] != oldc[r];
                        assert(b2[rstar][cstar] != b0[rstar][cstar]);
                        assert(!(b2 =~= b0)) by {
                            if b2 =~= b0 {
                                assert(b2[rstar] == b0[rstar]);
                            }
                        }
                    } else {
                        assert forall|r: int| 0 <= r < 4 implies b2[r] == b0[r] by {
                            assert forall|cc: int| 0 <= cc < 4 implies b2[r][cc] == b0[r][cc] by {
                                assert(slide_left(col(b0, cc)) == col(b0, cc));
                            }
                            assert(b2[r] =~= b0[r]);
                        }
                        assert(b2 =~= b0);
                    }
                }
                c0 || c1 || c2 || c3
            },
            Direction::Down => {
                proof {
                    assert forall|cc: int, i: int| 0 <= cc < 4 && 0 <= i < 4 implies (
                    #[trigger] col(b0, cc).reverse()[i]) <= TILE_LIMIT by {
                        assert(col(b0, cc).reverse()[i] == col(b0, cc)[3 - i]);
                        assert(col(b0, cc)[3 - i] == b0[3 - i][cc]);
                    }
                    lemma_row_gain_bound(col(b0, 0).reverse());
                    lemma_row_gain_bound(col(b0, 1).reverse());
                    lemma_row_gain_bound(col(b0, 2).reverse());
                }
                let c0 = self.slide_col_down(0);
                proof {
                    assert(col(self.rows(), 1) =~= col(b0, 1));
                    assert(col(self.rows(), 2) =~= col(b0, 2));
                    assert(col(self.rows(), 3) =~= col(b0, 3));
                }
                let c1 = self.slide_col_down(1);
                proof {
                    assert(col(self.rows(), 2) =~= col(b0, 2));
                    assert(col(self.rows(), 3) =~= col(b0, 3));
                }
                let c2 = self.slide_col_down(2);
                proof {
                    assert(col(self.rows(), 3) =~= col(b0, 3));
                }
                let c3 = self.slide_col_down(3);
                proof {
                    assert forall|r: int| 0 <= r < 4 implies self.rows()[r] =~= grid_after_slide(
                        b0,
                        direction,
                    )[r] by {}
                    assert(self.rows() =~= grid_after_slide(b0, direction));
                    let b2 = grid_after_slide(b0, direction);
                    if c0 || c1 || c2 || c3 {
                        let cstar: int = if c0 {
                            0
                        } else if c1 {
                            1
                        } else if c2 {
                            2
                        } else {
                            3
                        };
                        let oldc = col(b0, cstar);
                        let newc = slide_right(oldc);
                        assert(newc != oldc);
                        assert(newc.len() == 4) by {
                            lemma_slide_left_len(oldc.reverse());
                        }
                        assert(!(newc =~= oldc));
                        let rstar = choose|r: int| 0 <= r < 4 && newc[r] != oldc[r];
                        assert(b2[rstar][cstar] != b0[rstar][cstar]);
                        assert(!(b2 =~= b0)) by {
                            if b2 =~= b0 {
                                assert(b2[rstar] == b0[rstar]);
                            }
                        }
                    } else {
                        assert forall|r: int| 0 <= r < 4 implies b2[r] == b0[r] by {
                            assert forall|cc: int| 0 <= cc < 4 implies b2[r][cc] == b0[r][cc] by {
                                assert(slide_right(col(b0, cc)) == col(b0, cc));
                            }
                            assert(b2[r] =~= b0[r]);
                        }
                        assert(b2 =~= b0);
                    }
                }
                c0 || c1 || c2 || c3
            },
        };
        self.moved = changed;
        if self.moved {
            self.add_random_tile();
            if !self.can_move() {
                self.game_over = true;
            }
        }
        if self.score > self.best_score {
            self.best_score = self.score;
        }
    }

    /// Dispatch one key press.
    pub fn handle_key(&mut self, key: Key) -> (action: GameAction)
        requires
            old(self).wf(),
            old(self).room(),
        ensures
            final(self).wf(),
            key_rel_2048(*old(self), *final(self), key, action),
    {
        if self.game_over || self.won {
            match key {
                Key::Char(ch) => {
                    if ch == 'r' {
                        self.restart();
                        GameAction::Continue
                    } else if ch == 'q' {
                        GameAction::Quit
                    } else {
                        GameAction::Continue
                    }
                },
                _ => GameAction::Continue,
            }
        } else {
            match key {
                Key::Up => {
                    self.move_tiles(Direction::Up);
                    GameAction::Continue
                },
                Key::Down => {
                    self.move_tiles(Direction::Down);
                    GameAction::Continue
                },
                Key::Left => {
                    self.move_tiles(Direction::Left);
                    GameAction::Continue
                },
                Key::Right => {
                    self.move_tiles(Direction::Right);
                    GameAction::Continue
                },
                Key::Char(ch) => {
                    if ch == 'w' {
                        self.move_tiles(Direction::Up);
                        GameAction::Continue
                    } else if ch == 's' {
                        self.move_tiles(Direction::Down);
                        GameAction::Continue
                    } else if ch == 'a' {
                        self.move_tiles(Direction::Left);
                        GameAction::Continue
                    } else if ch == 'd' {
                        self.move_tiles(Direction::Right);
                        GameAction::Continue
                    } else if ch == 'r' {
                        self.restart();
                        GameAction::Continue
                    } else if ch == 'q' {
                        GameAction::Quit
                    } else {
                        GameAction::Continue
                    }
                },
                _ => GameAction::Continue,
            }
        }
    }

    /// Ticks do nothing in this turn-based game.
    pub fn update(&mut self) -> (action: GameAction)
        ensures
            *final(self) == *old(self),
            action == GameAction::Continue,
    {
        GameAction::Continue
    }

    /// The registry name of this game.
    pub fn name(&self) -> (r: &'static str)
        ensures
            r@ == "2048"@,
    {
        "2048"
    }

    /// The registry description of this game.
    pub fn description(&self) -> (r: &'static str)
        ensures
            r@ == "Slide numbered tiles to combine them and reach 2048!"@,
    {
        "Slide numbered tiles to combine them and reach 2048!"
    }

    /// How long the driving loop waits between ticks, in milliseconds.
    pub fn tick_rate(&self) -> (r: u64)
        ensures
            r == 100,
    {
        100
    }

    /// Reset to a fresh game, keeping only the best score.
    pub fn restart(&mut self)
        ensures
            final(self).wf(),
            fresh_2048(*final(self)),
            final(self).best_score == old(self).best_score,
    {
        self.grid = new_empty_grid();
        self.score = 0;
        self.game_over = false;
        self.won = false;
        self.moved = false;
        self.add_random_tile();
        let ghost b1 = self.rows();
        self.add_random_tile();
        proof {
            assert(tile_added(empty_grid(), b1) && tile_added(b1, self.rows()));
        }
    }
}

/// Compressing keeps the tiles small and no more numerous.
proof fn lemma_compress_small(row: Seq<u32>)
    requires
        forall|i: int| 0 <= i < row.len() ==> (#[trigger] row[i]) <= TILE_LIMIT,
    ensures
        compress(row).len() <= row.len(),
        forall|i: int| 0 <= i < compress(row).len() ==> (#[trigger] compress(row)[i])
            <= TILE_LIMIT,
    decreases row.len(),
{
    reveal_with_fuel(Seq::filter, 2);
    if row.len() == 0 {
    } else {
        lemma_compress_small(row.drop_last());
        if row.last() != 0 {
            assert(compress(row) =~= compress(row.drop_last()).push(row.last()));
        } else {
            assert(compress(row) =~= compress(row.drop_last()));
        }
    }
}

/// A merge pass over small tiles gains a bounded number of points.
proof fn lemma_merge_gain_bound(line: Seq<u32>)
    requires
        forall|i: int| 0 <= i < line.len() ==> (#[trigger] line[i]) <= TILE_LIMIT,
    ensures
        0 <= merge_gain(line) <= 0x0200_0000 * line.len(),
    decreases line.len(),
{
    if line.len() == 0 {
    } else if line.len() >= 2 && line[0] == line[1] {
        lemma_merge_gain_bound(line.subrange(2, line.len() as int));
    } else {
        lemma_merge_gain_bound(line.subrange(1, line.len() as int));
    }
}

/// The points one line of small tiles can award in a single slide.
pub proof fn lemma_row_gain_bound(row: Seq<u32>)
    requires
        row.len() == 4,
        forall|i: int| 0 <= i < 4 ==> (#[trigger] row[i]) <= TILE_LIMIT,
    ensures
        0 <= row_gain(row) <= 0x0800_0000,
{
    lemma_compress_small(row);
    lemma_merge_gain_bound(compress(row));
}

/// A merge pass never lengthens a line.
proof fn lemma_merge_pairs_len(line: Seq<u32>)
    ensures
        merge_pairs(line).len() <= line.len(),
    decreases line.len(),
{
    if line.len() == 0 {
    } else if line.len() >= 2 && line[0] == line[1] {
        lemma_merge_pairs_len(line.subrange(2, line.len() as int));
    } else {
        lemma_merge_pairs_len(line.subrange(1, line.len() as int));
    }
}

/// A slid line keeps the full width.
pub proof fn lemma_slide_left_len(row: Seq<u32>)
    requires
        row.len() == 4,
    ensures
        slide_left(row).len() == 4,
{
    assert(compress(row).len() <= 4);
    lemma_merge_pairs_len(compress(row));
}

/// Slide one line leftward: compress the non-empty tiles, merge equal
/// neighbours once, pad with empty cells. Returns the new line, the points
/// gained and whether a winning tile appeared.
fn merge_line(line: &Vec<u32>) -> (res: (Vec<u32>, u32, bool))
    requires
        line@.len() == 4,
        forall|i: int| 0 <= i < 4 ==> (#[trigger] line@[i]) <= TILE_LIMIT,
    ensures
        res.0@ =~= slide_left(line@),
        res.0@.len() == 4,
        res.1 as int == row_gain(line@),
        res.1 <= 0x0800_0000,
        res.2 == row_wins(line@),
        forall|i: int| 0 <= i < 4 ==> (#[trigger] res.0@[i]) <= 2 * TILE_LIMIT,
{
    let mut comp: Vec<u32> = Vec::new();
    let mut i: usize = 0;
    while i < 4
        invariant
            line@.len() == 4,
            forall|k: int| 0 <= k < 4 ==> (#[trigger] line@[k]) <= TILE_LIMIT,
            i <= 4,
            comp@ =~= compress(line@.subrange(0, i as int)),
            comp@.len() <= i,
            forall|k: int|
                0 <= k < comp@.len() ==> (#[trigger] comp@[k]) <= TILE_LIMIT && comp@[k] != 0,
        decreases 4 - i,
    {
        proof {
            reveal_with_fuel(Seq::filter, 2);
            assert(line@.subrange(0, i + 1).drop_last() =~= line@.subrange(0, i as int));
        }
        if line[i] != 0 {
            comp.push(line[i]);
        }
        assert(comp@ =~= compress(line@.subrange(0, i + 1)));
        i = i + 1;
    }
    assert(line@.subrange(0, 4) =~= line@);

    let clen: usize = comp.len();
    let mut out: Vec<u32> = Vec::new();
    let mut gain: u32 = 0;
    let mut won: bool = false;
    let mut j: usize = 0;
    assert(comp@.subrange(0, clen as int) =~= comp@);
    assert(out@ + merge_pairs(comp@) =~= merge_pairs(comp@));
    while j < clen
        invariant
            clen == comp@.len(),
            clen <= 4,
            j <= clen,
            forall|k: int|
                0 <= k < comp@.len() ==> (#[trigger] comp@[k]) <= TILE_LIMIT && comp@[k] != 0,
            out@.len() <= j,
            forall|k: int| 0 <= k < out@.len() ==> (#[trigger] out@[k]) <= 2 * TILE_LIMIT,
            gain as int <= 0x0200_0000 * (j as int),
            merge_pairs(comp@) =~= out@ + merge_pairs(comp@.subrange(j as int, clen as int)),
            gain as int + merge_gain(comp@.subrange(j as int, clen as int)) == merge_gain(comp@),
            (won || merge_wins(comp@.subrange(j as int, clen as int))) == merge_wins(comp@),
        decreases clen - j,
    {
        let ghost rest = comp@.subrange(j as int, clen as int);
        let a = comp[j];
        assert(rest[0] == a);
        if j + 1 < clen && comp[j + 1] == a {
            assert(rest[1] == a);
            let m = a * 2;
            out.push(m);
            gain = gain + m;
            if m == 2048 {
                won = true;
            }
            proof {
                assert(rest.subrange(2, rest.len() as int) =~= comp@.subrange(
                    j + 2,
                    clen as int,
                ));
                assert(merge_pairs(rest) =~= seq![m] + merge_pairs(
                    comp@.subrange(j + 2, clen as int),
                ));
                assert(out@ =~= (out@.drop_last()) + seq![m]);
                assert((out@.drop_last()) + (seq![m] + merge_pairs(
                    comp@.subrange(j + 2, clen as int),
                )) =~= out@ + merge_pairs(comp@.subrange(j + 2, clen as int)));
            }
            j = j + 2;
        } else {
            out.push(a);
            proof {
                assert(rest.subrange(1, rest.len() as int) =~= comp@.subrange(
                    j + 1,
                    clen as int,
                ));
                assert(merge_pairs(rest) =~= seq![a] + merge_pairs(
                    comp@.subrange(j + 1, clen as int),
                ));
                assert(out@ =~= (out@.drop_last()) + seq![a]);
                assert((out@.drop_last()) + (seq![a] + merge_pairs(
                    comp@.subrange(j + 1, clen as int),
                )) =~= out@ + merge_pairs(comp@.subrange(j + 1, clen as int)));
            }
            j = j + 1;
        }
    }
    proof {
        assert(comp@.subrange(clen as int, clen as int) =~= Seq::<u32>::empty());
        assert(merge_pairs(Seq::<u32>::empty()) =~= Seq::<u32>::empty());
        assert(merge_pairs(comp@) =~= out@);
        assert(merge_gain(Seq::<u32>::empty()) == 0);
        assert(merge_wins(Seq::<u32>::empty()) == false);
    }
    let ghost merged = out@;
    let mut fill: usize = out.len();
    while fill < 4
        invariant
            merged.len() <= 4,
            out@.len() == fill,
            fill <= 4,
            out@ =~= merged + Seq::new((fill - merged.len()) as nat, |z: int| 0u32),
            forall|k: int| 0 <= k < out@.len() ==> (#[trigger] out@[k]) <= 2 * TILE_LIMIT,
        decreases 4 - fill,
    {
        out.push(0);
        fill = fill + 1;
    }
    assert(out@ =~= pad4(merged));
    (out, gain, won)
}

/// Whether two lines hold the same tiles.
fn rows_equal(a: &Vec<u32>, b: &Vec<u32>) -> (eq: bool)
    ensures
        eq == (a@ == b@),
{
    if a.len() != b.len() {
        return false;
    }
    let mut i: usize = 0;
    while i < a.len()
        invariant
            a@.len() == b@.len(),
            i <= a@.len(),
            forall|k: int| 0 <= k < i ==> a@[k] == b@[k],
        decreases a@.len() - i,
    {
        if a[i] != b[i] {
            return false;
        }
        i = i + 1;
    }
    assert(a@ =~= b@);
    true
}

/// A line with its tiles in the opposite order.
fn reversed(v: &Vec<u32>) -> (r: Vec<u32>)
    ensures
        r@ =~= v@.reverse(),
{
    let n = v.len();
    let mut out: Vec<u32> = Vec::new();
    let mut i: usize = 0;
    while i < n
        invariant
            n == v@.len(),
            i <= n,
            out@.len() == i,
            forall|k: int| 0 <= k < i ==> (#[trigger] out@[k]) == v@[n - 1 - k],
        decreases n - i,
    {
        out.push(v[n - 1 - i]);
        i = i + 1;
    }
    assert(out@ =~= v@.reverse());
    out
}

/// What one key press does: arrows or WASD slide while play goes on, `r`
/// restarts at any time, `q` quits; once the game is over or won only `r`
/// and `q` act. Unmapped keys are a silent no-op.
pub open spec fn key_rel_2048(
    pre: Game2048,
    post: Game2048,
    key: Key,
    action: GameAction,
) -> bool {
    if pre.game_over || pre.won {
        match key {
            Key::Char(ch) => {
                if ch == 'r' {
                    action == GameAction::Continue && fresh_2048(post) && post.best_score
                        == pre.best_score
                } else if ch == 'q' {
                    action == GameAction::Quit && post == pre
                } else {
                    action == GameAction::Continue && post == pre
                }
            },
            _ => action == GameAction::Continue && post == pre,
        }
    } else {
        match key {
            Key::Up => action == GameAction::Continue && move_rel(pre, post, Direction::Up),
            Key::Down => action == GameAction::Continue && move_rel(pre, post, Direction::Down),
            Key::Left => action == GameAction::Continue && move_rel(pre, post, Direction::Left),
            Key::Right => action == GameAction::Continue && move_rel(pre, post, Direction::Right),
            Key::Char(ch) => {
                if ch == 'w' {
                    action == GameAction::Continue && move_rel(pre, post, Direction::Up)
                } else if ch == 's' {
                    action == GameAction::Continue && move_rel(pre, post, Direction::Down)
                } else if ch == 'a' {
                    action == GameAction::Continue && move_rel(pre, post, Direction::Left)
                } else if ch == 'd' {
                    action == GameAction::Continue && move_rel(pre, post, Direction::Right)
                } else if ch == 'r' {
                    action == GameAction::Continue && fresh_2048(post) && post.best_score
                        == pre.best_score
                } else if ch == 'q' {
                    action == GameAction::Quit && post == pre
                } else {
                    action == GameAction::Continue && post == pre
                }
            },
            _ => action == GameAction::Continue && post == pre,
        }
    }
}

/// A four-by-four grid of empty cells.
fn new_empty_grid() -> (g: Vec<Vec<u32>>)
    ensures
        grid_of(g) =~= empty_grid(),
        grid_wf(grid_of(g)),
{
    let mut grid: Vec<Vec<u32>> = Vec::new();
    let mut r: usize = 0;
    while r < 4
        invariant
            r <= 4,
            grid@.len() == r,
            forall|i: int| 0 <= i < r ==> (#[trigger] grid@[i])@ =~= Seq::new(4, |c: int| 0u32),
        decreases 4 - r,
    {
        let mut row: Vec<u32> = Vec::new();
        let mut c: usize = 0;
        while c < 4
            invariant
                c <= 4,
                row@.len() == c,
                forall|i: int| 0 <= i < c ==> (#[trigger] row@[i]) == 0u32,
            decreases 4 - c,
        {
            row.push(0);
            c = c + 1;
        }
        assert(row@ =~= Seq::new(4, |cc: int| 0u32));
        grid.push(row);
        r = r + 1;
    }
    grid
}

} // verus!
