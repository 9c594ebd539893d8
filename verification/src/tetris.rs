//! The falling-block puzzle: shape tables, piece rotation, the board with
//! collision and line clearing, and the simulation that ties them together
//! with scoring, leveling and level-driven gravity.

use vstd::prelude::*;

use crate::audio::SoundEffect;
use crate::engine::{GameAction, Key};
use crate::rng::random_below;

verus! {

broadcast use vstd::seq_lib::lemma_seq_contains_after_push, vstd::seq_lib::group_filter_ensures;

/// Board width in cells.
pub const BOARD_WIDTH: usize = 10;

/// Board height in cells.
pub const BOARD_HEIGHT: usize = 20;

/// A cell position in board coordinates: `x` grows rightward, `y` grows
/// downward. Cells above the visible board have negative `y`.
#[derive(Debug, Clone, Copy, PartialEq, Eq, Structural)]
pub struct Position {
    pub x: i32,
    pub y: i32,
}

/// The seven tetromino kinds.
#[derive(Debug, Clone, Copy, PartialEq, Eq, Structural)]
pub enum PieceType {
    I,
    O,
    T,
    S,
    Z,
    J,
    L,
}

/// Side length of the square occupancy matrix a piece kind is stored in.
/// The line piece sits pre-rotated inside a 4x4 box so that the one generic
/// 90-degree transform applies to every kind.
pub open spec fn shape_size(t: PieceType) -> int {
    match t {
        PieceType::I => 4,
        PieceType::O => 2,
        _ => 3,
    }
}

/// The unrotated occupancy matrix of a piece kind: whether the cell at
/// (`r`, `c`) is filled. False outside the matrix bounds.
pub open spec fn shape_cell(t: PieceType, r: int, c: int) -> bool {
    match t {
        PieceType::I => r == 1 && 0 <= c < 4,
        PieceType::O => 0 <= r < 2 && 0 <= c < 2,
        PieceType::T => (r == 0 && c == 1) || (r == 1 && 0 <= c < 3),
        PieceType::S => (r == 0 && (c == 1 || c == 2)) || (r == 1 && (c == 0 || c == 1)),
        PieceType::Z => (r == 0 && (c == 0 || c == 1)) || (r == 1 && (c == 1 || c == 2)),
        PieceType::J => (r == 0 && c == 0) || (r == 1 && 0 <= c < 3),
        PieceType::L => (r == 0 && c == 2) || (r == 1 && 0 <= c < 3),
    }
}

/// The occupancy matrix of a piece kind after `k` quarter turns: one turn
/// maps the cell at (`r`, `c`) of the result to (`n-1-c`, `r`) of its
/// predecessor.
pub open spec fn rot_cell(t: PieceType, k: nat, r: int, c: int) -> bool
    decreases k,
{
    if k == 0 {
        shape_cell(t, r, c)
    } else {
        rot_cell(t, (k - 1) as nat, shape_size(t) - 1 - c, r)
    }
}

impl PieceType {
    /// Occupancy lookup into the unrotated shape table.
    pub fn shape_filled(&self, r: usize, c: usize) -> (b: bool)
        ensures
            b == shape_cell(*self, r as int, c as int),
    {
        match self {
            PieceType::I => r == 1 && c < 4,
            PieceType::O => r < 2 && c < 2,
            PieceType::T => (r == 0 && c == 1) || (r == 1 && c < 3),
            PieceType::S => (r == 0 && (c == 1 || c == 2)) || (r == 1 && (c == 0 || c == 1)),
            PieceType::Z => (r == 0 && (c == 0 || c == 1)) || (r == 1 && (c == 1 || c == 2)),
            PieceType::J => (r == 0 && c == 0) || (r == 1 && c < 3),
            PieceType::L => (r == 0 && c == 2) || (r == 1 && c < 3),
        }
    }

    /// The occupancy matrix of this piece kind, row by row.
    pub fn get_shape(&self) -> (s: Vec<Vec<bool>>)
        ensures
            s@.len() == shape_size(*self),
            forall|r: int| 0 <= r < s@.len() ==> (#[trigger] s@[r])@.len() == shape_size(*self),
            forall|r: int, c: int|
                0 <= r < s@.len() && 0 <= c < s@.len() ==> (#[trigger] s@[r]@[c]) == shape_cell(
                    *self,
                    r,
                    c,
                ),
    {
        let n: usize = match self {
            PieceType::I => 4,
            PieceType::O => 2,
            _ => 3,
        };
        let mut s: Vec<Vec<bool>> = Vec::new();
        let mut r: usize = 0;
        while r < n
            invariant
                n == shape_size(*self),
                r <= n,
                s@.len() == r,
                forall|i: int| 0 <= i < r ==> (#[trigger] s@[i])@.len() == n,
                forall|i: int, j: int|
                    0 <= i < r && 0 <= j < n ==> (#[trigger] s@[i]@[j]) == shape_cell(*self, i, j),
            decreases n - r,
        {
            let mut row: Vec<bool> = Vec::new();
            let mut c: usize = 0;
            while c < n
                invariant
                    n == shape_size(*self),
                    c <= n,
                    row@.len() == c,
                    forall|j: int| 0 <= j < c ==> (#[trigger] row@[j]) == shape_cell(*self, r as int, j),
                decreases n - c,
            {
                row.push(self.shape_filled(r, c));
                c = c + 1;
            }
            s.push(row);
            r = r + 1;
        }
        s
    }

    /// A uniformly random piece kind.
    pub fn random() -> (t: PieceType) {
        let r = random_below(7);
        match r {
            0 => PieceType::I,
            1 => PieceType::O,
            2 => PieceType::T,
            3 => PieceType::S,
            4 => PieceType::Z,
            5 => PieceType::J,
            _ => PieceType::L,
        }
    }
}

/// A falling piece: its kind, the board position of its matrix's top-left
/// corner, and how many quarter turns it has taken.
#[derive(Debug, Clone, Copy, PartialEq, Eq, Structural)]
pub struct Piece {
    pub piece_type: PieceType,
    pub position: Position,
    pub rotation: usize,
}

/// The rotation index is always reduced modulo four.
pub open spec fn piece_wf(p: Piece) -> bool {
    p.rotation < 4
}

/// The piece one quarter turn further along, anchor unchanged.
pub open spec fn rotated_spec(p: Piece) -> Piece {
    Piece { rotation: ((p.rotation + 1) as usize % 4) as usize, ..p }
}

/// The piece translated by (`dx`, `dy`), rotation unchanged.
pub open spec fn moved_spec(p: Piece, dx: int, dy: int) -> Piece {
    Piece {
        position: Position {
            x: (p.position.x + dx) as i32,
            y: (p.position.y + dy) as i32,
        },
        ..p
    }
}

/// Whether the piece occupies the absolute cell (`xx`, `yy`). Derived
/// purely from kind, rotation and anchor: a piece never stores its cells.
pub open spec fn piece_occupies(p: Piece, xx: int, yy: int) -> bool {
    let n = shape_size(p.piece_type);
    &&& 0 <= xx - p.position.x < n
    &&& 0 <= yy - p.position.y < n
    &&& rot_cell(p.piece_type, (p.rotation % 4) as nat, yy - p.position.y, xx - p.position.x)
}

impl Piece {
    /// A freshly spawned piece: anchored at the fixed spawn column on the
    /// top row, unrotated.
    pub fn new(piece_type: PieceType) -> (p: Piece)
        ensures
            p == spawn_piece_spec(piece_type),
    {
        Piece { piece_type, position: Position { x: 4, y: 0 }, rotation: 0 }
    }

    /// The piece translated by (`dx`, `dy`).
    pub fn moved(&self, dx: i32, dy: i32) -> (p: Piece)
        requires
            i32::MIN <= self.position.x + dx <= i32::MAX,
            i32::MIN <= self.position.y + dy <= i32::MAX,
        ensures
            p == moved_spec(*self, dx as int, dy as int),
    {
        let mut piece = *self;
        piece.position.x = piece.position.x + dx;
        piece.position.y = piece.position.y + dy;
        piece
    }

    /// The piece one quarter turn further along.
    pub fn rotated(&self) -> (p: Piece)
        requires
            self.rotation < 4,
        ensures
            p == rotated_spec(*self),
    {
        let mut piece = *self;
        piece.rotation = (piece.rotation + 1) % 4;
        piece
    }

    /// The board cells this piece occupies, derived from the shape table:
    /// exactly the cells of `piece_occupies`.
    pub fn get_blocks(&self) -> (blocks: Vec<Position>)
        requires
            -16 <= self.position.x <= 16,
            -16 <= self.position.y <= 32,
        ensures
            forall|i: int|
                0 <= i < blocks@.len() ==> piece_occupies(
                    *self,
                    (#[trigger] blocks@[i]).x as int,
                    blocks@[i].y as int,
                ),
            forall|xx: int, yy: int|
                #[trigger] piece_occupies(*self, xx, yy) ==> blocks@.contains(
                    Position { x: xx as i32, y: yy as i32 },
                ),
    {
        let n: usize = match self.piece_type {
            PieceType::I => 4,
            PieceType::O => 2,
            _ => 3,
        };
        let k: usize = self.rotation % 4;
        let mut blocks: Vec<Position> = Vec::new();
        let mut r: usize = 0;
        while r < n
            invariant
                n == shape_size(self.piece_type),
                k == self.rotation % 4,
                -16 <= self.position.x <= 16,
                -16 <= self.position.y <= 32,
                r <= n,
                forall|i: int|
                    0 <= i < blocks@.len() ==> piece_occupies(
                        *self,
                        (#[trigger] blocks@[i]).x as int,
                        blocks@[i].y as int,
                    ),
                forall|rr: int, cc: int|
                    0 <= rr < r && 0 <= cc < n && rot_cell(self.piece_type, k as nat, rr, cc)
                        ==> blocks@.contains(
                        Position {
                            x: (self.position.x + cc) as i32,
                            y: (self.position.y + rr) as i32,
                        },
                    ),
            decreases n - r,
        {
            let mut c: usize = 0;
            while c < n
                invariant
                    n == shape_size(self.piece_type),
                    k == self.rotation % 4,
                    -16 <= self.position.x <= 16,
                    -16 <= self.position.y <= 32,
                    r < n,
                    c <= n,
                    forall|i: int|
                        0 <= i < blocks@.len() ==> piece_occupies(
                            *self,
                            (#[trigger] blocks@[i]).x as int,
                            blocks@[i].y as int,
                        ),
                    forall|rr: int, cc: int|
                        0 <= rr < r && 0 <= cc < n && rot_cell(self.piece_type, k as nat, rr, cc)
                            ==> blocks@.contains(
                            Position {
                                x: (self.position.x + cc) as i32,
                                y: (self.position.y + rr) as i32,
                            },
                        ),
                    forall|cc: int|
                        0 <= cc < c && rot_cell(self.piece_type, k as nat, r as int, cc)
                            ==> blocks@.contains(
                            Position {
                                x: (self.position.x + cc) as i32,
                                y: (self.position.y + r) as i32,
                            },
                        ),
                decreases n - c,
            {
                if self.rotated_filled(k, r, c) {
                    let pos = Position {
                        x: self.position.x + c as i32,
                        y: self.position.y + r as i32,
                    };
                    blocks.push(pos);
                    assert(piece_occupies(*self, pos.x as int, pos.y as int));
                }
                c = c + 1;
            }
            r = r + 1;
        }
        blocks
    }

    /// Occupancy lookup into the shape table after `k` quarter turns,
    /// computed by walking the index transform backwards.
    fn rotated_filled(&self, k: usize, r: usize, c: usize) -> (b: bool)
        requires
            k < 4,
            r < shape_size(self.piece_type),
            c < shape_size(self.piece_type),
        ensures
            b == rot_cell(self.piece_type, k as nat, r as int, c as int),
    {
        let n: usize = match self.piece_type {
            PieceType::I => 4,
            PieceType::O => 2,
            _ => 3,
        };
        let mut rr: usize = r;
        let mut cc: usize = c;
        let mut i: usize = 0;
        while i < k
            invariant
                n == shape_size(self.piece_type),
                i <= k,
                k < 4,
                rr < n,
                cc < n,
                rot_cell(self.piece_type, k as nat, r as int, c as int) == rot_cell(
                    self.piece_type,
                    (k - i) as nat,
                    rr as int,
                    cc as int,
                ),
            decreases k - i,
        {
            let new_rr = n - 1 - cc;
            let new_cc = rr;
            rr = new_rr;
            cc = new_cc;
            i = i + 1;
        }
        self.piece_type.shape_filled(rr, cc)
    }
}

/// A fresh spawn of the given kind: the fixed spawn anchor, rotation zero.
pub open spec fn spawn_piece_spec(t: PieceType) -> Piece {
    Piece { piece_type: t, position: Position { x: 4, y: 0 }, rotation: 0 }
}

/// Every shape, in every rotation, fills at least one cell of its matrix.
pub proof fn lemma_shape_has_cell(t: PieceType, k: nat)
    requires
        k < 4,
    ensures
        exists|r: int, c: int|
            0 <= r < shape_size(t) && 0 <= c < shape_size(t) && #[trigger] rot_cell(t, k, r, c),
    decreases k,
{
    if k == 0 {
        match t {
            PieceType::I => {
                assert(rot_cell(t, 0, 1, 0));
            },
            PieceType::O => {
                assert(rot_cell(t, 0, 0, 0));
            },
            PieceType::T => {
                assert(rot_cell(t, 0, 1, 0));
            },
            PieceType::S => {
                assert(rot_cell(t, 0, 1, 0));
            },
            PieceType::Z => {
                assert(rot_cell(t, 0, 0, 0));
            },
            PieceType::J => {
                assert(rot_cell(t, 0, 0, 0));
            },
            PieceType::L => {
                assert(rot_cell(t, 0, 1, 0));
            },
        }
    } else {
        lemma_shape_has_cell(t, (k - 1) as nat);
        let (r, c): (int, int) = choose|r: int, c: int|
            0 <= r < shape_size(t) && 0 <= c < shape_size(t) && #[trigger] rot_cell(
                t,
                (k - 1) as nat,
                r,
                c,
            );
        assert(rot_cell(t, k, c, shape_size(t) - 1 - r));
    }
}

/// The board as a mathematical grid: one sequence of rows, each a sequence
/// of optional piece markers.
pub open spec fn rows_of(board: Vec<Vec<Option<PieceType>>>) -> Seq<Seq<Option<PieceType>>> {
    board@.map_values(|row: Vec<Option<PieceType>>| row@)
}

/// A well-shaped board: exactly the fixed number of rows, each of the
/// fixed width.
pub open spec fn rows_wf(b: Seq<Seq<Option<PieceType>>>) -> bool {
    &&& b.len() == 20
    &&& forall|y: int| 0 <= y < 20 ==> (#[trigger] b[y]).len() == 10
}

/// Whether a board cell may be occupied by a falling piece: inside the
/// side walls and the floor, and — when on the visible board — empty.
/// Cells above the board are exempt from the occupancy check.
pub open spec fn cell_ok(b: Seq<Seq<Option<PieceType>>>, xx: int, yy: int) -> bool {
    &&& 0 <= xx < 10
    &&& yy < 20
    &&& 0 <= yy ==> b[yy][xx] is None
}

/// The validity rule: a candidate piece may stand exactly where every cell
/// it occupies is allowed.
pub open spec fn valid_spec(b: Seq<Seq<Option<PieceType>>>, p: Piece) -> bool {
    forall|xx: int, yy: int| #[trigger] piece_occupies(p, xx, yy) ==> cell_ok(b, xx, yy)
}

/// A row with no occupied cell.
pub open spec fn empty_row() -> Seq<Option<PieceType>> {
    Seq::new(10, |x: int| None::<PieceType>)
}

/// `n` empty rows.
pub open spec fn empty_rows(n: int) -> Seq<Seq<Option<PieceType>>> {
    Seq::new(n as nat, |i: int| empty_row())
}

/// A completely occupied row, ripe for clearing.
pub open spec fn row_full(row: Seq<Option<PieceType>>) -> bool {
    forall|x: int| 0 <= x < 10 ==> (#[trigger] row[x]) is Some
}

/// The rows that survive a clear, in their original order.
pub open spec fn kept_rows(b: Seq<Seq<Option<PieceType>>>) -> Seq<Seq<Option<PieceType>>> {
    b.filter(|row: Seq<Option<PieceType>>| !row_full(row))
}

/// How many rows a clear removes.
pub open spec fn num_full(b: Seq<Seq<Option<PieceType>>>) -> int {
    b.len() - kept_rows(b).len()
}

/// The board after a clear: every full row removed, the surviving rows
/// pushed to the bottom in order, and fresh empty rows on top.
pub open spec fn cleared_rows(b: Seq<Seq<Option<PieceType>>>) -> Seq<Seq<Option<PieceType>>> {
    empty_rows(num_full(b)) + kept_rows(b)
}

/// The classic per-clear award, before the level multiplier.
pub open spec fn line_score(n: int) -> int {
    if n == 1 {
        40
    } else if n == 2 {
        100
    } else if n == 3 {
        300
    } else if n == 4 {
        1200
    } else {
        0
    }
}

/// The sounds a clear emits: one ordinary chime for one to three rows, the
/// celebration for four.
pub open spec fn clear_sounds(n: int) -> Seq<SoundEffect> {
    if 1 <= n <= 3 {
        seq![SoundEffect::TetrisLineClear]
    } else if n == 4 {
        seq![SoundEffect::TetrisTetris]
    } else {
        Seq::empty()
    }
}

/// Filtering keeps a sequence with no full row whole.
proof fn lemma_filter_all_kept(b: Seq<Seq<Option<PieceType>>>)
    requires
        forall|j: int| 0 <= j < b.len() ==> !row_full(#[trigger] b[j]),
    ensures
        kept_rows(b) =~= b,
    decreases b.len(),
{
    reveal_with_fuel(Seq::filter, 2);
    if b.len() == 0 {
        assert(kept_rows(b) =~= b);
    } else {
        lemma_filter_all_kept(b.drop_last());
        assert(kept_rows(b) =~= kept_rows(b.drop_last()).push(b.last()));
    }
}

/// Filtering a sequence whose only full row sits at `i` removes exactly
/// that row.
proof fn lemma_filter_skip_one(b: Seq<Seq<Option<PieceType>>>, i: int)
    requires
        0 <= i < b.len(),
        row_full(b[i]),
        forall|j: int| 0 <= j < b.len() && j != i ==> !row_full(#[trigger] b[j]),
    ensures
        kept_rows(b) =~= b.subrange(0, i) + b.subrange(i + 1, b.len() as int),
    decreases b.len(),
{
    reveal_with_fuel(Seq::filter, 2);
    let last = b.len() - 1;
    if i == last {
        lemma_filter_all_kept(b.drop_last());
        assert(kept_rows(b) =~= kept_rows(b.drop_last()));
        assert(b.drop_last() =~= b.subrange(0, i) + b.subrange(i + 1, b.len() as int));
    } else {
        lemma_filter_skip_one(b.drop_last(), i);
        assert(kept_rows(b) =~= kept_rows(b.drop_last()).push(b.last()));
        assert(kept_rows(b.drop_last()) =~= b.drop_last().subrange(0, i) + b.drop_last().subrange(
            i + 1,
            last,
        ));
        assert(b.drop_last().subrange(0, i) =~= b.subrange(0, i));
        assert(b.drop_last().subrange(i + 1, last).push(b.last()) =~= b.subrange(
            i + 1,
            b.len() as int,
        ));
    }
}

/// Line-clear correctness in the configuration with a single full row:
/// that row's content is removed, every row above it shifts down by
/// exactly one, and every row below it — in particular any non-full row
/// beneath it — is untouched. The new top row is empty.
pub proof fn lemma_clear_single_full_row(b: Seq<Seq<Option<PieceType>>>, r1: int)
    requires
        rows_wf(b),
        0 <= r1 < 20,
        row_full(b[r1]),
        forall|j: int| 0 <= j < 20 && j != r1 ==> !row_full(#[trigger] b[j]),
    ensures
        cleared_rows(b).len() == 20,
        cleared_rows(b)[0] =~= empty_row(),
        forall|j: int| 0 < j <= r1 ==> cleared_rows(b)[j] == b[j - 1],
        forall|j: int| r1 < j < 20 ==> cleared_rows(b)[j] == b[j],
{
    lemma_filter_skip_one(b, r1);
    assert(kept_rows(b).len() == 19);
    assert forall|j: int| 0 < j <= r1 implies cleared_rows(b)[j] == b[j - 1] by {
        assert(cleared_rows(b)[j] == kept_rows(b)[j - 1]);
        assert(kept_rows(b)[j - 1] == (b.subrange(0, r1) + b.subrange(r1 + 1, 20))[j - 1]);
    }
    assert forall|j: int| r1 < j < 20 implies cleared_rows(b)[j] == b[j] by {
        assert(cleared_rows(b)[j] == kept_rows(b)[j - 1]);
        assert(kept_rows(b)[j - 1] == (b.subrange(0, r1) + b.subrange(r1 + 1, 20))[j - 1]);
    }
}

/// A piece that stands validly somewhere is confined to a small box of
/// anchors; this is what keeps the anchor arithmetic far from overflow.
pub proof fn lemma_valid_position_box(b: Seq<Seq<Option<PieceType>>>, p: Piece)
    requires
        valid_spec(b, p),
    ensures
        -3 <= p.position.x <= 9,
        p.position.y <= 19,
{
    lemma_shape_has_cell(p.piece_type, (p.rotation % 4) as nat);
    let (r, c): (int, int) = choose|r: int, c: int|
        0 <= r < shape_size(p.piece_type) && 0 <= c < shape_size(p.piece_type)
            && #[trigger] rot_cell(p.piece_type, (p.rotation % 4) as nat, r, c);
    assert(piece_occupies(p, p.position.x + c, p.position.y + r));
}

/// Applying the quarter turn four times returns a piece to exactly its
/// original value, and so to its original occupied-cell set.
pub proof fn lemma_rotate_four_identity(p: Piece)
    requires
        piece_wf(p),
    ensures
        rotated_spec(rotated_spec(rotated_spec(rotated_spec(p)))) == p,
        forall|xx: int, yy: int|
            piece_occupies(rotated_spec(rotated_spec(rotated_spec(rotated_spec(p)))), xx, yy)
                == piece_occupies(p, xx, yy),
{
    assert(rotated_spec(rotated_spec(rotated_spec(rotated_spec(p)))) == p);
}

/// The whole simulation: board, falling piece, preview kind, counters, and
/// the sound notifications emitted since the shell last drained them.
pub struct TetrisGame {
    pub board: Vec<Vec<Option<PieceType>>>,
    pub current_piece: Option<Piece>,
    pub next_piece: PieceType,
    pub score: u32,
    pub lines_cleared: u32,
    pub level: u32,
    pub game_over: bool,
    pub drop_timer: u32,
    pub tetris_celebration: u32,
    pub sounds: Vec<SoundEffect>,
}

/// A game exactly as `new` builds it: empty board, zeroed counters, level
/// one, a freshly spawned piece, no pending sounds. Which kinds were drawn
/// is left open.
pub open spec fn fresh_game(g: TetrisGame) -> bool {
    &&& g.rows() =~= empty_rows(20)
    &&& match g.current_piece {
        Some(p) => p == spawn_piece_spec(p.piece_type),
        None => false,
    }
    &&& g.score == 0
    &&& g.lines_cleared == 0
    &&& g.level == 1
    &&& !g.game_over
    &&& g.drop_timer == 0
    &&& g.tetris_celebration == 0
    &&& g.sounds@.len() == 0
}

impl TetrisGame {
    /// The board grid as a sequence of rows.
    pub open spec fn rows(self) -> Seq<Seq<Option<PieceType>>> {
        rows_of(self.board)
    }

    /// Structural soundness of a game value: a well-shaped board, a falling
    /// piece (when present) that stands validly on it at or below the top
    /// row, the leveling formula, and bounded timers.
    pub open spec fn wf(self) -> bool {
        &&& rows_wf(self.rows())
        &&& match self.current_piece {
            Some(p) => piece_wf(p) && 0 <= p.position.y && valid_spec(self.rows(), p),
            None => true,
        }
        &&& self.level == self.lines_cleared / 10 + 1
        &&& self.drop_timer <= 20
        &&& self.tetris_celebration <= 120
    }

    /// Room left in the score and line counters for one more event: enough
    /// for the largest line award at the next level plus the largest drop
    /// bonus. A caller checks `has_headroom` before driving the game on.
    pub open spec fn score_room(self) -> bool {
        &&& self.score as int + 1200 * (self.level as int + 2) <= u32::MAX as int
        &&& self.lines_cleared as int + 20 <= u32::MAX as int
    }

    pub open spec fn headroom(self) -> bool {
        &&& self.score as int + 40 + 1200 * (self.level as int + 2) <= u32::MAX as int
        &&& self.lines_cleared as int + 20 <= u32::MAX as int
    }

    /// Run-time check for `headroom`, for the shell and for tests.
    pub fn has_headroom(&self) -> (r: bool)
        ensures
            r == self.headroom(),
    {
        let lvl: u64 = self.level as u64;
        let bound: u64 = 40u64 + 1200u64 * (lvl + 2);
        (self.score as u64 + bound <= u32::MAX as u64) && (self.lines_cleared as u64 + 20
            <= u32::MAX as u64)
    }

    /// A fresh game: empty board, first piece already spawned.
    pub fn new() -> (g: TetrisGame)
        ensures
            g.wf(),
            fresh_game(g),
    {
        let mut board: Vec<Vec<Option<PieceType>>> = Vec::new();
        let mut y: usize = 0;
        while y < 20
            invariant
                y <= 20,
                board@.len() == y,
                forall|j: int| 0 <= j < y ==> (#[trigger] board@[j])@ =~= empty_row(),
            decreases 20 - y,
        {
            let mut row: Vec<Option<PieceType>> = Vec::new();
            let mut x: usize = 0;
            while x < 10
                invariant
                    x <= 10,
                    row@.len() == x,
                    forall|i: int| 0 <= i < x ==> (#[trigger] row@[i]) is None,
                decreases 10 - x,
            {
                row.push(None);
                x = x + 1;
            }
            assert(row@ =~= empty_row());
            board.push(row);
            y = y + 1;
        }
        let mut game = TetrisGame {
            board,
            current_piece: None,
            next_piece: PieceType::random(),
            score: 0,
            lines_cleared: 0,
            level: 1,
            game_over: false,
            drop_timer: 0,
            tetris_celebration: 0,
            sounds: Vec::new(),
        };
        assert(game.rows() =~= empty_rows(20));
        proof {
            let np = spawn_piece_spec(game.next_piece);
            assert forall|xx: int, yy: int| #[trigger]
                piece_occupies(np, xx, yy) implies cell_ok(game.rows(), xx, yy) by {
                assert(game.rows()[yy][xx] is None);
            }
        }
        game.spawn_piece();
        game
    }

    /// Whether a candidate piece may stand on this board, by the validity
    /// rule: inside the walls and floor, overlapping no settled cell.
    pub fn is_valid_position(&self, piece: &Piece) -> (r: bool)
        requires
            rows_wf(self.rows()),
            -16 <= piece.position.x <= 16,
            -16 <= piece.position.y <= 32,
        ensures
            r == valid_spec(self.rows(), *piece),
    {
        let blocks = piece.get_blocks();
        let ghost brows = self.rows();
        let mut i: usize = 0;
        while i < blocks.len()
            invariant
                brows == self.rows(),
                rows_wf(brows),
                i <= blocks@.len(),
                forall|j: int|
                    0 <= j < blocks@.len() ==> piece_occupies(
                        *piece,
                        (#[trigger] blocks@[j]).x as int,
                        blocks@[j].y as int,
                    ),
                forall|xx: int, yy: int|
                    #[trigger] piece_occupies(*piece, xx, yy) ==> blocks@.contains(
                        Position { x: xx as i32, y: yy as i32 },
                    ),
                forall|j: int|
                    0 <= j < i ==> cell_ok(
                        brows,
                        (#[trigger] blocks@[j]).x as int,
                        blocks@[j].y as int,
                    ),
            decreases blocks@.len() - i,
        {
            let b = blocks[i];
            if b.x < 0 || b.x >= 10 || b.y >= 20 {
                assert(piece_occupies(*piece, b.x as int, b.y as int));
                return false;
            }
            if b.y >= 0 {
                assert(self.board@.len() == 20);
                assert(self.board@[b.y as int]@.len() == 10) by {
                    assert(brows[b.y as int] == self.board@[b.y as int]@);
                }
                if self.board[b.y as usize][b.x as usize].is_some() {
                    assert(piece_occupies(*piece, b.x as int, b.y as int));
                    assert(!cell_ok(brows, b.x as int, b.y as int));
                    return false;
                }
            }
            assert(cell_ok(brows, b.x as int, b.y as int));
            i = i + 1;
        }
        assert forall|xx: int, yy: int| #[trigger]
            piece_occupies(*piece, xx, yy) implies cell_ok(brows, xx, yy) by {
            let pos = Position { x: xx as i32, y: yy as i32 };
            assert(blocks@.contains(pos));
            let j = choose|j: int| 0 <= j < blocks@.len() && blocks@[j] == pos;
            assert(cell_ok(brows, blocks@[j].x as int, blocks@[j].y as int));
        }
        true
    }

    /// Spawn the preview piece at the fixed anchor and draw a new preview
    /// kind. If the spawned piece cannot stand there, the game is over: the
    /// board and every counter stay untouched, and the one game-over sound
    /// is emitted.
    pub fn spawn_piece(&mut self)
        requires
            old(self).wf(),
        ensures
            final(self).wf(),
            final(self).board == old(self).board,
            final(self).score == old(self).score,
            final(self).lines_cleared == old(self).lines_cleared,
            final(self).level == old(self).level,
            final(self).drop_timer == old(self).drop_timer,
            final(self).tetris_celebration == old(self).tetris_celebration,
            ({
                let np = spawn_piece_spec(old(self).next_piece);
                if valid_spec(old(self).rows(), np) {
                    &&& final(self).current_piece == Some(np)
                    &&& final(self).game_over == old(self).game_over
                    &&& final(self).sounds@ == old(self).sounds@
                } else {
                    &&& final(self).current_piece == old(self).current_piece
                    &&& final(self).game_over
                    &&& final(self).sounds@ == old(self).sounds@.push(
                        SoundEffect::TetrisGameOver,
                    )
                }
            }),
    {
        let new_piece = Piece::new(self.next_piece);
        self.next_piece = PieceType::random();

        if self.is_valid_position(&new_piece) {
            self.current_piece = Some(new_piece);
        } else {
            self.game_over = true;
            self.sounds.push(SoundEffect::TetrisGameOver);
        }
    }

    /// Try to translate the falling piece by (`dx`, `dy`). The move happens
    /// exactly when there is a falling piece and the translated piece is
    /// valid; otherwise nothing changes. A successful sideways move emits
    /// the move sound.
    pub fn move_piece(&mut self, dx: i32, dy: i32) -> (moved: bool)
        requires
            old(self).wf(),
            -1 <= dx <= 1,
            0 <= dy <= 1,
        ensures
            final(self).wf(),
            moved == match old(self).current_piece {
                Some(p) => valid_spec(old(self).rows(), moved_spec(p, dx as int, dy as int)),
                None => false,
            },
            final(self).current_piece == if moved {
                Some(moved_spec(old(self).current_piece->Some_0, dx as int, dy as int))
            } else {
                old(self).current_piece
            },
            final(self).sounds@ == if moved && dx != 0 {
                old(self).sounds@.push(SoundEffect::TetrisMove)
            } else {
                old(self).sounds@
            },
            final(self).board == old(self).board,
            final(self).next_piece == old(self).next_piece,
            final(self).score == old(self).score,
            final(self).lines_cleared == old(self).lines_cleared,
            final(self).level == old(self).level,
            final(self).game_over == old(self).game_over,
            final(self).drop_timer == old(self).drop_timer,
            final(self).tetris_celebration == old(self).tetris_celebration,
    {
        let has = self.current_piece.is_some();
        if has {
            let piece = self.current_piece.unwrap();
            proof {
                lemma_valid_position_box(self.rows(), piece);
            }
            let new_piece = piece.moved(dx, dy);
            if self.is_valid_position(&new_piece) {
                self.current_piece = Some(new_piece);
                if dx != 0 {
                    self.sounds.push(SoundEffect::TetrisMove);
                }
                return true;
            }
        }
        false
    }

    /// Try to rotate the falling piece one quarter turn. The rotation
    /// happens exactly when there is a falling piece and the rotated piece
    /// is valid; otherwise nothing changes.
    pub fn rotate_piece(&mut self) -> (turned: bool)
        requires
            old(self).wf(),
        ensures
            final(self).wf(),
            turned == match old(self).current_piece {
                Some(p) => valid_spec(old(self).rows(), rotated_spec(p)),
                None => false,
            },
            final(self).current_piece == if turned {
                Some(rotated_spec(old(self).current_piece->Some_0))
            } else {
                old(self).current_piece
            },
            final(self).sounds@ == if turned {
                old(self).sounds@.push(SoundEffect::TetrisRotate)
            } else {
                old(self).sounds@
            },
            final(self).board == old(self).board,
            final(self).next_piece == old(self).next_piece,
            final(self).score == old(self).score,
            final(self).lines_cleared == old(self).lines_cleared,
            final(self).level == old(self).level,
            final(self).game_over == old(self).game_over,
            final(self).drop_timer == old(self).drop_timer,
            final(self).tetris_celebration == old(self).tetris_celebration,
    {
        let has = self.current_piece.is_some();
        if has {
            let piece = self.current_piece.unwrap();
            proof {
                lemma_valid_position_box(self.rows(), piece);
            }
            let rotated = piece.rotated();
            if self.is_valid_position(&rotated) {
                self.current_piece = Some(rotated);
                self.sounds.push(SoundEffect::TetrisRotate);
                return true;
            }
        }
        false
    }

    /// Write one settled marker into the board.
    fn fill_cell(&mut self, x: usize, y: usize, t: PieceType)
        requires
            rows_wf(old(self).rows()),
            x < 10,
            y < 20,
        ensures
            final(self).rows() =~= old(self).rows().update(
                y as int,
                old(self).rows()[y as int].update(x as int, Some(t)),
            ),
            final(self).current_piece == old(self).current_piece,
            final(self).next_piece == old(self).next_piece,
            final(self).score == old(self).score,
            final(self).lines_cleared == old(self).lines_cleared,
            final(self).level == old(self).level,
            final(self).game_over == old(self).game_over,
            final(self).drop_timer == old(self).drop_timer,
            final(self).tetris_celebration == old(self).tetris_celebration,
            final(self).sounds == old(self).sounds,
    {
        assert(self.board@.len() == 20);
        assert(self.board@[y as int]@.len() == 10) by {
            assert(self.rows()[y as int] == self.board@[y as int]@);
        }
        let row = &mut self.board[y];
        row.set(x, Some(t));
    }

    /// Lock the falling piece into the board, clear any full rows, and
    /// spawn the preview piece. The one composite transition of the state
    /// machine that `place_step` describes in full.
    pub fn place_piece(&mut self)
        requires
            old(self).wf(),
            old(self).score_room(),
        ensures
            final(self).wf(),
            place_step(*old(self), *final(self)),
    {
        let ghost pre = *old(self);
        let ghost b0 = self.rows();
        if self.current_piece.is_some() {
            let piece = self.current_piece.unwrap();
            proof {
                lemma_valid_position_box(self.rows(), piece);
            }
            let blocks = piece.get_blocks();
            let t = piece.piece_type;
            let mut i: usize = 0;
            while i < blocks.len()
                invariant
                    rows_wf(self.rows()),
                    valid_spec(b0, piece),
                    0 <= piece.position.y,
                    -16 <= piece.position.x <= 16,
                    -16 <= piece.position.y <= 32,
                    t == piece.piece_type,
                    i <= blocks@.len(),
                    forall|j: int|
                        0 <= j < blocks@.len() ==> piece_occupies(
                            piece,
                            (#[trigger] blocks@[j]).x as int,
                            blocks@[j].y as int,
                        ),
                    forall|xx: int, yy: int|
                        #[trigger] piece_occupies(piece, xx, yy) ==> blocks@.contains(
                            Position { x: xx as i32, y: yy as i32 },
                        ),
                    self.rows().len() == 20,
                    forall|yy: int, xx: int|
                        0 <= yy < 20 && 0 <= xx < 10 ==> #[trigger] self.rows()[yy][xx] == (
                        if blocks@.subrange(0, i as int).contains(
                            Position { x: xx as i32, y: yy as i32 },
                        ) {
                            Some(t)
                        } else {
                            b0[yy][xx]
                        }),
                    self.current_piece == pre.current_piece,
                    self.next_piece == pre.next_piece,
                    self.score == pre.score,
                    self.lines_cleared == pre.lines_cleared,
                    self.level == pre.level,
                    self.game_over == pre.game_over,
                    self.drop_timer == pre.drop_timer,
                    self.tetris_celebration == pre.tetris_celebration,
                    self.sounds == pre.sounds,
                decreases blocks@.len() - i,
            {
                let b = blocks[i];
                assert(piece_occupies(piece, b.x as int, b.y as int));
                assert(cell_ok(b0, b.x as int, b.y as int));
                assert(b.y >= 0);
                let ghost prev = self.rows();
                if b.y >= 0 {
                    self.fill_cell(b.x as usize, b.y as usize, t);
                }
                proof {
                    assert(blocks@.subrange(0, i + 1) =~= blocks@.subrange(0, i as int).push(
                        blocks@[i as int],
                    ));
                    assert forall|yy: int, xx: int|
                        0 <= yy < 20 && 0 <= xx < 10 implies #[trigger] self.rows()[yy][xx] == (
                        if blocks@.subrange(0, i + 1).contains(
                            Position { x: xx as i32, y: yy as i32 },
                        ) {
                            Some(t)
                        } else {
                            b0[yy][xx]
                        }) by {
                        let pos = Position { x: xx as i32, y: yy as i32 };
                        assert(prev[yy][xx] == (if blocks@.subrange(0, i as int).contains(pos) {
                            Some(t)
                        } else {
                            b0[yy][xx]
                        }));
                        assert(blocks@.subrange(0, i + 1).contains(pos) == (pos == blocks@[
                            i as int] || blocks@.subrange(0, i as int).contains(pos)));
                        if yy == b.y as int && xx == b.x as int {
                            assert(pos == blocks@[i as int]);
                            assert(self.rows()[yy][xx] == Some(t));
                        } else {
                            assert(pos != blocks@[i as int]);
                            assert(self.rows()[yy][xx] == prev[yy][xx]);
                        }
                    }
                }
                i = i + 1;
            }
            proof {
                assert(blocks@.subrange(0, blocks@.len() as int) =~= blocks@);
                assert(rows_wf(b0));
                assert forall|yy: int, xx: int|
                    0 <= yy < 20 && 0 <= xx < 10 implies self.rows()[yy][xx] == place_on(
                    b0,
                    piece,
                )[yy][xx] by {
                    let pos = Position { x: xx as i32, y: yy as i32 };
                    assert(self.rows()[yy][xx] == (if blocks@.subrange(
                        0,
                        blocks@.len() as int,
                    ).contains(pos) {
                        Some(t)
                    } else {
                        b0[yy][xx]
                    }));
                    assert(b0[yy].len() == 10);
                    assert(place_on(b0, piece)[yy][xx] == (if piece_occupies(piece, xx, yy) {
                        Some(t)
                    } else {
                        b0[yy][xx]
                    }));
                    if piece_occupies(piece, xx, yy) {
                        assert(blocks@.contains(pos));
                    } else {
                        if blocks@.contains(pos) {
                            let j = choose|j: int| 0 <= j < blocks@.len() && blocks@[j] == pos;
                            assert(piece_occupies(piece, blocks@[j].x as int, blocks@[j].y as int));
                            assert(false);
                        }
                    }
                }
                assert forall|yy: int| 0 <= yy < 20 implies self.rows()[yy] =~= place_on(
                    b0,
                    piece,
                )[yy] by {
                    assert(self.rows()[yy].len() == 10);
                    assert(place_on(b0, piece)[yy].len() == 10);
                }
                assert(self.rows() =~= place_on(b0, piece));
            }
        }
        self.current_piece = None;
        self.sounds.push(SoundEffect::TetrisPieceDrop);
        assert(self.rows() =~= place_input_board(pre));
        let ghost mid = *self;
        self.clear_lines();
        self.spawn_piece();
        proof {
            let b1 = place_input_board(pre);
            let n = num_full(b1);
            let np = spawn_piece_spec(pre.next_piece);
            let ok = valid_spec(cleared_rows(b1), np);
            assert(self.sounds@ =~= pre.sounds@ + place_sounds(n, ok)) by {
                assert(mid.sounds@ =~= pre.sounds@ + seq![SoundEffect::TetrisPieceDrop]);
            }
        }
    }

    /// Scan the board for full rows and clear them all in one pass: the
    /// surviving rows keep their order and settle at the bottom, empty rows
    /// enter at the top. Cleared lines feed the line counter, the leveling
    /// formula and the score table.
    pub fn clear_lines(&mut self)
        requires
            old(self).wf(),
            old(self).current_piece is None,
            old(self).score_room(),
        ensures
            final(self).wf(),
            clear_step(*old(self), *final(self)),
    {
        let ghost b0 = self.rows();
        let mut kept: Vec<Vec<Option<PieceType>>> = Vec::new();
        let mut y: usize = 0;
        while y < 20
            invariant
                b0 == self.rows(),
                rows_wf(b0),
                y <= 20,
                kept@.map_values(|r: Vec<Option<PieceType>>| r@) =~= kept_rows(
                    b0.subrange(0, y as int),
                ),
                forall|i: int| 0 <= i < kept@.len() ==> (#[trigger] kept@[i])@.len() == 10,
            decreases 20 - y,
        {
            assert(self.board@.len() == 20);
            assert(self.board@[y as int]@.len() == 10) by {
                assert(b0[y as int] == self.board@[y as int]@);
            }
            let ghost prefix = b0.subrange(0, y as int);
            assert(b0.subrange(0, y + 1).drop_last() =~= prefix);
            let full = row_is_full(&self.board[y]);
            if !full {
                let row_copy = copy_row(&self.board[y]);
                kept.push(row_copy);
            }
            proof {
                reveal_with_fuel(Seq::filter, 2);
                assert(kept@.map_values(|r: Vec<Option<PieceType>>| r@) =~= kept_rows(
                    b0.subrange(0, y + 1),
                ));
            }
            y = y + 1;
        }
        assert(b0.subrange(0, 20) =~= b0);
        assert(kept_rows(b0).len() <= 20);
        let n: usize = 20 - kept.len();
        assert(n == num_full(b0));

        let mut nb: Vec<Vec<Option<PieceType>>> = Vec::new();
        let mut i: usize = 0;
        while i < n
            invariant
                i <= n,
                n <= 20,
                nb@.len() == i,
                forall|j: int| 0 <= j < i ==> (#[trigger] nb@[j])@ =~= empty_row(),
            decreases n - i,
        {
            let row = empty_row_vec();
            nb.push(row);
            i = i + 1;
        }
        nb.append(&mut kept);
        self.board = nb;
        assert(self.rows() =~= cleared_rows(b0));

        let lines_count: u32 = n as u32;
        if lines_count > 0 {
            if lines_count <= 3 {
                self.sounds.push(SoundEffect::TetrisLineClear);
            } else if lines_count == 4 {
                self.sounds.push(SoundEffect::TetrisTetris);
                self.tetris_celebration = 120;
            }
            self.lines_cleared = self.lines_cleared + lines_count;
            self.level = self.lines_cleared / 10 + 1;
            let ls: u32 = match lines_count {
                1 => 40,
                2 => 100,
                3 => 300,
                4 => 1200,
                _ => 0,
            };
            assert(self.level as int <= old(self).level as int + 2) by {
                let a = old(self).lines_cleared as int;
                let k = lines_count as int;
                assert((a + k) / 10 <= a / 10 + 2) by (nonlinear_arith)
                    requires
                        0 <= a,
                        0 <= k <= 20,
                {}
            }
            self.score = self.score + ls * self.level;
        }
        assert(self.sounds@ =~= old(self).sounds@ + clear_sounds(num_full(b0)));
    }

    /// One gravity step: descend one row, or lock and respawn.
    pub fn drop_piece(&mut self)
        requires
            old(self).wf(),
            old(self).score_room(),
        ensures
            final(self).wf(),
            gravity_step_rel(*old(self), *final(self)),
    {
        if !self.move_piece(0, 1) {
            self.place_piece();
        }
    }

    /// Drop the falling piece as far as it can go in one command, award
    /// two points per row fallen, and place it there.
    pub fn hard_drop(&mut self)
        requires
            old(self).wf(),
            old(self).headroom(),
        ensures
            final(self).wf(),
            hard_drop_rel(*old(self), *final(self)),
    {
        let ghost pre = *old(self);
        let ghost b0 = self.rows();
        let mut dropped: u32 = 0;
        loop
            invariant
                pre.wf(),
                pre.headroom(),
                self.wf(),
                b0 == self.rows(),
                self.board == pre.board,
                self.next_piece == pre.next_piece,
                self.score == pre.score,
                self.lines_cleared == pre.lines_cleared,
                self.level == pre.level,
                self.game_over == pre.game_over,
                self.drop_timer == pre.drop_timer,
                self.tetris_celebration == pre.tetris_celebration,
                self.sounds@ == pre.sounds@,
                dropped <= 19,
                match pre.current_piece {
                    Some(p0) => {
                        &&& self.current_piece is Some
                        &&& self.current_piece->Some_0 == moved_spec(p0, 0, dropped as int)
                        &&& drop_dist(b0, p0) == dropped + drop_dist(
                            b0,
                            self.current_piece->Some_0,
                        )
                    },
                    None => self.current_piece is None && dropped == 0,
                },
            ensures
                self.board == pre.board,
                self.next_piece == pre.next_piece,
                self.score == pre.score,
                self.lines_cleared == pre.lines_cleared,
                self.level == pre.level,
                self.game_over == pre.game_over,
                self.drop_timer == pre.drop_timer,
                self.tetris_celebration == pre.tetris_celebration,
                self.sounds@ == pre.sounds@,
                self.wf(),
                pre.headroom(),
                match pre.current_piece {
                    Some(p0) => {
                        &&& dropped == drop_dist(b0, p0)
                        &&& self.current_piece == Some(moved_spec(p0, 0, dropped as int))
                    },
                    None => self.current_piece is None && dropped == 0,
                },
            decreases (match self.current_piece {
                Some(p) => drop_dist(b0, p),
                None => 0nat,
            }),
        {
            let ghost cur_before = self.current_piece;
            let moved = self.move_piece(0, 1);
            if !moved {
                proof {
                    if pre.current_piece is Some {
                        let pc = cur_before->Some_0;
                        assert(drop_dist(b0, pc) == 0);
                    }
                }
                break;
            }
            proof {
                let pc = cur_before->Some_0;
                lemma_valid_position_box(b0, pc);
                lemma_valid_position_box(b0, moved_spec(pc, 0, 1));
                assert(drop_dist(b0, pc) == 1 + drop_dist(b0, moved_spec(pc, 0, 1)));
                let p0 = pre.current_piece->Some_0;
                assert(moved_spec(pc, 0, 1) == moved_spec(p0, 0, dropped as int + 1));
                assert(0 <= p0.position.y);
                assert(moved_spec(pc, 0, 1).position.y == p0.position.y + dropped + 1);
                assert(dropped + 1 <= 19);
            }
            dropped = dropped + 1;
        }
        if dropped > 0 {
            self.score = self.score + dropped * 2;
            self.sounds.push(SoundEffect::TetrisHardDrop);
        }
        let ghost mid = *self;
        self.place_piece();
        proof {
            let k = match pre.current_piece {
                Some(p) => drop_dist(pre.rows(), p) as int,
                None => 0,
            };
            assert(mid.rows() =~= b0);
            let b1 = place_input_board(mid);
            let n = num_full(b1);
            let np = spawn_piece_spec(pre.next_piece);
            let ok = valid_spec(cleared_rows(b1), np);
            let s1 = if k > 0 {
                pre.sounds@.push(SoundEffect::TetrisHardDrop)
            } else {
                pre.sounds@
            };
            assert(mid.sounds@ =~= s1);
            assert(self.sounds@ =~= s1 + place_sounds(n, ok));
        }
    }

    /// The tick interval of automatic gravity at the current level, in
    /// abstract time units: faster with every level, floored at the
    /// fastest rate from level twenty on.
    pub fn get_drop_interval(&self) -> (r: u32)
        ensures
            r as int == vstd::math::max(1, 21 - self.level as int),
    {
        if self.level >= 20 {
            1
        } else {
            21 - self.level
        }
    }

    /// One scheduler tick: while the game runs, age the celebration
    /// banner, advance the drop timer, and fire a gravity step each time
    /// the level's drop interval has elapsed. Never terminal by itself.
    pub fn update(&mut self) -> (action: GameAction)
        requires
            old(self).wf(),
            old(self).headroom(),
        ensures
            final(self).wf(),
            action == GameAction::Continue,
            update_rel(*old(self), *final(self)),
    {
        if !self.game_over {
            if self.tetris_celebration > 0 {
                self.tetris_celebration = self.tetris_celebration - 1;
            }
            let interval = self.get_drop_interval();
            let t2 = self.drop_timer + 1;
            if t2 >= interval {
                self.drop_piece();
                self.drop_timer = 0;
            } else {
                self.drop_timer = t2;
            }
        }
        GameAction::Continue
    }

    /// Dispatch one key press: movement, rotation, drops and quitting
    /// while the game runs; restart and quitting after a game over. Keys
    /// without a mapping are silently ignored.
    pub fn handle_key(&mut self, key: Key) -> (action: GameAction)
        requires
            old(self).wf(),
            old(self).headroom(),
        ensures
            final(self).wf(),
            handle_key_rel(*old(self), *final(self), key, action),
    {
        if self.game_over {
            match key {
                Key::Char(ch) => {
                    if ch == 'r' {
                        *self = TetrisGame::new();
                        GameAction::Continue
                    } else if ch == 'q' {
                        GameAction::Quit
                    } else {
                        GameAction::Continue
                    }
                },
                _ => GameAction::Continue,
            }
        } else {
            match key {
                Key::Left => {
                    self.move_piece(-1, 0);
                    GameAction::Continue
                },
                Key::Right => {
                    self.move_piece(1, 0);
                    GameAction::Continue
                },
                Key::Down => {
                    if self.move_piece(0, 1) {
                        self.score = self.score + 1;
                    } else {
                        self.place_piece();
                    }
                    GameAction::Continue
                },
                Key::Up => {
                    self.rotate_piece();
                    GameAction::Continue
                },
                Key::Char(ch) => {
                    if ch == ' ' {
                        self.hard_drop();
                        GameAction::Continue
                    } else if ch == 'q' {
                        GameAction::Quit
                    } else {
                        GameAction::Continue
                    }
                },
                _ => GameAction::Continue,
            }
        }
    }

    /// Hand the pending sound notifications to the shell and start afresh.
    pub fn take_sounds(&mut self) -> (s: Vec<SoundEffect>)
        ensures
            s@ == old(self).sounds@,
            final(self).sounds@.len() == 0,
            final(self).board == old(self).board,
            final(self).current_piece == old(self).current_piece,
            final(self).next_piece == old(self).next_piece,
            final(self).score == old(self).score,
            final(self).lines_cleared == old(self).lines_cleared,
            final(self).level == old(self).level,
            final(self).game_over == old(self).game_over,
            final(self).drop_timer == old(self).drop_timer,
            final(self).tetris_celebration == old(self).tetris_celebration,
    {
        let mut out: Vec<SoundEffect> = Vec::new();
        core::mem::swap(&mut out, &mut self.sounds);
        out
    }

    /// The registry name of this game.
    pub fn name(&self) -> (r: &'static str)
        ensures
            r@ == "tetris"@,
    {
        "tetris"
    }

    /// The registry description of this game.
    pub fn description(&self) -> (r: &'static str)
        ensures
            r@ == "Classic Tetris with line clearing"@,
    {
        "Classic Tetris with line clearing"
    }

    /// How long the driving loop waits between ticks, in milliseconds.
    pub fn tick_rate(&self) -> (r: u64)
        ensures
            r == 50,
    {
        50
    }
}

/// Whether every cell of a row is occupied.
fn row_is_full(row: &Vec<Option<PieceType>>) -> (r: bool)
    requires
        row@.len() == 10,
    ensures
        r == row_full(row@),
{
    let mut x: usize = 0;
    while x < 10
        invariant
            x <= 10,
            row@.len() == 10,
            forall|i: int| 0 <= i < x ==> (#[trigger] row@[i]) is Some,
        decreases 10 - x,
    {
        if row[x].is_none() {
            return false;
        }
        x = x + 1;
    }
    true
}

/// A fresh copy of a row of cells.
fn copy_row(row: &Vec<Option<PieceType>>) -> (r: Vec<Option<PieceType>>)
    ensures
        r@ == row@,
{
    let mut out: Vec<Option<PieceType>> = Vec::new();
    let mut x: usize = 0;
    while x < row.len()
        invariant
            x <= row@.len(),
            out@ =~= row@.subrange(0, x as int),
        decreases row@.len() - x,
    {
        out.push(row[x]);
        x = x + 1;
    }
    assert(out@ =~= row@);
    out
}

/// A row of empty cells.
fn empty_row_vec() -> (r: Vec<Option<PieceType>>)
    ensures
        r@ =~= empty_row(),
{
    let mut row: Vec<Option<PieceType>> = Vec::new();
    let mut x: usize = 0;
    while x < 10
        invariant
            x <= 10,
            row@.len() == x,
            forall|i: int| 0 <= i < x ==> (#[trigger] row@[i]) is None,
        decreases 10 - x,
    {
        row.push(None);
        x = x + 1;
    }
    row
}

/// The board with a piece's cells written in as settled markers of its
/// kind. Cells the piece does not cover keep their old content.
pub open spec fn place_on(b: Seq<Seq<Option<PieceType>>>, p: Piece) -> Seq<Seq<Option<PieceType>>> {
    Seq::new(
        b.len(),
        |y: int|
            Seq::new(
                b[y].len(),
                |x: int|
                    if piece_occupies(p, x, y) {
                        Some(p.piece_type)
                    } else {
                        b[y][x]
                    },
            ),
    )
}

/// The board a placement hands to the clear pass: the old board with the
/// falling piece settled into it, or unchanged when no piece is falling.
pub open spec fn place_input_board(pre: TetrisGame) -> Seq<Seq<Option<PieceType>>> {
    match pre.current_piece {
        Some(p) => place_on(pre.rows(), p),
        None => pre.rows(),
    }
}

/// The sounds a placement emits: the lock thud, then the clear chime if
/// rows fell, then the game-over sting if the respawn found no room.
pub open spec fn place_sounds(n: int, spawn_ok: bool) -> Seq<SoundEffect> {
    seq![SoundEffect::TetrisPieceDrop] + clear_sounds(n) + if spawn_ok {
        Seq::empty()
    } else {
        seq![SoundEffect::TetrisGameOver]
    }
}

/// What one whole placement does to a game, with the final drop timer and
/// the celebration baseline passed in: the falling piece settles, full
/// rows clear and are scored, and the preview piece respawns — or, finding
/// no room, ends the game with the board left as cleared.
pub open spec fn place_step_with(
    pre: TetrisGame,
    post: TetrisGame,
    timer2: int,
    celeb: int,
) -> bool {
    let b1 = place_input_board(pre);
    let n = num_full(b1);
    let lines2 = pre.lines_cleared as int + n;
    let level2 = if n > 0 {
        lines2 / 10 + 1
    } else {
        pre.level as int
    };
    let score2 = pre.score as int + if n > 0 {
        line_score(n) * level2
    } else {
        0
    };
    let np = spawn_piece_spec(pre.next_piece);
    let ok = valid_spec(cleared_rows(b1), np);
    &&& post.rows() =~= cleared_rows(b1)
    &&& post.lines_cleared as int == lines2
    &&& post.level as int == level2
    &&& post.score as int == score2
    &&& post.drop_timer as int == timer2
    &&& post.tetris_celebration as int == if n == 4 {
        120
    } else {
        celeb
    }
    &&& if ok {
        post.current_piece == Some(np) && post.game_over == pre.game_over
    } else {
        post.current_piece is None && post.game_over
    }
    &&& post.sounds@ == pre.sounds@ + place_sounds(n, ok)
}

/// `place_step_with`, with the drop timer and celebration counter simply
/// carried over.
pub open spec fn place_step(pre: TetrisGame, post: TetrisGame) -> bool {
    place_step_with(pre, post, pre.drop_timer as int, pre.tetris_celebration as int)
}

/// Whether the falling piece has room to descend one row.
pub open spec fn can_descend(g: TetrisGame) -> bool {
    match g.current_piece {
        Some(p) => valid_spec(g.rows(), moved_spec(p, 0, 1)),
        None => false,
    }
}

/// How many rows a piece can fall on this board before it rests: zero when
/// already resting, one more than for the piece one row lower otherwise.
pub open spec fn drop_dist(b: Seq<Seq<Option<PieceType>>>, p: Piece) -> nat
    decreases (if p.position.y < 20 {
        20 - p.position.y
    } else {
        0
    }),
{
    if p.position.y < 20 && valid_spec(b, moved_spec(p, 0, 1)) {
        (1 + drop_dist(b, moved_spec(p, 0, 1))) as nat
    } else {
        0
    }
}

/// What a sideways or downward move attempt does: the translated piece
/// replaces the falling one exactly when it is valid, a successful
/// sideways move emits the move sound, and nothing else changes.
pub open spec fn move_attempt(pre: TetrisGame, post: TetrisGame, dx: int, dy: int) -> bool {
    let ok = match pre.current_piece {
        Some(p) => valid_spec(pre.rows(), moved_spec(p, dx, dy)),
        None => false,
    };
    &&& post.current_piece == (if ok {
        Some(moved_spec(pre.current_piece->Some_0, dx, dy))
    } else {
        pre.current_piece
    })
    &&& post.sounds@ == (if ok && dx != 0 {
        pre.sounds@.push(SoundEffect::TetrisMove)
    } else {
        pre.sounds@
    })
    &&& post.board == pre.board
    &&& post.next_piece == pre.next_piece
    &&& post.score == pre.score
    &&& post.lines_cleared == pre.lines_cleared
    &&& post.level == pre.level
    &&& post.game_over == pre.game_over
    &&& post.drop_timer == pre.drop_timer
    &&& post.tetris_celebration == pre.tetris_celebration
}

/// What a rotation attempt does: the quarter-turned piece replaces the
/// falling one exactly when it is valid, with the rotate sound; nothing
/// else changes.
pub open spec fn rotate_attempt(pre: TetrisGame, post: TetrisGame) -> bool {
    let ok = match pre.current_piece {
        Some(p) => valid_spec(pre.rows(), rotated_spec(p)),
        None => false,
    };
    &&& post.current_piece == (if ok {
        Some(rotated_spec(pre.current_piece->Some_0))
    } else {
        pre.current_piece
    })
    &&& post.sounds@ == (if ok {
        pre.sounds@.push(SoundEffect::TetrisRotate)
    } else {
        pre.sounds@
    })
    &&& post.board == pre.board
    &&& post.next_piece == pre.next_piece
    &&& post.score == pre.score
    &&& post.lines_cleared == pre.lines_cleared
    &&& post.level == pre.level
    &&& post.game_over == pre.game_over
    &&& post.drop_timer == pre.drop_timer
    &&& post.tetris_celebration == pre.tetris_celebration
}

/// A gravity step: the piece descends one row if it can, else it is placed
/// with everything `place_step` entails.
pub open spec fn gravity_step_rel(pre: TetrisGame, post: TetrisGame) -> bool {
    if can_descend(pre) {
        &&& post.current_piece == Some(moved_spec(pre.current_piece->Some_0, 0, 1))
        &&& post.sounds@ == pre.sounds@
        &&& post.board == pre.board
        &&& post.next_piece == pre.next_piece
        &&& post.score == pre.score
        &&& post.lines_cleared == pre.lines_cleared
        &&& post.level == pre.level
        &&& post.game_over == pre.game_over
        &&& post.drop_timer == pre.drop_timer
        &&& post.tetris_celebration == pre.tetris_celebration
    } else {
        place_step(pre, post)
    }
}

/// A manual soft drop: like a gravity step, but a successful descent is
/// worth one point.
pub open spec fn soft_drop_rel(pre: TetrisGame, post: TetrisGame) -> bool {
    if can_descend(pre) {
        &&& post.current_piece == Some(moved_spec(pre.current_piece->Some_0, 0, 1))
        &&& post.score as int == pre.score as int + 1
        &&& post.sounds@ == pre.sounds@
        &&& post.board == pre.board
        &&& post.next_piece == pre.next_piece
        &&& post.lines_cleared == pre.lines_cleared
        &&& post.level == pre.level
        &&& post.game_over == pre.game_over
        &&& post.drop_timer == pre.drop_timer
        &&& post.tetris_celebration == pre.tetris_celebration
    } else {
        place_step(pre, post)
    }
}

/// A hard drop: the piece falls as far as it can in one command, each row
/// fallen is worth two points, and the piece is placed at the bottom of
/// its fall with everything placement entails.
pub open spec fn hard_drop_rel(pre: TetrisGame, post: TetrisGame) -> bool {
    let k = match pre.current_piece {
        Some(p) => drop_dist(pre.rows(), p) as int,
        None => 0,
    };
    let p2 = match pre.current_piece {
        Some(p) => Some(moved_spec(p, 0, k)),
        None => None,
    };
    let b1 = match p2 {
        Some(p) => place_on(pre.rows(), p),
        None => pre.rows(),
    };
    let n = num_full(b1);
    let lines2 = pre.lines_cleared as int + n;
    let level2 = if n > 0 {
        lines2 / 10 + 1
    } else {
        pre.level as int
    };
    let score2 = pre.score as int + 2 * k + if n > 0 {
        line_score(n) * level2
    } else {
        0
    };
    let np = spawn_piece_spec(pre.next_piece);
    let ok = valid_spec(cleared_rows(b1), np);
    let s1 = if k > 0 {
        pre.sounds@.push(SoundEffect::TetrisHardDrop)
    } else {
        pre.sounds@
    };
    &&& post.rows() =~= cleared_rows(b1)
    &&& post.lines_cleared as int == lines2
    &&& post.level as int == level2
    &&& post.score as int == score2
    &&& post.drop_timer == pre.drop_timer
    &&& post.tetris_celebration as int == if n == 4 {
        120
    } else {
        pre.tetris_celebration as int
    }
    &&& if ok {
        post.current_piece == Some(np) && post.game_over == pre.game_over
    } else {
        post.current_piece is None && post.game_over
    }
    &&& post.sounds@ == s1 + place_sounds(n, ok)
}

/// What one tick does when the game is running: the celebration counter
/// ebbs, the drop timer advances, and on reaching the level's drop
/// interval a gravity step fires and the timer resets.
pub open spec fn update_rel(pre: TetrisGame, post: TetrisGame) -> bool {
    if pre.game_over {
        post == pre
    } else {
        let celeb = if pre.tetris_celebration > 0 {
            pre.tetris_celebration as int - 1
        } else {
            0
        };
        let interval = vstd::math::max(1, 21 - pre.level as int);
        if pre.drop_timer as int + 1 < interval {
            &&& post.current_piece == pre.current_piece
            &&& post.board == pre.board
            &&& post.next_piece == pre.next_piece
            &&& post.score == pre.score
            &&& post.lines_cleared == pre.lines_cleared
            &&& post.level == pre.level
            &&& post.game_over == pre.game_over
            &&& post.sounds@ == pre.sounds@
            &&& post.drop_timer as int == pre.drop_timer as int + 1
            &&& post.tetris_celebration as int == celeb
        } else if can_descend(pre) {
            &&& post.current_piece == Some(moved_spec(pre.current_piece->Some_0, 0, 1))
            &&& post.board == pre.board
            &&& post.next_piece == pre.next_piece
            &&& post.score == pre.score
            &&& post.lines_cleared == pre.lines_cleared
            &&& post.level == pre.level
            &&& post.game_over == pre.game_over
            &&& post.sounds@ == pre.sounds@
            &&& post.drop_timer == 0
            &&& post.tetris_celebration as int == celeb
        } else {
            place_step_with(pre, post, 0, celeb)
        }
    }
}

/// What one key press does, per key and per phase of the game. Unmapped
/// keys are a silent no-op; `q` quits from either phase; after a game
/// over only `r` (restart) and `q` act. The audio toggle keys belong to
/// the embedding shell and leave the simulation alone.
pub open spec fn handle_key_rel(
    pre: TetrisGame,
    post: TetrisGame,
    key: Key,
    action: GameAction,
) -> bool {
    if pre.game_over {
        match key {
            Key::Char(ch) => {
                if ch == 'r' {
                    action == GameAction::Continue && fresh_game(post)
                } else if ch == 'q' {
                    action == GameAction::Quit && post == pre
                } else {
                    action == GameAction::Continue && post == pre
                }
            },
            _ => action == GameAction::Continue && post == pre,
        }
    } else {
        match key {
            Key::Left => action == GameAction::Continue && move_attempt(pre, post, -1, 0),
            Key::Right => action == GameAction::Continue && move_attempt(pre, post, 1, 0),
            Key::Down => action == GameAction::Continue && soft_drop_rel(pre, post),
            Key::Up => action == GameAction::Continue && rotate_attempt(pre, post),
            Key::Char(ch) => {
                if ch == ' ' {
                    action == GameAction::Continue && hard_drop_rel(pre, post)
                } else if ch == 'q' {
                    action == GameAction::Quit && post == pre
                } else {
                    action == GameAction::Continue && post == pre
                }
            },
            _ => action == GameAction::Continue && post == pre,
        }
    }
}

/// What one whole clear pass does to a game: the board becomes
/// `cleared_rows`, the counters move by the score table and the leveling
/// formula, a four-row clear starts the celebration, and the matching
/// sounds are appended. Everything else stays.
pub open spec fn clear_step(pre: TetrisGame, post: TetrisGame) -> bool {
    let n = num_full(pre.rows());
    let lines2 = pre.lines_cleared as int + n;
    let level2 = if n > 0 {
        lines2 / 10 + 1
    } else {
        pre.level as int
    };
    &&& post.rows() =~= cleared_rows(pre.rows())
    &&& post.lines_cleared as int == lines2
    &&& post.level as int == level2
    &&& post.score as int == pre.score as int + if n > 0 {
        line_score(n) * level2
    } else {
        0
    }
    &&& post.current_piece == pre.current_piece
    &&& post.next_piece == pre.next_piece
    &&& post.game_over == pre.game_over
    &&& post.drop_timer == pre.drop_timer
    &&& post.tetris_celebration as int == if n == 4 {
        120
    } else {
        pre.tetris_celebration as int
    }
    &&& post.sounds@ == pre.sounds@ + clear_sounds(n)
}

} // verus!
