//! The snake game: a growing chain of cells steered around a bounded
//! field, food placed uniformly on free cells, and the wall and
//! self-collision rules.

use vstd::prelude::*;

use crate::audio::SoundEffect;
use crate::engine::{GameAction, Key};
use crate::rng::random_below;

verus! {

broadcast use vstd::seq_lib::lemma_seq_contains_after_push;

/// A cell of the snake's field.
#[derive(Debug, Clone, Copy, PartialEq, Eq, Structural)]
pub struct Position {
    pub x: u16,
    pub y: u16,
}

/// The four headings the snake can take.
#[derive(Debug, Clone, Copy, PartialEq, Eq, Structural)]
pub enum SnakeDirection {
    Up,
    Down,
    Left,
    Right,
}

/// Where the head lands after one step: one cell along the heading, with
/// the top and left walls absorbing the step rather than wrapping.
pub open spec fn next_head(head: Position, d: SnakeDirection) -> Position {
    match d {
        SnakeDirection::Up => Position {
            x: head.x,
            y: if head.y == 0 {
                0u16
            } else {
                (head.y - 1) as u16
            },
        },
        SnakeDirection::Down => Position { x: head.x, y: (head.y + 1) as u16 },
        SnakeDirection::Left => Position {
            x: if head.x == 0 {
                0u16
            } else {
                (head.x - 1) as u16
            },
            y: head.y,
        },
        SnakeDirection::Right => Position { x: (head.x + 1) as u16, y: head.y },
    }
}

/// The snake game state.
pub struct SnakeGame {
    pub snake: Vec<Position>,
    pub direction: SnakeDirection,
    pub food: Position,
    pub score: u32,
    pub game_over: bool,
    pub width: u16,
    pub height: u16,
    pub sounds: Vec<SoundEffect>,
}

/// What one movement step does: the head advances one cell along the
/// heading; leaving the field or biting the body ends the game with the
/// game-over sound; eating the food grows the snake, scores ten and
/// replaces the food on a uniformly chosen free cell; otherwise the tail
/// follows the head.
pub open spec fn snake_step_rel(pre: SnakeGame, post: SnakeGame) -> bool {
    if pre.game_over {
        post == pre
    } else {
        let head = pre.snake@[0];
        let nh = next_head(head, pre.direction);
        let hits = nh.x >= pre.width || nh.y >= pre.height || pre.snake@.contains(nh);
        &&& post.direction == pre.direction
        &&& post.width == pre.width
        &&& post.height == pre.height
        &&& (if hits {
            &&& post.game_over
            &&& post.snake == pre.snake
            &&& post.food == pre.food
            &&& post.score == pre.score
            &&& post.sounds@ == pre.sounds@.push(SoundEffect::SnakeGameOver)
        } else {
            let grown = seq![nh] + pre.snake@;
            &&& !post.game_over
            &&& (if nh == pre.food {
                &&& post.snake@ == grown
                &&& post.score == pre.score + 10
                &&& post.sounds@ == pre.sounds@.push(SoundEffect::SnakeEat)
                &&& (post.food.x < pre.width && post.food.y < pre.height
                    && !post.snake@.contains(post.food)) || post.food == pre.food
            } else {
                &&& post.snake@ == grown.drop_last()
                &&& post.score == pre.score
                &&& post.food == pre.food
                &&& post.sounds@ == pre.sounds@
            })
        })
    }
}

impl SnakeGame {
    /// A sound state: a non-empty snake on a modestly sized field, every
    /// segment and the food inside the walls.
    pub open spec fn wf(self) -> bool {
        &&& 1 <= self.width <= 1024
        &&& 1 <= self.height <= 1024
        &&& self.snake@.len() >= 1
        &&& forall|i: int|
            0 <= i < self.snake@.len() ==> (#[trigger] self.snake@[i]).x < self.width
                && self.snake@[i].y < self.height
        &&& self.food.x < self.width
        &&& self.food.y < self.height
    }

    /// A fresh game: a one-segment snake in the middle of the default
    /// field, heading right, with food somewhere free.
    pub fn new() -> (g: SnakeGame)
        ensures
            g.wf(),
            g.width == 40,
            g.height == 20,
            g.snake@.len() == 1,
            g.snake@[0] == (Position { x: 20u16, y: 10u16 }),
            g.direction is Right,
            g.score == 0,
            !g.game_over,
            g.sounds@.len() == 0,
            !g.snake@.contains(g.food),
    {
        let mut snake: Vec<Position> = Vec::new();
        snake.push(Position { x: 20, y: 10 });
        let food_opt = Self::generate_food(&snake, 40, 20);
        let food = match food_opt {
            Some(f) => f,
            None => Position { x: 0, y: 0 },
        };
        proof {
            assert(!snake@.contains(Position { x: 0u16, y: 0u16 })) by {
                assert(snake@[0] == (Position { x: 20u16, y: 10u16 }));
            }
        }
        SnakeGame {
            snake,
            direction: SnakeDirection::Right,
            food,
            score: 0,
            game_over: false,
            width: 40,
            height: 20,
            sounds: Vec::new(),
        }
    }

    /// A food cell drawn uniformly from the free cells of the field, or
    /// nothing when the snake covers every cell.
    pub fn generate_food(snake: &Vec<Position>, width: u16, height: u16) -> (f: Option<Position>)
        requires
            1 <= width <= 1024,
            1 <= height <= 1024,
        ensures
            match f {
                Some(p) => p.x < width && p.y < height && !snake@.contains(p),
                None => forall|p: Position|
                    p.x < width && p.y < height ==> snake@.contains(p),
            },
    {
        let mut frees: Vec<Position> = Vec::new();
        let mut y: u16 = 0;
        while y < height
            invariant
                1 <= width <= 1024,
                1 <= height <= 1024,
                y <= height,
                frees@.len() <= 1024 * (y as int),
                forall|k: int|
                    0 <= k < frees@.len() ==> (#[trigger] frees@[k]).x < width && frees@[k].y
                        < height && !snake@.contains(frees@[k]),
                forall|p: Position|
                    p.x < width && p.y < y && !snake@.contains(p) ==> frees@.contains(p),
            decreases height - y,
        {
            let mut x: u16 = 0;
            while x < width
                invariant
                    1 <= width <= 1024,
                    1 <= height <= 1024,
                    y < height,
                    x <= width,
                    frees@.len() <= 1024 * (y as int) + x as int,
                    forall|k: int|
                        0 <= k < frees@.len() ==> (#[trigger] frees@[k]).x < width && frees@[k].y
                            < height && !snake@.contains(frees@[k]),
                    forall|p: Position|
                        p.x < width && p.y < y && !snake@.contains(p) ==> frees@.contains(p),
                    forall|p: Position|
                        p.x < x && p.y == y && !snake@.contains(p) ==> frees@.contains(p),
                decreases width - x,
            {
                let cand = Position { x, y };
                if !contains_pos(snake, cand) {
                    frees.push(cand);
                }
                x = x + 1;
            }
            y = y + 1;
        }
        if frees.len() == 0 {
            proof {
                assert forall|p: Position|
                    p.x < width && p.y < height implies snake@.contains(p) by {
                    if !snake@.contains(p) {
                        assert(frees@.contains(p));
                    }
                }
            }
            return None;
        }
        let pick = random_below(frees.len() as u32) as usize;
        Some(frees[pick])
    }

    /// Advance the snake one cell along its heading and apply the wall,
    /// collision, growth and scoring rules.
    pub fn move_snake(&mut self)
        requires
            old(self).wf(),
            old(self).score as int + 10 <= u32::MAX as int,
        ensures
            final(self).wf(),
            snake_step_rel(*old(self), *final(self)),
    {
        if self.game_over {
            return ;
        }
        let head = self.snake[0];
        let new_head: Position = match self.direction {
            SnakeDirection::Up => Position {
                x: head.x,
                y: if head.y == 0 {
                    0
                } else {
                    head.y - 1
                },
            },
            SnakeDirection::Down => Position { x: head.x, y: head.y + 1 },
            SnakeDirection::Left => Position {
                x: if head.x == 0 {
                    0
                } else {
                    head.x - 1
                },
                y: head.y,
            },
            SnakeDirection::Right => Position { x: head.x + 1, y: head.y },
        };
        assert(new_head == next_head(head, self.direction));

        if new_head.x >= self.width || new_head.y >= self.height || contains_pos(
            &self.snake,
            new_head,
        ) {
            self.game_over = true;
            self.sounds.push(SoundEffect::SnakeGameOver);
            return ;
        }
        self.snake.insert(0, new_head);
        assert(self.snake@ =~= seq![new_head] + old(self).snake@);

        if new_head.x == self.food.x && new_head.y == self.food.y {
            self.score = self.score + 10;
            self.sounds.push(SoundEffect::SnakeEat);
            let w = self.width;
            let h = self.height;
            let f = Self::generate_food(&self.snake, w, h);
            match f {
                Some(p) => {
                    self.food = p;
                },
                None => {},
            }
        } else {
            self.snake.pop();
            assert(self.snake@ =~= (seq![new_head] + old(self).snake@).drop_last());
        }
    }

    /// Grow or shrink the field, pulling every segment and the food back
    /// inside the new walls.
    pub fn update_dimensions(&mut self, new_width: u16, new_height: u16)
        requires
            old(self).wf(),
            1 <= new_width <= 1024,
            1 <= new_height <= 1024,
        ensures
            final(self).wf(),
            final(self).width == new_width,
            final(self).height == new_height,
            final(self).snake@.len() == old(self).snake@.len(),
            forall|i: int|
                0 <= i < old(self).snake@.len() ==> (#[trigger] final(self).snake@[i]) == (
                Position {
                    x: if old(self).snake@[i].x < new_width {
                        old(self).snake@[i].x
                    } else {
                        (new_width - 1) as u16
                    },
                    y: if old(self).snake@[i].y < new_height {
                        old(self).snake@[i].y
                    } else {
                        (new_height - 1) as u16
                    },
                }),
            final(self).direction == old(self).direction,
            final(self).score == old(self).score,
            final(self).game_over == old(self).game_over,
            final(self).sounds == old(self).sounds,
    {
        if self.width != new_width || self.height != new_height {
            self.width = new_width;
            self.height = new_height;
            let mut i: usize = 0;
            let ghost s0 = self.snake@;
            while i < self.snake.len()
                invariant
                    1 <= new_width <= 1024,
                    1 <= new_height <= 1024,
                    self.width == new_width,
                    self.height == new_height,
                    self.food == old(self).food,
                    self.direction == old(self).direction,
                    self.score == old(self).score,
                    self.game_over == old(self).game_over,
                    self.sounds == old(self).sounds,
                    i <= self.snake@.len(),
                    self.snake@.len() == s0.len(),
                    forall|k: int|
                        i <= k < s0.len() ==> (#[trigger] self.snake@[k]) == s0[k],
                    forall|k: int|
                        0 <= k < i ==> (#[trigger] self.snake@[k]) == (Position {
                            x: if s0[k].x < new_width {
                                s0[k].x
                            } else {
                                (new_width - 1) as u16
                            },
                            y: if s0[k].y < new_height {
                                s0[k].y
                            } else {
                                (new_height - 1) as u16
                            },
                        }),
                decreases self.snake@.len() - i,
            {
                let seg = self.snake[i];
                let nx: u16 = if seg.x >= new_width {
                    new_width - 1
                } else {
                    seg.x
                };
                let ny: u16 = if seg.y >= new_height {
                    new_height - 1
                } else {
                    seg.y
                };
                self.snake.set(i, Position { x: nx, y: ny });
                i = i + 1;
            }
            if self.food.x >= new_width || self.food.y >= new_height {
                let f = Self::generate_food(&self.snake, new_width, new_height);
                match f {
                    Some(p) => {
                        self.food = p;
                    },
                    None => {
                        self.food = Position { x: 0, y: 0 };
                    },
                }
            }
        } else {
            assert(forall|i: int|
                0 <= i < self.snake@.len() ==> (#[trigger] self.snake@[i]).x < new_width
                    && self.snake@[i].y < new_height);
        }
    }

    /// Dispatch one key press: steering that never reverses the heading,
    /// restart and quit after a game over.
    pub fn handle_key(&mut self, key: Key) -> (action: GameAction)
        requires
            old(self).wf(),
        ensures
            final(self).wf(),
            action == (if (old(self).game_over && key == Key::Char('q')) || (!old(self).game_over && key == Key::Char('q')) {
                GameAction::Quit
            } else {
                GameAction::Continue
            }),
            !old(self).game_over ==> final(self).snake == old(self).snake && final(self).food
                == old(self).food && final(self).score == old(self).score && final(self).game_over
                == old(self).game_over,
            !old(self).game_over ==> final(self).direction == (match key {
                Key::Up => if old(self).direction != SnakeDirection::Down {
                    SnakeDirection::Up
                } else {
                    old(self).direction
                },
                Key::Down => if old(self).direction != SnakeDirection::Up {
                    SnakeDirection::Down
                } else {
                    old(self).direction
                },
                Key::Left => if old(self).direction != SnakeDirection::Right {
                    SnakeDirection::Left
                } else {
                    old(self).direction
                },
                Key::Right => if old(self).direction != SnakeDirection::Left {
                    SnakeDirection::Right
                } else {
                    old(self).direction
                },
                _ => old(self).direction,
            }),
            old(self).game_over && key == Key::Char('r') ==> final(self).wf() && !final(self).game_over && final(self).score == 0,
            old(self).game_over && key != Key::Char('r') ==> *final(self) == *old(self),
    {
        if self.game_over {
            match key {
                Key::Char(ch) => {
                    if ch == 'r' {
                        *self = SnakeGame::new();
                        GameAction::Continue
                    } else if ch == 'q' {
                        GameAction::Quit
                    } else {
                        GameAction::Continue
                    }
                },
                _ => GameAction::Continue,
            }
        } else {
            match key {
                Key::Up => {
                    if self.direction != SnakeDirection::Down {
                        self.direction = SnakeDirection::Up;
                    }
                    GameAction::Continue
                },
                Key::Down => {
                    if self.direction != SnakeDirection::Up {
                        self.direction = SnakeDirection::Down;
                    }
                    GameAction::Continue
                },
                Key::Left => {
                    if self.direction != SnakeDirection::Right {
                        self.direction = SnakeDirection::Left;
                    }
                    GameAction::Continue
                },
                Key::Right => {
                    if self.direction != SnakeDirection::Left {
                        self.direction = SnakeDirection::Right;
                    }
                    GameAction::Continue
                },
                Key::Char(ch) => {
                    if ch == 'q' {
                        GameAction::Quit
                    } else {
                        GameAction::Continue
                    }
                },
                _ => GameAction::Continue,
            }
        }
    }

    /// One scheduler tick: one movement step while the game runs.
    pub fn update(&mut self) -> (action: GameAction)
        requires
            old(self).wf(),
            old(self).score as int + 10 <= u32::MAX as int,
        ensures
            final(self).wf(),
            action == GameAction::Continue,
            snake_step_rel(*old(self), *final(self)),
    {
        self.move_snake();
        GameAction::Continue
    }

    /// Drain the pending sound notifications.
    pub fn take_sounds(&mut self) -> (s: Vec<SoundEffect>)
        ensures
            s@ == old(self).sounds@,
            final(self).sounds@.len() == 0,
            final(self).snake == old(self).snake,
            final(self).direction == old(self).direction,
            final(self).food == old(self).food,
            final(self).score == old(self).score,
            final(self).game_over == old(self).game_over,
            final(self).width == old(self).width,
            final(self).height == old(self).height,
    {
        let mut out: Vec<SoundEffect> = Vec::new();
        core::mem::swap(&mut out, &mut self.sounds);
        out
    }

    /// The registry name of this game.
    pub fn name(&self) -> (r: &'static str)
        ensures
            r@ == "snake"@,
    {
        "snake"
    }

    /// The registry description of this game.
    pub fn description(&self) -> (r: &'static str)
        ensures
            r@ == "Classic Snake game"@,
    {
        "Classic Snake game"
    }

    /// How long the driving loop waits between ticks, in milliseconds.
    pub fn tick_rate(&self) -> (r: u64)
        ensures
            r == 150,
    {
        150
    }
}

/// Whether the chain holds the given cell.
fn contains_pos(v: &Vec<Position>, p: Position) -> (r: bool)
    ensures
        r == v@.contains(p),
{
    let mut i: usize = 0;
    while i < v.len()
        invariant
            i <= v@.len(),
            forall|k: int| 0 <= k < i ==> v@[k] != p,
        decreases v@.len() - i,
    {
        if v[i].x == p.x && v[i].y == p.y {
            assert(v@[i as int] == p);
            return true;
        }
        i = i + 1;
    }
    false
}

} // verus!
