//! The sound-effect vocabulary the games emit. A simulation records which
//! effects an event produced; the embedding shell is free to play them or
//! drop them, and the simulation never depends on playback succeeding.

use vstd::prelude::*;

verus! {

/// One fire-and-forget audio notification, named after the transition that
/// produced it.
#[derive(Clone, Copy, Debug, PartialEq, Eq, Structural)]
pub enum SoundEffect {
    SnakeEat,
    SnakeGameOver,
    TetrisLineClear,
    TetrisPieceDrop,
    TetrisGameOver,
    TetrisRotate,
    TetrisMove,
    TetrisHardDrop,
    TetrisTetris,
    PongPaddleHit,
    PongWallHit,
    PongScore,
    BreakoutPaddleHit,
    BreakoutBrickHit,
    BreakoutGameOver,
    Game2048Move,
    Game2048Merge,
    Game2048GameOver,
    Game2048Victory,
    MinesweeperReveal,
    MinesweeperFlag,
    MinesweeperUnflag,
    MinesweeperMineHit,
    MinesweeperVictory,
    GameOfLifeStep,
    GameOfLifeCellToggle,
    GameOfLifePatternPlace,
    GameOfLifeStateChange,
    MenuSelect,
    MenuConfirm,
    MenuBack,
}

} // verus!
