//! `mato` is the rule book of a terminal worm game, proved with Verus.
//!
//! A worm is an ordered run of grid cells with its head first. Every event
//! that reaches the game, a key press or a timer tick, moves the head one
//! cell in the current heading; the grid is a torus, so a head that leaves
//! one edge enters at the opposite one. Every second tick the tail stays
//! where it is and the worm gets one cell longer. The game ends when the head
//! lands on another cell of the worm, or when the player quits.
//!
//! The crate holds no I/O. A driver reads keys, keeps a timer, draws
//! the cells and hands each event to [`GameLoop::handle`], which answers with
//! what to do next.
//!
//! * [`grid`]: cells, headings, the viewport and the wrapping step.
//! * [`input`]: keys, what they mean, and the events of the game.
//! * [`state`]: the worm itself and the `advance` operation.
//! * [`game`]: the two-phase loop around it.

pub mod game;
pub mod grid;
pub mod input;
pub mod state;

pub use game::{Action, GameLoop, LoopView, Phase};
pub use grid::{Bounds, Direction, Segment};
pub use input::{Event, Input, Key, QUIT_KEY, TICK_PERIOD_MS};
pub use state::{GameState, GameView, StepResult};
