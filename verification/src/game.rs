//! The loop around the worm. It has two phases: the game runs until the worm
//! hits itself or the player quits, and then it is over for good.
//!
//! The loop itself belongs to the driver, which draws and waits. What it
//! does with each event is decided here.

use vstd::prelude::*;
use crate::grid::{Bounds, Segment};
use crate::input::{Event, Input};
use crate::state::{collides, GameState, GameView, StepResult};

verus! {

/// The phase of a game.
#[derive(Clone, Copy, Debug, PartialEq, Eq, Structural)]
pub enum Phase {
    /// The worm is alive and the next event will move it.
    Running,
    /// The game has ended; nothing changes any more.
    GameOver,
}

/// What the driver has to do after an event.
#[derive(Clone, Copy, Debug, PartialEq, Eq, Structural)]
pub enum Action {
    /// Draw the worm as it is now and wait for the next event.
    Render,
    /// Leave the loop without drawing and tell the player the score.
    Finish { score: u64 },
}

/// What a [`GameLoop`] holds, as mathematical values.
pub struct LoopView {
    pub state: GameView,
    pub phase: Phase,
}

impl LoopView {
    /// What holds of every loop: its worm is well formed, and while the game
    /// runs the head lies on no other cell, so a worm that has hit itself is
    /// never drawn.
    pub open spec fn well_formed(self) -> bool {
        &&& self.state.well_formed()
        &&& self.phase is Running ==> !collides(self.state.segments)
    }

    /// The loop after one event. A loop that is over stays as it is. A
    /// running loop hands the event to `advance`: a key press is an input
    /// without a tick, a tick is a tick without an input; the game goes on if
    /// the worm moved freely and is over if it hit itself or the player quit.
    pub open spec fn handled(self, event: Event, bounds: Bounds) -> LoopView {
        match self.phase {
            Phase::GameOver => self,
            Phase::Running => LoopView {
                state: self.state.advanced(event.input(), event.is_tick(), bounds),
                phase: if self.state.outcome(event.input(), event.is_tick(), bounds) is Moved {
                    Phase::Running
                } else {
                    Phase::GameOver
                },
            },
        }
    }
}

/// A game in progress: the worm and the phase of the loop.
#[derive(Debug)]
pub struct GameLoop {
    state: GameState,
    phase: Phase,
}

impl View for GameLoop {
    type V = LoopView;

    closed spec fn view(&self) -> LoopView {
        LoopView { state: self.state@, phase: self.phase }
    }
}

impl Clone for GameLoop {
    /// A second game in the same phase with an equal worm.
    fn clone(&self) -> (copy: GameLoop)
        ensures
            copy@ == self@,
    {
        GameLoop { state: self.state.clone(), phase: self.phase }
    }
}

impl Default for GameLoop {
    /// The same as [`GameLoop::new`].
    fn default() -> (game: GameLoop)
        ensures
            game.well_formed(),
            game@ == (LoopView { state: GameView::initial(), phase: Phase::Running }),
    {
        GameLoop::new()
    }
}

impl GameLoop {
    /// The invariant of the type; every constructor gives it and every
    /// method keeps it.
    pub open spec fn well_formed(&self) -> bool {
        self@.well_formed()
    }

    /// A new game: the worm at its start, running.
    pub fn new() -> (game: GameLoop)
        ensures
            game.well_formed(),
            game@ == (LoopView { state: GameView::initial(), phase: Phase::Running }),
    {
        let state = GameState::new();
        proof {
            let cells = GameView::initial().segments;
            assert forall|i: int| 1 <= i < cells.len() implies #[trigger] cells[i] != cells[0] by {
                assert(cells[1] == Segment { x: 10, y: 11 });
                assert(cells[0] == Segment { x: 10, y: 10 });
            }
        }
        GameLoop { state, phase: Phase::Running }
    }

    /// A game that goes on from `state`. It is over at once if the head of
    /// that worm already lies on its body.
    pub fn from_state(state: GameState) -> (game: GameLoop)
        requires
            state.well_formed(),
        ensures
            game.well_formed(),
            game@.state == state@,
            game@.phase is GameOver <==> collides(state@.segments),
    {
        let phase = if state.has_collided() {
            Phase::GameOver
        } else {
            Phase::Running
        };
        GameLoop { state, phase }
    }

    /// The worm, for drawing.
    pub fn state(&self) -> (state: &GameState)
        ensures
            state@ == self@.state,
            self.well_formed() ==> state.well_formed(),
    {
        &self.state
    }

    /// The phase of the game.
    pub fn phase(&self) -> (phase: Phase)
        ensures
            phase == self@.phase,
    {
        self.phase
    }

    /// Whether the game has ended.
    pub fn is_over(&self) -> (over: bool)
        ensures
            over == (self@.phase is GameOver),
    {
        match self.phase {
            Phase::Running => false,
            Phase::GameOver => true,
        }
    }

    /// The score: the number of ticks the game has seen.
    pub fn score(&self) -> (score: u64)
        ensures
            score == self@.state.ticks,
    {
        self.state.ticks()
    }

    /// Takes one event and says what to do next.
    ///
    /// While the game runs, the event goes to [`GameState::advance`] with the
    /// viewport of the frame just drawn. If the worm moved freely the answer is
    /// to draw it. If it hit itself, or the player quit, the game is over and
    /// the answer is to finish with the score; a worm that has hit itself is
    /// never handed out for drawing. Quitting leaves the worm and the score
    /// untouched. Once the game is over every event gets the same answer and
    /// changes nothing.
    ///
    /// The tick counter must have room for a tick.
    pub fn handle(&mut self, event: Event, bounds: Bounds) -> (action: Action)
        requires
            old(self).well_formed(),
            old(self)@.phase is Running && event is Tick ==> old(self)@.state.ticks < u64::MAX,
        ensures
            final(self).well_formed(),
            final(self)@ == old(self)@.handled(event, bounds),
            action is Render <==> final(self)@.phase is Running,
            action is Render ==> !collides(final(self)@.state.segments),
            action is Finish ==> action->score == final(self)@.state.ticks,
            old(self)@.phase is GameOver ==> final(self)@ == old(self)@,
            old(self)@.phase is Running && event == Event::KeyPressed(Input::Quit) ==> ({
                &&& final(self)@.state == old(self)@.state
                &&& final(self)@.phase is GameOver
            }),
            old(self)@.phase is Running && event != Event::KeyPressed(Input::Quit) ==> ({
                &&& final(self)@.phase is GameOver <==> collides(final(self)@.state.segments)
                &&& event is Tick ==> final(self)@.state.ticks == old(self)@.state.ticks + 1
                &&& !(event is Tick) ==> final(self)@.state.ticks == old(self)@.state.ticks
            }),
    {
        match self.phase {
            Phase::GameOver => {},
            Phase::Running => {
                let result = match event {
                    Event::KeyPressed(input) => self.state.advance(Some(input), false, bounds),
                    Event::Tick => self.state.advance(None, true, bounds),
                };
                if result.ends_game() {
                    self.phase = Phase::GameOver;
                }
            },
        }
        match self.phase {
            Phase::Running => Action::Render,
            Phase::GameOver => Action::Finish { score: self.state.ticks() },
        }
    }
}

/// A game that is over stays over: no event changes its worm, its score or
/// its phase.
pub proof fn lemma_game_over_is_final(game: LoopView, event: Event, bounds: Bounds)
    requires
        game.phase is GameOver,
    ensures
        game.handled(event, bounds) == game,
{
}

/// Every loop that an event leads to from a well-formed loop is well formed:
/// the worm keeps at least one cell, and a running game never holds a worm
/// whose head lies on its body.
pub proof fn lemma_handle_keeps_well_formed(game: LoopView, event: Event, bounds: Bounds)
    requires
        game.well_formed(),
    ensures
        game.handled(event, bounds).well_formed(),
{
}

/// From any state of the loop, quitting leads straight to the end: the game
/// is over, and worm, heading, growth and score are what they were.
pub proof fn lemma_quit_ends_game(game: LoopView, bounds: Bounds)
    ensures
        game.handled(Event::KeyPressed(Input::Quit), bounds).phase is GameOver,
        game.handled(Event::KeyPressed(Input::Quit), bounds).state == game.state,
{
}

/// A running game ends on an event other than quitting exactly if that event
/// puts the head on the body.
pub proof fn lemma_game_ends_on_collision(game: LoopView, event: Event, bounds: Bounds)
    requires
        game.phase is Running,
        event != Event::KeyPressed(Input::Quit),
    ensures
        game.handled(event, bounds).phase is GameOver <==> collides(
            game.handled(event, bounds).state.segments,
        ),
{
}

/// Only ticks count: a tick raises the score of a running game by one, and a
/// key press leaves it as it was.
pub proof fn lemma_score_counts_ticks(game: LoopView, event: Event, bounds: Bounds)
    requires
        game.phase is Running,
    ensures
        event is Tick ==> game.handled(event, bounds).state.ticks == game.state.ticks + 1,
        !(event is Tick) ==> game.handled(event, bounds).state.ticks == game.state.ticks,
{
}

} // verus!
