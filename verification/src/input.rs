//! Keys, what they mean to the game, and the events that drive it.

use vstd::prelude::*;
use crate::grid::Direction;

verus! {

/// Time between two ticks of the game's timer, in milliseconds.
pub const TICK_PERIOD_MS: u64 = 100;

/// The character that ends the game.
pub const QUIT_KEY: char = 'q';

/// A key as the keyboard reports it, reduced to what the game tells apart:
/// the four arrows, a plain character, and everything else.
#[derive(Clone, Copy, Debug, PartialEq, Eq, Structural)]
pub enum Key {
    Up,
    Down,
    Left,
    Right,
    Char(char),
    Other,
}

/// What a key press asks of the game.
#[derive(Clone, Copy, Debug, PartialEq, Eq, Structural)]
pub enum Input {
    /// Turn the worm to this heading.
    Steer(Direction),
    /// End the game.
    Quit,
}

/// One event of the game: a key press that means something, or a tick of the
/// timer.
#[derive(Clone, Copy, Debug, PartialEq, Eq, Structural)]
pub enum Event {
    KeyPressed(Input),
    Tick,
}

impl Key {
    /// The meaning of a key: an arrow steers, [`QUIT_KEY`] quits, and every
    /// other key means nothing.
    pub open spec fn meaning(self) -> Option<Input> {
        match self {
            Key::Up => Some(Input::Steer(Direction::Up)),
            Key::Down => Some(Input::Steer(Direction::Down)),
            Key::Left => Some(Input::Steer(Direction::Left)),
            Key::Right => Some(Input::Steer(Direction::Right)),
            Key::Char(c) => if c == QUIT_KEY {
                Some(Input::Quit)
            } else {
                None
            },
            Key::Other => None,
        }
    }
}

impl Input {
    /// Reads a key: `Some` for the four arrows and for [`QUIT_KEY`], `None`
    /// for any other key.
    pub fn from_key(key: Key) -> (input: Option<Input>)
        ensures
            input == key.meaning(),
            input is Some <==> key is Up || key is Down || key is Left || key is Right || key
                == Key::Char('q'),
    {
        match key {
            Key::Up => Some(Input::Steer(Direction::Up)),
            Key::Down => Some(Input::Steer(Direction::Down)),
            Key::Left => Some(Input::Steer(Direction::Left)),
            Key::Right => Some(Input::Steer(Direction::Right)),
            Key::Char(c) => if c == QUIT_KEY {
                Some(Input::Quit)
            } else {
                None
            },
            Key::Other => None,
        }
    }
}

impl Event {
    /// The input that an event carries: that of a key press, none for a tick.
    pub open spec fn input(self) -> Option<Input> {
        match self {
            Event::KeyPressed(input) => Some(input),
            Event::Tick => None,
        }
    }

    /// Whether the event is a tick of the timer.
    pub open spec fn is_tick(self) -> bool {
        self is Tick
    }

    /// The event that a key press produces. Keys without a meaning produce
    /// none: the game never hears of them.
    pub fn from_key(key: Key) -> (event: Option<Event>)
        ensures
            event == (match key.meaning() {
                Some(input) => Some(Event::KeyPressed(input)),
                None => None,
            }),
    {
        match Input::from_key(key) {
            Some(input) => Some(Event::KeyPressed(input)),
            None => None,
        }
    }
}

} // verus!
