//! The worm and the one operation that moves it.

use vstd::prelude::*;
use crate::grid::{lemma_step_moves, lemma_step_stays_inside, Bounds, Direction, Segment};
use crate::input::Input;

verus! {

/// How one call of [`GameState::advance`] ended.
#[derive(Clone, Copy, Debug, PartialEq, Eq, Structural)]
pub enum StepResult {
    /// The worm moved and its head is on a cell of its own.
    Moved,
    /// The worm moved and its head landed on another of its cells.
    Collided,
    /// The player quit; the worm did not move.
    Quit,
}

/// Whether the head, the first cell of `segments`, lies on any other cell of
/// the run.
pub open spec fn collides(segments: Seq<Segment>) -> bool {
    exists|i: int| 1 <= i < segments.len() && #[trigger] segments[i] == segments[0]
}

/// The cells after one move: a new head, one step from the old one in
/// `heading`, goes in front; the tail stays if the worm grows and leaves if
/// it does not.
pub open spec fn crawled(
    segments: Seq<Segment>,
    heading: Direction,
    bounds: Bounds,
    grow: bool,
) -> Seq<Segment>
    recommends
        segments.len() > 0,
{
    let longer = seq![segments[0].stepped(heading, bounds)] + segments;
    if grow {
        longer
    } else {
        longer.drop_last()
    }
}

/// How many cells of `segments`, counted from the head, are still part of
/// the worm after its next move: all of them if it grows, all but the tail if
/// it does not.
pub open spec fn kept_cells(segments: Seq<Segment>, grow: bool) -> int {
    if grow {
        segments.len() as int
    } else {
        segments.len() - 1
    }
}

/// Whether every cell of `segments` lies inside the viewport.
pub open spec fn inside(segments: Seq<Segment>, bounds: Bounds) -> bool {
    forall|i: int| 0 <= i < segments.len() ==> bounds.contains(#[trigger] segments[i])
}

/// What a [`GameState`] holds, as mathematical values.
pub struct GameView {
    /// The cells of the worm, head first and tail last.
    pub segments: Seq<Segment>,
    /// Where the head goes next.
    pub heading: Direction,
    /// How many ticks the game has seen; this is the score.
    pub ticks: nat,
    /// Whether the tail stays in place when the worm moves.
    pub grow: bool,
}

impl GameView {
    /// The state every game starts from: two cells, the head at (10, 10) and
    /// the tail above it, heading up, no tick seen.
    pub open spec fn initial() -> GameView {
        GameView {
            segments: seq![Segment { x: 10, y: 10 }, Segment { x: 10, y: 11 }],
            heading: Direction::Up,
            ticks: 0,
            grow: false,
        }
    }

    /// What holds of every state of a game: the worm has at least one cell,
    /// and it grows exactly while the number of ticks seen is even and not
    /// zero.
    pub open spec fn well_formed(self) -> bool {
        &&& self.segments.len() > 0
        &&& self.grow <==> self.ticks > 0 && self.ticks % 2 == 0
    }

    /// The state after one call of `advance`.
    ///
    /// Quitting changes nothing. Otherwise a steering input replaces the
    /// heading, a tick is counted and decides by its parity whether the worm
    /// grows, and the worm then crawls one cell.
    pub open spec fn advanced(
        self,
        input: Option<Input>,
        did_tick: bool,
        bounds: Bounds,
    ) -> GameView {
        if input == Some(Input::Quit) {
            self
        } else {
            let heading = match input {
                Some(Input::Steer(direction)) => direction,
                _ => self.heading,
            };
            let ticks = if did_tick {
                self.ticks + 1
            } else {
                self.ticks
            };
            let grow = if did_tick {
                ticks % 2 == 0
            } else {
                self.grow
            };
            GameView { segments: crawled(self.segments, heading, bounds, grow), heading, ticks, grow }
        }
    }

    /// What `advance` reports for one call.
    pub open spec fn outcome(
        self,
        input: Option<Input>,
        did_tick: bool,
        bounds: Bounds,
    ) -> StepResult {
        if input == Some(Input::Quit) {
            StepResult::Quit
        } else if collides(self.advanced(input, did_tick, bounds).segments) {
            StepResult::Collided
        } else {
            StepResult::Moved
        }
    }
}

/// The worm: its cells, its heading, the ticks it has seen and whether it is
/// growing.
#[derive(Debug)]
pub struct GameState {
    segments: Vec<Segment>,
    heading: Direction,
    ticks: u64,
    grow: bool,
}

impl View for GameState {
    type V = GameView;

    closed spec fn view(&self) -> GameView {
        GameView {
            segments: self.segments@,
            heading: self.heading,
            ticks: self.ticks as nat,
            grow: self.grow,
        }
    }
}

impl Clone for GameState {
    /// A second worm with the same cells, heading, tick count and growth.
    fn clone(&self) -> (copy: GameState)
        ensures
            copy@ == self@,
    {
        let mut segments: Vec<Segment> = Vec::with_capacity(self.segments.len());
        let mut i: usize = 0;
        while i < self.segments.len()
            invariant
                i <= self.segments@.len(),
                segments@ == self.segments@.subrange(0, i as int),
            decreases self.segments@.len() - i,
        {
            segments.push(self.segments[i]);
            i += 1;
        }
        assert(segments@ =~= self.segments@);
        GameState { segments, heading: self.heading, ticks: self.ticks, grow: self.grow }
    }
}

impl Default for GameState {
    /// The same as [`GameState::new`].
    fn default() -> (state: GameState)
        ensures
            state.well_formed(),
            state@ == GameView::initial(),
    {
        GameState::new()
    }
}

impl StepResult {
    /// Whether the game is over after this step.
    pub fn ends_game(self) -> (over: bool)
        ensures
            over == !(self is Moved),
    {
        match self {
            StepResult::Moved => false,
            _ => true,
        }
    }
}

impl GameState {
    /// The invariant of the type; every constructor gives it and every
    /// method keeps it.
    pub open spec fn well_formed(&self) -> bool {
        self@.well_formed()
    }

    /// A worm at the start of a game.
    pub fn new() -> (state: GameState)
        ensures
            state.well_formed(),
            state@ == GameView::initial(),
    {
        let mut segments: Vec<Segment> = Vec::new();
        segments.push(Segment { x: 10, y: 10 });
        segments.push(Segment { x: 10, y: 11 });
        let state = GameState { segments, heading: Direction::Up, ticks: 0, grow: false };
        assert(state@.segments =~= GameView::initial().segments);
        state
    }

    /// A worm with the given cells, head first, and the given heading, before
    /// its first tick. There is no worm without cells: an empty `segments`
    /// gives `None`.
    pub fn with_segments(segments: Vec<Segment>, heading: Direction) -> (state: Option<GameState>)
        ensures
            state is Some <==> segments@.len() > 0,
            state matches Some(s) ==> s.well_formed() && s@ == (GameView {
                segments: segments@,
                heading,
                ticks: 0,
                grow: false,
            }),
    {
        if segments.len() == 0 {
            None
        } else {
            Some(GameState { segments, heading, ticks: 0, grow: false })
        }
    }

    /// The cells of the worm, head first.
    pub fn segments(&self) -> (cells: &Vec<Segment>)
        ensures
            cells@ == self@.segments,
    {
        &self.segments
    }

    /// The number of cells of the worm.
    pub fn len(&self) -> (n: usize)
        ensures
            n == self@.segments.len(),
    {
        self.segments.len()
    }

    /// The head of the worm.
    pub fn head(&self) -> (cell: Segment)
        requires
            self.well_formed(),
        ensures
            cell == self@.segments[0],
    {
        self.segments[0]
    }

    /// Where the head goes next.
    pub fn heading(&self) -> (direction: Direction)
        ensures
            direction == self@.heading,
    {
        self.heading
    }

    /// The number of ticks seen so far, which is the score.
    pub fn ticks(&self) -> (n: u64)
        ensures
            n == self@.ticks,
    {
        self.ticks
    }

    /// Whether the worm keeps its tail when it moves.
    pub fn grow(&self) -> (growing: bool)
        ensures
            growing == self@.grow,
    {
        self.grow
    }

    /// Whether the head lies on another cell of the worm.
    pub fn has_collided(&self) -> (hit: bool)
        requires
            self.well_formed(),
        ensures
            hit == collides(self@.segments),
    {
        let head = self.segments[0];
        let mut i: usize = 1;
        while i < self.segments.len()
            invariant
                1 <= i,
                self.segments@.len() > 0,
                head == self.segments@[0],
                forall|j: int| 1 <= j < i && j < self.segments@.len() ==> self.segments@[j] != head,
            decreases self.segments@.len() - i,
        {
            if self.segments[i] == head {
                return true;
            }
            i += 1;
        }
        false
    }

    /// Handles one event of the game and moves the worm.
    ///
    /// `input` is what the player asked for, if anything; `did_tick` says
    /// whether the timer fired; `bounds` is the viewport of the frame just
    /// drawn. Quitting leaves the worm as it is. Otherwise the heading follows
    /// a steering input (also one that reverses the worm), a tick is counted
    /// and makes the worm grow while the count is even, and the worm crawls one
    /// cell. The result says whether the new head has hit the body.
    ///
    /// The tick counter must have room for the tick.
    pub fn advance(&mut self, input: Option<Input>, did_tick: bool, bounds: Bounds) -> (result:
        StepResult)
        requires
            old(self).well_formed(),
            did_tick && input != Some(Input::Quit) ==> old(self)@.ticks < u64::MAX,
        ensures
            final(self).well_formed(),
            final(self)@ == old(self)@.advanced(input, did_tick, bounds),
            result == old(self)@.outcome(input, did_tick, bounds),
            input == Some(Input::Quit) ==> final(self)@ == old(self)@ && result is Quit,
            input != Some(Input::Quit) ==> ({
                &&& result !is Quit
                &&& final(self)@.heading == (match input {
                    Some(Input::Steer(direction)) => direction,
                    _ => old(self)@.heading,
                })
                &&& did_tick ==> final(self)@.ticks == old(self)@.ticks + 1
                &&& did_tick ==> (final(self)@.grow <==> final(self)@.ticks % 2 == 0)
                &&& !did_tick ==> final(self)@.ticks == old(self)@.ticks
                &&& !did_tick ==> final(self)@.grow == old(self)@.grow
                &&& final(self)@.grow ==> final(self)@.segments.len()
                    == old(self)@.segments.len() + 1
                &&& !final(self)@.grow ==> final(self)@.segments.len()
                    == old(self)@.segments.len()
                &&& final(self)@.segments[0] == old(self)@.segments[0].stepped(
                    final(self)@.heading,
                    bounds,
                )
                &&& forall|i: int|
                    1 <= i < final(self)@.segments.len() ==> #[trigger] final(self)@.segments[i]
                        == old(self)@.segments[i - 1]
                &&& result is Collided <==> exists|i: int|
                    1 <= i < final(self)@.segments.len() && #[trigger] final(self)@.segments[i]
                        == final(self)@.segments[0]
            }),
    {
        match input {
            Some(Input::Quit) => {
                return StepResult::Quit;
            },
            Some(Input::Steer(direction)) => {
                self.heading = direction;
            },
            None => {},
        }
        if did_tick {
            self.ticks = self.ticks + 1;
            self.grow = self.ticks % 2 == 0;
        }
        let head = self.segments[0].step(self.heading, bounds);
        self.segments.insert(0, head);
        if !self.grow {
            self.segments.pop();
        }
        proof {
            assert(self@.segments =~= crawled(old(self)@.segments, self@.heading, bounds, self@.grow));
        }
        if self.has_collided() {
            StepResult::Collided
        } else {
            StepResult::Moved
        }
    }
}

/// A move keeps the length of a worm that does not grow and adds one cell to
/// a worm that grows.
pub proof fn lemma_crawl_length(
    segments: Seq<Segment>,
    heading: Direction,
    bounds: Bounds,
    grow: bool,
)
    requires
        segments.len() > 0,
    ensures
        !grow ==> crawled(segments, heading, bounds, grow).len() == segments.len(),
        grow ==> crawled(segments, heading, bounds, grow).len() == segments.len() + 1,
{
}

/// A move puts the new head in front and shifts every cell that stays one
/// place towards the tail.
pub proof fn lemma_crawl_cells(
    segments: Seq<Segment>,
    heading: Direction,
    bounds: Bounds,
    grow: bool,
)
    requires
        segments.len() > 0,
    ensures
        crawled(segments, heading, bounds, grow)[0] == segments[0].stepped(heading, bounds),
        forall|i: int|
            1 <= i < crawled(segments, heading, bounds, grow).len() ==> #[trigger] crawled(
                segments,
                heading,
                bounds,
                grow,
            )[i] == segments[i - 1],
{
}

/// The head hits the body after a move exactly if the cell it steps onto is
/// one that the worm keeps: any of its cells if it grows, any but the tail if
/// it does not.
pub proof fn lemma_collision_iff_head_meets_body(
    segments: Seq<Segment>,
    heading: Direction,
    bounds: Bounds,
    grow: bool,
)
    requires
        segments.len() > 0,
    ensures
        collides(crawled(segments, heading, bounds, grow)) <==> exists|j: int|
            0 <= j < kept_cells(segments, grow) && #[trigger] segments[j] == segments[0].stepped(
                heading,
                bounds,
            ),
{
    let after = crawled(segments, heading, bounds, grow);
    let head = segments[0].stepped(heading, bounds);
    let kept = kept_cells(segments, grow);
    if collides(after) {
        let i = choose|i: int| 1 <= i < after.len() && #[trigger] after[i] == after[0];
        assert(segments[i - 1] == head);
    }
    if exists|j: int| 0 <= j < kept && #[trigger] segments[j] == head {
        let j = choose|j: int| 0 <= j < kept && #[trigger] segments[j] == head;
        assert(after[j + 1] == after[0]);
    }
}

/// Every state that `advance` leads to from a state of a game is a state of
/// a game again.
pub proof fn lemma_advance_keeps_well_formed(
    state: GameView,
    input: Option<Input>,
    did_tick: bool,
    bounds: Bounds,
)
    requires
        state.well_formed(),
    ensures
        state.advanced(input, did_tick, bounds).well_formed(),
{
}

/// After a step the worm is as long as before if it does not grow, and one
/// cell longer if it grows.
pub proof fn lemma_length_after_advance(
    state: GameView,
    input: Option<Input>,
    did_tick: bool,
    bounds: Bounds,
)
    requires
        state.well_formed(),
        input != Some(Input::Quit),
    ensures
        !state.advanced(input, did_tick, bounds).grow ==> state.advanced(
            input,
            did_tick,
            bounds,
        ).segments.len() == state.segments.len(),
        state.advanced(input, did_tick, bounds).grow ==> state.advanced(
            input,
            did_tick,
            bounds,
        ).segments.len() == state.segments.len() + 1,
{
}

/// A step that counts a tick makes the worm grow exactly if the count, the
/// new tick included, is even. No input changes that.
pub proof fn lemma_grow_follows_tick_parity(state: GameView, input: Option<Input>, bounds: Bounds)
    requires
        input != Some(Input::Quit),
    ensures
        state.advanced(input, true, bounds).ticks == state.ticks + 1,
        state.advanced(input, true, bounds).grow <==> state.advanced(input, true, bounds).ticks % 2
            == 0,
{
}

/// A step without a tick leaves the count and the growth as they were.
pub proof fn lemma_growth_waits_for_tick(state: GameView, input: Option<Input>, bounds: Bounds)
    ensures
        state.advanced(input, false, bounds).ticks == state.ticks,
        state.advanced(input, false, bounds).grow == state.grow,
{
}

/// Quitting changes nothing, whatever the state, the timer and the viewport.
pub proof fn lemma_quit_changes_nothing(state: GameView, did_tick: bool, bounds: Bounds)
    ensures
        state.advanced(Some(Input::Quit), did_tick, bounds) == state,
        state.outcome(Some(Input::Quit), did_tick, bounds) is Quit,
{
}

/// Growth comes with every other tick, whatever the player does: over two
/// ticks in a row the worm gets exactly one cell longer.
pub proof fn lemma_two_ticks_add_one_cell(
    state: GameView,
    first: Option<Input>,
    second: Option<Input>,
    bounds_first: Bounds,
    bounds_second: Bounds,
)
    requires
        state.segments.len() > 0,
        first != Some(Input::Quit),
        second != Some(Input::Quit),
    ensures
        state.advanced(first, true, bounds_first).grow != state.advanced(
            first,
            true,
            bounds_first,
        ).advanced(second, true, bounds_second).grow,
        state.advanced(first, true, bounds_first).advanced(
            second,
            true,
            bounds_second,
        ).segments.len() == state.segments.len() + 1,
{
}

/// On a viewport that keeps its size the worm never leaves it: if every cell
/// lies inside before a step, every cell lies inside after it.
pub proof fn lemma_worm_stays_inside(
    state: GameView,
    input: Option<Input>,
    did_tick: bool,
    bounds: Bounds,
)
    requires
        state.segments.len() > 0,
        inside(state.segments, bounds),
    ensures
        inside(state.advanced(input, did_tick, bounds).segments, bounds),
{
    let after = state.advanced(input, did_tick, bounds);
    if input != Some(Input::Quit) {
        lemma_step_stays_inside(state.segments[0], after.heading, bounds);
        assert forall|i: int| 0 <= i < after.segments.len() implies bounds.contains(
            #[trigger] after.segments[i],
        ) by {
            if i > 0 {
                assert(after.segments[i] == state.segments[i - 1]);
            }
        }
    }
}

/// A worm of two cells may turn anywhere. As long as it does not grow in that
/// step, its head ends on the body only if the step left the head where it
/// was, and on a viewport of at least two rows and two columns that does not
/// happen.
pub proof fn lemma_two_cell_worm_turns_safely(
    state: GameView,
    direction: Direction,
    did_tick: bool,
    bounds: Bounds,
)
    requires
        state.well_formed(),
        state.segments.len() == 2,
        !state.advanced(Some(Input::Steer(direction)), did_tick, bounds).grow,
    ensures
        state.outcome(Some(Input::Steer(direction)), did_tick, bounds) is Collided
            <==> state.segments[0].stepped(direction, bounds) == state.segments[0],
        bounds.width >= 2 && bounds.height >= 2 ==> state.outcome(
            Some(Input::Steer(direction)),
            did_tick,
            bounds,
        ) is Moved,
{
    let after = state.advanced(Some(Input::Steer(direction)), did_tick, bounds).segments;
    assert(after.len() == 2);
    assert(after[0] == state.segments[0].stepped(direction, bounds));
    assert(after[1] == state.segments[0]);
    if after[1] == after[0] {
        assert(collides(after));
    }
    if bounds.width >= 2 && bounds.height >= 2 {
        lemma_step_moves(state.segments[0], direction, bounds);
    }
}

/// Turning straight back does not by itself end the game. A worm of two
/// cells that is not growing survives the reversal on every viewport of at
/// least two rows and two columns: afterwards it consists of the new head and,
/// behind it, the old one.
pub proof fn lemma_two_cell_worm_may_reverse(state: GameView, bounds: Bounds)
    requires
        state.well_formed(),
        state.segments.len() == 2,
        !state.grow,
        bounds.width >= 2,
        bounds.height >= 2,
    ensures
        state.outcome(Some(Input::Steer(state.heading.opposite())), false, bounds) is Moved,
        state.advanced(Some(Input::Steer(state.heading.opposite())), false, bounds).segments
            == seq![
            state.segments[0].stepped(state.heading.opposite(), bounds),
            state.segments[0],
        ],
{
    lemma_two_cell_worm_turns_safely(state, state.heading.opposite(), false, bounds);
    assert(state.advanced(Some(Input::Steer(state.heading.opposite())), false, bounds).segments
        =~= seq![
        state.segments[0].stepped(state.heading.opposite(), bounds),
        state.segments[0],
    ]);
}

/// A reversal is not refused, and the collision check settles it: a worm
/// that steps back onto its second cell has hit itself, unless that cell is
/// the tail and leaves in the same step.
pub proof fn lemma_step_onto_neck_collides(
    state: GameView,
    direction: Direction,
    did_tick: bool,
    bounds: Bounds,
)
    requires
        state.well_formed(),
        state.segments.len() >= 2,
        state.segments[0].stepped(direction, bounds) == state.segments[1],
        state.segments.len() >= 3 || state.advanced(
            Some(Input::Steer(direction)),
            did_tick,
            bounds,
        ).grow,
    ensures
        state.outcome(Some(Input::Steer(direction)), did_tick, bounds) is Collided,
{
    let after = state.advanced(Some(Input::Steer(direction)), did_tick, bounds).segments;
    assert(after[2] == state.segments[1]);
    assert(after[2] == after[0]);
}

} // verus!
