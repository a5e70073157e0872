//! Cells of the grid, headings, the viewport, and the step that wraps at its
//! edges.

use vstd::prelude::*;

verus! {

/// One cell of the grid, occupied by the head or the body of the worm.
///
/// `x` grows to the right and `y` grows upwards. Coordinates are whole
/// numbers: the worm starts on whole cells and only ever moves by one.
#[derive(Clone, Copy, Debug, PartialEq, Eq, Structural)]
pub struct Segment {
    pub x: i32,
    pub y: i32,
}

/// The four headings a worm can have.
#[derive(Clone, Copy, Debug, PartialEq, Eq, Structural)]
pub enum Direction {
    Up,
    Down,
    Left,
    Right,
}

/// Size of the drawing surface in cells. It is read afresh for every frame,
/// so it may differ from one step to the next.
#[derive(Clone, Copy, Debug, PartialEq, Eq, Structural)]
pub struct Bounds {
    pub width: u16,
    pub height: u16,
}

/// One step towards the high edge of an axis of length `limit`: a coordinate
/// below `limit - 1` goes up by one, any other goes to 0.
pub open spec fn step_forward(coord: int, limit: int) -> int {
    if coord < limit - 1 {
        coord + 1
    } else {
        0
    }
}

/// One step towards the low edge of an axis of length `limit`: a coordinate
/// of at least 1 goes down by one, any other goes to `limit - 1`.
pub open spec fn step_backward(coord: int, limit: int) -> int {
    if coord >= 1 {
        coord - 1
    } else {
        limit - 1
    }
}

impl Bounds {
    /// Whether `cell` lies inside the viewport.
    pub open spec fn contains(self, cell: Segment) -> bool {
        0 <= cell.x < self.width && 0 <= cell.y < self.height
    }
}

impl Direction {
    /// The heading that points the other way.
    pub open spec fn opposite(self) -> Direction {
        match self {
            Direction::Up => Direction::Down,
            Direction::Down => Direction::Up,
            Direction::Left => Direction::Right,
            Direction::Right => Direction::Left,
        }
    }
}

impl Segment {
    /// The cell one step from `self` in `heading`, on the torus of `bounds`.
    ///
    /// Whether the step wraps is decided by the coordinate it starts from, not
    /// by reducing the result: a cell that lies outside the viewport (after
    /// the terminal shrank) is brought back to an edge by its next step along
    /// that axis.
    pub open spec fn stepped(self, heading: Direction, bounds: Bounds) -> Segment {
        match heading {
            Direction::Up => Segment {
                x: self.x,
                y: step_forward(self.y as int, bounds.height as int) as i32,
            },
            Direction::Down => Segment {
                x: self.x,
                y: step_backward(self.y as int, bounds.height as int) as i32,
            },
            Direction::Left => Segment {
                x: step_backward(self.x as int, bounds.width as int) as i32,
                y: self.y,
            },
            Direction::Right => Segment {
                x: step_forward(self.x as int, bounds.width as int) as i32,
                y: self.y,
            },
        }
    }

    /// Makes the cell at `(x, y)`.
    pub fn new(x: i32, y: i32) -> (cell: Segment)
        ensures
            cell == (Segment { x, y }),
    {
        Segment { x, y }
    }

    /// Moves one cell in `heading`, wrapping at the edges of `bounds`.
    pub fn step(self, heading: Direction, bounds: Bounds) -> (next: Segment)
        ensures
            next == self.stepped(heading, bounds),
            next.x == (match heading {
                Direction::Left => step_backward(self.x as int, bounds.width as int),
                Direction::Right => step_forward(self.x as int, bounds.width as int),
                _ => self.x as int,
            }),
            next.y == (match heading {
                Direction::Up => step_forward(self.y as int, bounds.height as int),
                Direction::Down => step_backward(self.y as int, bounds.height as int),
                _ => self.y as int,
            }),
    {
        match heading {
            Direction::Up => Segment { x: self.x, y: forward(self.y, bounds.height) },
            Direction::Down => Segment { x: self.x, y: backward(self.y, bounds.height) },
            Direction::Left => Segment { x: backward(self.x, bounds.width), y: self.y },
            Direction::Right => Segment { x: forward(self.x, bounds.width), y: self.y },
        }
    }
}

fn forward(coord: i32, limit: u16) -> (next: i32)
    ensures
        next == step_forward(coord as int, limit as int),
{
    if coord < limit as i32 - 1 {
        coord + 1
    } else {
        0
    }
}

fn backward(coord: i32, limit: u16) -> (next: i32)
    ensures
        next == step_backward(coord as int, limit as int),
{
    if coord >= 1 {
        coord - 1
    } else {
        limit as i32 - 1
    }
}

/// A step never leaves the range of a coordinate, so `stepped` loses nothing
/// when it stores the result: it changes one coordinate by the rule of its
/// axis and keeps the other.
pub proof fn lemma_step_is_exact(cell: Segment, heading: Direction, bounds: Bounds)
    ensures
        cell.stepped(heading, bounds).x == (match heading {
            Direction::Left => step_backward(cell.x as int, bounds.width as int),
            Direction::Right => step_forward(cell.x as int, bounds.width as int),
            _ => cell.x as int,
        }),
        cell.stepped(heading, bounds).y == (match heading {
            Direction::Up => step_forward(cell.y as int, bounds.height as int),
            Direction::Down => step_backward(cell.y as int, bounds.height as int),
            _ => cell.y as int,
        }),
{
}

/// Wrapping at the edges. A head on the last column that moves right comes
/// out on column 0, and a head on column 0 that moves left comes out on the
/// last column; the same holds of rows with up and down.
pub proof fn lemma_wrap_at_edges(cell: Segment, bounds: Bounds)
    ensures
        cell.x == bounds.width - 1 ==> cell.stepped(Direction::Right, bounds) == (Segment {
            x: 0,
            y: cell.y,
        }),
        cell.x == 0 ==> cell.stepped(Direction::Left, bounds).x == bounds.width - 1
            && cell.stepped(Direction::Left, bounds).y == cell.y,
        cell.y == bounds.height - 1 ==> cell.stepped(Direction::Up, bounds) == (Segment {
            x: cell.x,
            y: 0,
        }),
        cell.y == 0 ==> cell.stepped(Direction::Down, bounds).y == bounds.height - 1
            && cell.stepped(Direction::Down, bounds).x == cell.x,
{
}

/// Away from the edges a step is plain: inside the viewport and not on the
/// edge it moves towards, a cell changes one coordinate by exactly one.
pub proof fn lemma_step_inside(cell: Segment, bounds: Bounds)
    ensures
        0 <= cell.x < bounds.width - 1 ==> cell.stepped(Direction::Right, bounds).x == cell.x + 1,
        1 <= cell.x < bounds.width ==> cell.stepped(Direction::Left, bounds).x == cell.x - 1,
        0 <= cell.y < bounds.height - 1 ==> cell.stepped(Direction::Up, bounds).y == cell.y + 1,
        1 <= cell.y < bounds.height ==> cell.stepped(Direction::Down, bounds).y == cell.y - 1,
{
}

/// A step keeps a cell inside the viewport, whatever the heading.
pub proof fn lemma_step_stays_inside(cell: Segment, heading: Direction, bounds: Bounds)
    requires
        bounds.contains(cell),
    ensures
        bounds.contains(cell.stepped(heading, bounds)),
{
}

/// On a viewport of at least two rows and two columns a step always leaves
/// the cell it starts from.
pub proof fn lemma_step_moves(cell: Segment, heading: Direction, bounds: Bounds)
    requires
        bounds.width >= 2,
        bounds.height >= 2,
    ensures
        cell.stepped(heading, bounds) != cell,
{
}

} // verus!
