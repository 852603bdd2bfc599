use vstd::prelude::*;

verus! {

/// A turn command, relative to the current heading.
#[allow(non_camel_case_types, clippy::upper_case_acronyms)]
#[derive(Debug, Clone, Copy, PartialEq, Eq, Structural)]
pub enum Action {
    FORWARD,
    LEFT,
    RIGHT,
}

/// An absolute heading on the grid; `UP` decreases `y`, `LEFT` decreases `x`.
#[allow(non_camel_case_types, clippy::upper_case_acronyms)]
#[derive(Debug, Clone, Copy, PartialEq, Eq, Structural)]
pub enum Direction {
    UP,
    DOWN,
    LEFT,
    RIGHT,
}

impl Direction {
    /// The heading after applying `action`: `LEFT` rotates counter-clockwise
    /// (UP, LEFT, DOWN, RIGHT, UP), `RIGHT` the other way, `FORWARD` keeps it.
    pub open spec fn turned(self, action: Action) -> Direction {
        match action {
            Action::FORWARD => self,
            Action::LEFT => match self {
                Direction::UP => Direction::LEFT,
                Direction::LEFT => Direction::DOWN,
                Direction::DOWN => Direction::RIGHT,
                Direction::RIGHT => Direction::UP,
            },
            Action::RIGHT => match self {
                Direction::UP => Direction::RIGHT,
                Direction::RIGHT => Direction::DOWN,
                Direction::DOWN => Direction::LEFT,
                Direction::LEFT => Direction::UP,
            },
        }
    }

    /// One step along this heading, as `(dx, dy)`.
    pub open spec fn delta(self) -> (int, int) {
        match self {
            Direction::UP => (0, -1),
            Direction::DOWN => (0, 1),
            Direction::LEFT => (-1, 0),
            Direction::RIGHT => (1, 0),
        }
    }
}

/// Resolves a relative command against the current heading.
pub fn turn(dir: Direction, action: Action) -> (r: Direction)
    ensures
        r == dir.turned(action),
        action == Action::FORWARD ==> r == dir,
{
    match action {
        Action::FORWARD => dir,
        Action::LEFT => match dir {
            Direction::UP => Direction::LEFT,
            Direction::LEFT => Direction::DOWN,
            Direction::DOWN => Direction::RIGHT,
            Direction::RIGHT => Direction::UP,
        },
        Action::RIGHT => match dir {
            Direction::UP => Direction::RIGHT,
            Direction::RIGHT => Direction::DOWN,
            Direction::DOWN => Direction::LEFT,
            Direction::LEFT => Direction::UP,
        },
    }
}

/// `FORWARD` leaves every heading as it is.
pub proof fn lemma_forward_is_identity(d: Direction)
    ensures
        d.turned(Action::FORWARD) == d,
{
}

/// Four left turns bring every heading back to where it started.
pub proof fn lemma_four_lefts(d: Direction)
    ensures
        d.turned(Action::LEFT).turned(Action::LEFT).turned(Action::LEFT).turned(Action::LEFT)
            == d,
{
}

/// Four right turns bring every heading back to where it started.
pub proof fn lemma_four_rights(d: Direction)
    ensures
        d.turned(Action::RIGHT).turned(Action::RIGHT).turned(Action::RIGHT).turned(
            Action::RIGHT,
        ) == d,
{
}

/// A left turn and a right turn undo each other, in either order.
pub proof fn lemma_left_right_inverse(d: Direction)
    ensures
        d.turned(Action::LEFT).turned(Action::RIGHT) == d,
        d.turned(Action::RIGHT).turned(Action::LEFT) == d,
{
}

} // verus!
