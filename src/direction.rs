use vstd::prelude::*;
use crate::text::char_string;

verus! {

/// A heading on the grid. Rows grow to the south, columns to the east.
#[derive(Clone, Copy, Debug, PartialEq, Eq, Structural)]
pub enum Direction {
    North,
    South,
    East,
    West,
    StayPut,
}

/// Row offset of one step in direction `d`.
pub open spec fn row_delta(d: Direction) -> int {
    match d {
        Direction::North => -1,
        Direction::South => 1,
        _ => 0,
    }
}

/// Column offset of one step in direction `d`.
pub open spec fn col_delta(d: Direction) -> int {
    match d {
        Direction::East => 1,
        Direction::West => -1,
        _ => 0,
    }
}

/// The cell one step from `p` in direction `d`, as unbounded coordinates.
pub open spec fn step(d: Direction, p: (int, int)) -> (int, int) {
    (p.0 + row_delta(d), p.1 + col_delta(d))
}

/// Whether a step from `p` in direction `d` stays at non-negative
/// coordinates that fit in `usize`.
pub open spec fn can_go(d: Direction, p: (usize, usize)) -> bool {
    let q = step(d, (p.0 as int, p.1 as int));
    0 <= q.0 <= usize::MAX && 0 <= q.1 <= usize::MAX
}

pub open spec fn opposite(d: Direction) -> Direction {
    match d {
        Direction::North => Direction::South,
        Direction::South => Direction::North,
        Direction::East => Direction::West,
        Direction::West => Direction::East,
        Direction::StayPut => Direction::StayPut,
    }
}

/// The direction that a map code character names, if any.
pub open spec fn direction_of_code(c: char) -> Option<Direction> {
    if c == 'N' {
        Some(Direction::North)
    } else if c == 'S' {
        Some(Direction::South)
    } else if c == 'E' {
        Some(Direction::East)
    } else if c == 'W' {
        Some(Direction::West)
    } else if c == 'X' {
        Some(Direction::StayPut)
    } else {
        None
    }
}

impl Direction {
    /// The position one step from `position` in this direction.
    pub fn go(self, position: (usize, usize)) -> (r: (usize, usize))
        requires
            can_go(self, position),
        ensures
            (r.0 as int, r.1 as int) == step(self, (position.0 as int, position.1 as int)),
    {
        match self {
            Direction::North => (position.0 - 1, position.1),
            Direction::South => (position.0 + 1, position.1),
            Direction::East => (position.0, position.1 + 1),
            Direction::West => (position.0, position.1 - 1),
            Direction::StayPut => (position.0, position.1),
        }
    }

    /// The direction that points the other way.
    pub fn get_opposite_dir(self) -> (r: Self)
        ensures
            r == opposite(self),
            opposite(r) == self,
    {
        match self {
            Direction::North => Direction::South,
            Direction::South => Direction::North,
            Direction::East => Direction::West,
            Direction::West => Direction::East,
            Direction::StayPut => Direction::StayPut,
        }
    }

    /// Reads a direction code of the map format: `N`, `S`, `E`, `W` or `X`.
    pub fn parse(dir: &char) -> (r: Result<Self, String>)
        ensures
            match direction_of_code(*dir) {
                Some(d) => r matches Ok(x) && x == d,
                None => r matches Err(e) && e@ == "Invalid direction: "@ + seq![*dir],
            },
    {
        match *dir {
            'N' => Ok(Direction::North),
            'S' => Ok(Direction::South),
            'E' => Ok(Direction::East),
            'W' => Ok(Direction::West),
            'X' => Ok(Direction::StayPut),
            _ => Err(String::from_str("Invalid direction: ").concat(char_string(*dir).as_str())),
        }
    }
}

/// Turning around twice gives back the direction one started with.
pub proof fn lemma_opposite_involutive(d: Direction)
    ensures
        opposite(opposite(d)) == d,
{
}

} // verus!
