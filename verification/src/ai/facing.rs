//! The four directions an actor can face.

use vstd::prelude::*;

verus! {

/// A cardinal facing direction.
#[derive(Clone, Copy, Debug, PartialEq, Eq, Structural)]
pub enum Facing {
    Left,
    Right,
    Up,
    Down,
}

impl Facing {
    /// The sprite-row index of this direction.
    pub fn index(&self) -> (r: usize)
        ensures
            *self == Facing::Left ==> r == 0,
            *self == Facing::Right ==> r == 1,
            *self == Facing::Up ==> r == 2,
            *self == Facing::Down ==> r == 3,
    {
        match self {
            Facing::Left => 0,
            Facing::Right => 1,
            Facing::Up => 2,
            Facing::Down => 3,
        }
    }
}

/// The facing a move implies, from the sign of the coordinate delta;
/// a motionless move keeps the fixed default.
pub open spec fn move_facing(from: (i32, i32), to: (i32, i32)) -> Facing {
    if from.0 < to.0 {
        Facing::Right
    } else if from.0 > to.0 {
        Facing::Left
    } else if from.1 < to.1 {
        Facing::Down
    } else if from.1 > to.1 {
        Facing::Up
    } else {
        Facing::Left
    }
}

} // verus!
