use vstd::prelude::*;

verus! {

/// Identifier of a person; unique and monotonically assigned for a run.
#[derive(Copy, Clone, Debug, PartialEq, Eq, Hash, Structural)]
pub struct PersonId(pub u32);

/// Identifier of an elevator car; unique and stable for a run.
#[derive(Copy, Clone, Debug, PartialEq, Eq, Hash, Structural)]
pub struct CarId(pub u32);

/// Direction requested by a hall button.
#[derive(Copy, Clone, Debug, PartialEq, Eq, Hash, Structural)]
pub enum Direction {
    Up,
    Down,
}

/// A floor index; floors of a building are numbered 0 up to its floor count.
pub type Floor = u32;

} // verus!
