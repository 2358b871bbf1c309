use vstd::prelude::*;

verus! {

/// The side a team or a unit belongs to.
#[derive(Clone, Copy, Debug, PartialEq, Eq, Hash, Structural)]
pub enum Faction {
    Left,
    Right,
    Team,
    Shop,
}

} // verus!
