use vstd::prelude::*;

pub mod packed_team;
pub mod ladder;
pub mod status_library;
pub mod expression;
pub mod evaluate;
pub mod expression_text;

use ladder::Ladder;
use status_library::{Definitions, StatusLibrary};

verus! {

/// The game's shared state that the rules read and change.
#[derive(Debug)]
pub struct Resources {
    pub ladder: Ladder,
    pub status_library: StatusLibrary,
    pub definitions: Definitions,
}

} // verus!
