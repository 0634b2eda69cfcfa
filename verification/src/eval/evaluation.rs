use crate::engine::position::Position;
use crate::misc::types::MoveScore;
use vstd::prelude::*;

verus! {

/// A board evaluation
pub trait Evaluation {
    /// An evaluation function
    fn evaluate(b: &Position) -> MoveScore;
}

} // verus!
