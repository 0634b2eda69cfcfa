use vstd::prelude::*;

verus! {

pub type Depth = i16;

pub type MoveTime = u64;

pub type MoveNumber = u64;

pub type MoveScore = i32;

pub type BoardHistory = u16;

/// A chess move: the squares are numbered 0 (a1) to 63 (h8), rank by rank; the promotion
/// piece is numbered as in [`crate::engine::position::Layout`], 1 (knight) to 4 (queen).
/// A castling move is written as the king moving onto its own rook.
#[derive(Clone, Copy, Debug, PartialEq, Eq, Structural)]
pub struct ChessMove {
    pub from: u8,
    pub to: u8,
    pub promotion: Option<u8>,
}

/// A chess move and its score including a capture flag.
#[derive(Clone, Copy, Debug)]
pub struct AnnotatedMove {
    pub mv: ChessMove,
    pub sc: MoveScore,
    pub cp: bool,
    pub node_count: u64,
}

} // verus!
