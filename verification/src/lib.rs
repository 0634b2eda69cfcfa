//! `C4-E5 Chess` is a chess engine core built on the move generator of crate Cozy Chess.
//!
//! These features are provided:
//! * Iterative deepening with parallel scoring of the root moves
//! * Late move pruning
//! * Principal variation search
//! * Transposition table and repetition history
//!
//! Every function carries a contract that is checked by Verus.

/// Time management for a UCI front end
pub mod cmd;

/// Chess engine
pub mod engine;

/// Static evaluation
pub mod eval;

/// Shared types and helpers
pub mod misc;
