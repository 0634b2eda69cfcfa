/// Some useful constants
pub mod constants;

/// Position history counter
pub mod history;

/// A position and what the rules of chess say of it
pub mod position;

/// Transposition table
pub mod store;

/// Move generator
pub mod move_gen;

/// Time limit of a search
pub mod timer;

/// Principal variant search
pub mod pvs;

/// A chess game
pub mod game;
