/// Some useful constants
pub mod constants;

/// Basis for evaluation functions
pub mod evaluation;

/// Collection of helpers
pub mod helpers;

/// A simple evaluation function
pub mod simple;
