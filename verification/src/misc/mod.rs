/// Population count and board mirroring on bitboards
pub mod bits;

/// Helpers
pub mod helpers;

/// Words and numbers in a text
pub mod text;

/// Shared types
pub mod types;
