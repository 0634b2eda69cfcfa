/// Connector for UCI chess GUIs.
pub mod cli;

/// Some useful constants.
pub mod constants;

/// Time management: decide how much time will be spent for each move.
pub mod time_management;
