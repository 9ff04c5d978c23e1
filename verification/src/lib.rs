//! Two-player tic-tac-toe with its games kept in an ordered index.
//!
//! A game is created by an invitation that already carries the host's first
//! mark, is accepted or rejected by the invited opponent, and is then played
//! turn by turn until one side holds a line or the board is full. Every rule
//! of that lifecycle is stated as a specification function and every
//! executable function is proved against it.

pub mod board;
pub mod contract;
pub mod error;
pub mod execution;
pub mod game;
pub mod identity;
pub mod laws;
pub mod msg;
pub mod query;
pub mod response;
pub mod store;
