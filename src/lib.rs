//! A chess rule engine with an alpha-beta search, verified with Verus.
pub mod piece;
pub mod board;
pub mod moves;
pub mod rules;
pub mod eval;
pub mod structure;
pub mod mobility;
pub mod search;
pub mod zobrist;
pub mod tt;
pub mod laws;
