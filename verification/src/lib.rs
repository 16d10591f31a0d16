//! A rules engine for the board game Go, built on a small Boolean linear
//! algebra over arbitrary index sets.

pub mod board;
pub mod bool_mat;
pub mod bool_vec;
pub mod field;
pub mod game;
pub mod gtp;
pub mod indexer;
