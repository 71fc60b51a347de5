//! A solver's aid for five-letter word puzzles.
//!
//! A fixed word list is narrowed by three kinds of constraint: a letter
//! required at a position, letters that must occur, and letters that must
//! not occur. Every function here is verified against its contract.

pub mod letters;
pub mod lines;
pub mod constraints;
pub mod corpus;
pub mod app;
