//! A finite-automaton lexer engine: a table of states joined by
//! character-range transitions, and a walker that moves across the table one
//! character at a time.
pub mod error;
pub mod state;
pub mod transition;
