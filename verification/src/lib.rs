//! Terminal chess viewer core: board composition into styled character
//! lines, run-length compression of styled rows, coordinate move notation,
//! and the application state machine for standard games and puzzles.
pub mod codec;
pub mod compose;
pub mod compress;
pub mod engine;
pub mod glyph;
pub mod state;
pub mod style;
pub mod text;
