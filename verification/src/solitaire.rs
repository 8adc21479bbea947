//! The solitaire board: its grid of tile positions and the play rules.

pub mod grid;
pub mod play;
