//! A spatial tile grid and pairing engine for solitaire-style tile layouts.
//!
//! The crate models a discretized 3D board: cells are addressed by integer
//! lattice coordinates, a container tracks which cells hold a tile, and pure
//! predicates decide geometric legality (overlap), physical stability
//! (support) and reachability during play (blocking). A best-effort pairing
//! algorithm turns a finished layout into a list of matched position pairs
//! that a play layer can zip with tile identities.

pub mod arith;
pub mod clamped_value;
pub mod grid;
pub mod pairs;
pub mod rng;
pub mod solitaire;
pub mod tiles;
pub mod world;
