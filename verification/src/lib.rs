//! A chess move-generation core built around magic bitboards: 64-bit square
//! sets, a deterministic xorshift generator, a ray-casting sliding-attack
//! oracle, and the search that packs per-square attack tables behind
//! multiplicative hashes.

use vstd::prelude::*;

pub mod bits;
pub mod magic;
pub mod movegen;
pub mod pregen;
pub mod types;
pub mod util;

verus! {

/// The standard chess starting position, in FEN piece-placement notation.
pub const BOARD_START_FEN: &'static str =
    "rnbqkbnr/pppppppp/8/8/8/8/PPPPPPPP/RNBQKBNR w KQkq - 0 1";

} // verus!
