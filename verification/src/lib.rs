//! Core data model for a chess engine: square coordinates, bitboard
//! occupancy masks, the aggregate position (bitboards plus a redundant
//! square-indexed mailbox), the move-category taxonomy, and the operation
//! that transitions a position under a single move.

pub mod board;
pub mod movegen;
pub mod types;
