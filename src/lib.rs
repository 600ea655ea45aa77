//! A proof-of-work mining engine: hash puzzles over blocks, a difficulty
//! controller, a simulated race between miners, and a hash-linked chain.

pub mod block;
pub mod chain;
pub mod competition;
pub mod digest;
pub mod laws;
mod sources;

pub use block::{Block, MiningStats};
pub use chain::{Blockchain, ChainStatistics, MiningMethod};
pub use competition::{BatchResult, CompetitionOutcome, RaceExhausted};
