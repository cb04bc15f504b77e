//! On-chain coordinator for a mental-poker deck: BabyJubJub field and curve
//! arithmetic, the shuffled deck and its public inputs, and the game state
//! machine.
pub mod uint;
pub mod bitmaps;
pub mod error;
pub mod types;
pub mod curve;
pub mod deck;
pub mod state;
pub mod msg;
pub mod contract;
