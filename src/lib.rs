//! An escrow-backed loan agreement engine: collateral items, loan contracts,
//! their binary record layouts, and the four state transitions between them.

pub mod address;
pub mod error;
pub mod instruction;
pub mod processor;
pub mod state;
mod wire;
