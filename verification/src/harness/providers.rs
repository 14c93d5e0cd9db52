//! Models that can be asked over the network.

pub mod anthropic;
pub mod laws;
pub mod wire;
