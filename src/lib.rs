//! Wire envelope exchanged between peers of a validator network, its
//! version-gated codec, the correlation rules for RPC and liveness probes,
//! and the on-chain block metadata records carried as payloads.

pub mod account;
pub mod block_metadata;
pub mod codec;
pub mod correlation;
pub mod message;
