//! Account-abstraction paymaster indexer: the verified core.
//!
//! The library fuses paymaster and EntryPoint logs into user-operation
//! facts, merges partial policy data into usage-counter updates, decides
//! how a fact is upserted next to an existing row, and chooses the block
//! window of each polling pass. Everything that talks to a network, a
//! database or a cache lives outside and hands plain values in.

pub mod text;
pub mod status;
pub mod numeric;
pub mod config;
pub mod listener;
pub mod decoder;
pub mod paymaster;
pub mod json;
pub mod policy;
pub mod message;
pub mod processor;
pub mod storage;
pub mod consumer;
pub mod cache;
pub mod laws;
