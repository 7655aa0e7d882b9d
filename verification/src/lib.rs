//! A single-writer, append-only chain of blocks, sealed by proof of work.
//!
//! - `hash`: the fingerprint of a block's fields (SHA-256, in hexadecimal).
//! - `block`: blocks, and mining them.
//! - `blockchain`: the chain, the rules that make it valid, appending.
//! - `statistics`: what a chain reports about itself.
//! - `timestamp`: instants, as plain integers.
//! - `text`: decimal numerals and other text building blocks.
//! - `utils`: helpers for display.
//!
//! Contracts are stated over views: a `Block` is seen as a `BlockView`, a
//! `Blockchain` as a `BlockchainView`, with strings as sequences of
//! characters.

pub mod block;
pub mod blockchain;
pub mod hash;
pub mod statistics;
pub mod text;
pub mod timestamp;
pub mod utils;
