//! Verifiable commitments to optimization results: a solution path and the
//! seed that drove its search are encoded canonically, hashed with
//! Keccak-256 and rendered as a `0x`-prefixed lowercase hex string.

pub mod canonical;
pub mod commitment;
pub mod hex;
pub mod pipeline;
pub mod services;
