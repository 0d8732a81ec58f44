//! Keccak-256 digests, verified.
//!
//! The permutation module proves the Keccak-f[1600, 24] permutation against a
//! lane-level specification; the sponge module builds block-wise absorption,
//! multi-rate padding and squeezing on top of it and proves that every digest
//! equals a pure specification function of the absorbed bytes alone.

pub mod permutation;
pub mod sponge;

pub use permutation::keccakf;
pub use sponge::keccak256;
pub use sponge::Keccak;
