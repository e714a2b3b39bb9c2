//! Verified core of a granular shimmer reverb: the sample buffers' addressing,
//! the grain scheduler's integer state, the tempo-sync table and the jitter
//! random number generator. The floating-point signal path is built on top of
//! these pieces by the plugin crate.

pub mod capacity;
pub mod delay_line;
pub mod division;
pub mod ring_buffer;
pub mod rng;
pub mod grain_pool;
pub mod shimmer;
