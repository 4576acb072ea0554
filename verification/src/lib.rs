//! Oblivious pseudorandom functions over prime-order groups, with the
//! verifiable extension (discrete-log-equality proofs, single and batched).
//!
//! Group elements and scalars are held as their canonical byte encodings; what
//! the curve arithmetic, the hash functions and the random source compute is
//! reached through small trusted functions whose contracts name their results.

pub mod errors;
pub mod oprf;
pub mod utils;
