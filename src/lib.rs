//! Building blocks of a programmable bootstrap over 64-bit words: uniform views over
//! contiguous buffers and their splitting into equal chunks (sequential or parallel),
//! the lookup-table accumulator, LWE keys and ciphertexts, and the decoder.

pub mod accumulator;
pub mod aligned;
pub mod chunks;
pub mod container;
pub mod decoder;
pub mod lwe;
pub mod par_split;
pub mod split;
