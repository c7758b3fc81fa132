//! Fetch/decode core of a software CPU emulator.
//!
//! The crate turns a stream of raw bytes living in an emulated, paged address
//! space into structured instruction values, and caches those decoded values
//! so that repeated fetches of the same code avoid redundant decode work.
//!
//! The pieces, leaf first:
//! - [`num`]: the four power-of-two width quantizations and quantized numbers;
//! - [`memory`]: a paged memory model with address translation and
//!   bounds/alignment enforcement;
//! - [`stream`]: the byte-source capability the decoders pull from;
//! - [`operand`], [`operation`], [`instruction`]: the bit-packed instruction
//!   codec, with its round-trip laws between decode and encode;
//! - [`cache`]: the decode cache, keyed by address, with a recency-weighted
//!   lifetime eviction policy and bulk population driven by the codec;
//! - [`parser`]: a fixed-field instruction parser over the same byte sources;
//! - [`processor`]: the execution-context data an execution unit keeps.

pub mod cache;
pub mod instruction;
pub mod memory;
pub mod num;
pub mod operand;
pub mod operation;
pub mod parser;
pub mod processor;
pub mod stream;
