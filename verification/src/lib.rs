//! The execution record of a zero-knowledge virtual machine, the rule that
//! splits a record into shards, and three precompile chips that lay the
//! events of a shard out as traces: decompression of points of Ed25519,
//! decompression of points of secp256k1 and of the group G1 of BLS12-381, and
//! subtraction in the base field of BLS12-381.
//!
//! The cells of a trace are kept as `u32`; a caller embeds them into the
//! field of its proof system. What a chip asks of a row is given as a list of
//! constraints, which a caller tells to the builder of its prover.

pub mod air;
pub mod bytes;
pub mod memory;
pub mod operations;
pub mod runtime;
pub mod syscall;
pub mod utils;
