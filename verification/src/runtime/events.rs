//! The typed events a record collects, one struct per kind of invocation.
//!
//! The three precompiles whose chips live in this crate define their events
//! next to the chip; every other kind is defined here.

use vstd::prelude::*;

use crate::runtime::memory::{MemoryReadRecord, MemoryRecordEnum, MemoryWriteRecord};
use crate::runtime::opcode::Opcode;
use crate::runtime::program::Instruction;

verus! {

/// One executed instruction.
#[derive(Clone, Copy, Debug)]
pub struct CpuEvent {
    pub shard: u32,
    pub clk: u32,
    pub pc: u32,
    pub next_pc: u32,
    pub instruction: Instruction,
    pub a: u32,
    pub a_record: Option<MemoryRecordEnum>,
    pub b: u32,
    pub b_record: Option<MemoryRecordEnum>,
    pub c: u32,
    pub c_record: Option<MemoryRecordEnum>,
    pub memory: Option<u32>,
    pub memory_record: Option<MemoryRecordEnum>,
    pub exit_code: u32,
}

/// One arithmetic or logic operation: `a = b (opcode) c`.
#[derive(Clone, Copy, Debug, PartialEq, Eq, Structural)]
pub struct AluEvent {
    pub shard: u32,
    pub clk: u32,
    pub opcode: Opcode,
    pub a: u32,
    pub b: u32,
    pub c: u32,
}

impl AluEvent {
    pub fn new(shard: u32, clk: u32, opcode: Opcode, a: u32, b: u32, c: u32) -> (r: Self)
        ensures
            r == (AluEvent { shard, clk, opcode, a, b, c }),
    {
        AluEvent { shard, clk, opcode, a, b, c }
    }
}

/// The first or the last state of one memory word over the whole execution.
#[derive(Clone, Copy, Debug, PartialEq, Eq, Structural)]
pub struct MemoryInitializeFinalizeEvent {
    pub addr: u32,
    pub value: u32,
    pub shard: u32,
    pub timestamp: u32,
    pub used: u32,
}

/// One SHA-256 message-schedule extension.
#[derive(Clone, Debug)]
pub struct ShaExtendEvent {
    pub shard: u32,
    pub clk: u32,
    pub w_ptr: u32,
    pub reads: Vec<MemoryReadRecord>,
    pub writes: Vec<MemoryWriteRecord>,
}

/// One SHA-256 compression.
#[derive(Clone, Debug)]
pub struct ShaCompressEvent {
    pub shard: u32,
    pub clk: u32,
    pub w_and_h_ptr: u32,
    pub w: Vec<u32>,
    pub h: Vec<u32>,
    pub reads: Vec<MemoryReadRecord>,
    pub writes: Vec<MemoryWriteRecord>,
}

/// One Keccak-f[1600] permutation.
#[derive(Clone, Debug)]
pub struct KeccakPermuteEvent {
    pub shard: u32,
    pub clk: u32,
    pub state_addr: u32,
    pub pre_state: Vec<u64>,
    pub post_state: Vec<u64>,
    pub reads: Vec<MemoryReadRecord>,
    pub writes: Vec<MemoryWriteRecord>,
}

/// One inner compression of Blake3.
#[derive(Clone, Debug)]
pub struct Blake3CompressInnerEvent {
    pub shard: u32,
    pub clk: u32,
    pub state_ptr: u32,
    pub message_ptr: u32,
    pub reads: Vec<MemoryReadRecord>,
    pub writes: Vec<MemoryWriteRecord>,
}

/// One addition of two curve points, `p = p + q`, on any of the curves.
#[derive(Clone, Debug)]
pub struct ECAddEvent {
    pub shard: u32,
    pub clk: u32,
    pub p_ptr: u32,
    pub p: Vec<u32>,
    pub q_ptr: u32,
    pub q: Vec<u32>,
    pub p_memory_records: Vec<MemoryWriteRecord>,
    pub q_memory_records: Vec<MemoryReadRecord>,
}

/// One doubling of a curve point, `p = 2p`, on any of the curves.
#[derive(Clone, Debug)]
pub struct ECDoubleEvent {
    pub shard: u32,
    pub clk: u32,
    pub p_ptr: u32,
    pub p: Vec<u32>,
    pub p_memory_records: Vec<MemoryWriteRecord>,
}

/// One addition in the base field, `p = p + q`.
#[derive(Clone, Debug)]
pub struct FieldAddEvent {
    pub shard: u32,
    pub clk: u32,
    pub p_ptr: u32,
    pub p: Vec<u32>,
    pub q_ptr: u32,
    pub q: Vec<u32>,
    pub p_memory_records: Vec<MemoryWriteRecord>,
    pub q_memory_records: Vec<MemoryReadRecord>,
}

/// One multiplication in the base field, `p = p * q`.
#[derive(Clone, Debug)]
pub struct FieldMulEvent {
    pub shard: u32,
    pub clk: u32,
    pub p_ptr: u32,
    pub p: Vec<u32>,
    pub q_ptr: u32,
    pub q: Vec<u32>,
    pub p_memory_records: Vec<MemoryWriteRecord>,
    pub q_memory_records: Vec<MemoryReadRecord>,
}

/// One addition in the quadratic extension field, `p = p + q`.
#[derive(Clone, Debug)]
pub struct QuadFieldAddEvent {
    pub shard: u32,
    pub clk: u32,
    pub p_ptr: u32,
    pub p: Vec<u32>,
    pub q_ptr: u32,
    pub q: Vec<u32>,
    pub p_memory_records: Vec<MemoryWriteRecord>,
    pub q_memory_records: Vec<MemoryReadRecord>,
}

/// One subtraction in the quadratic extension field, `p = p - q`.
#[derive(Clone, Debug)]
pub struct QuadFieldSubEvent {
    pub shard: u32,
    pub clk: u32,
    pub p_ptr: u32,
    pub p: Vec<u32>,
    pub q_ptr: u32,
    pub q: Vec<u32>,
    pub p_memory_records: Vec<MemoryWriteRecord>,
    pub q_memory_records: Vec<MemoryReadRecord>,
}

/// One multiplication in the quadratic extension field, `p = p * q`.
#[derive(Clone, Debug)]
pub struct QuadFieldMulEvent {
    pub shard: u32,
    pub clk: u32,
    pub p_ptr: u32,
    pub p: Vec<u32>,
    pub q_ptr: u32,
    pub q: Vec<u32>,
    pub p_memory_records: Vec<MemoryWriteRecord>,
    pub q_memory_records: Vec<MemoryReadRecord>,
}

/// One addition of two points of the twist of BLS12-381, `a = a + b`.
#[derive(Clone, Debug)]
pub struct Bls12381G2AffineAddEvent {
    pub shard: u32,
    pub clk: u32,
    pub a_ptr: u32,
    pub a: Vec<u32>,
    pub b_ptr: u32,
    pub b: Vec<u32>,
    pub a_memory_records: Vec<MemoryWriteRecord>,
    pub b_memory_records: Vec<MemoryReadRecord>,
}

/// One doubling of a point of the twist of BLS12-381, `p = 2p`.
#[derive(Clone, Debug)]
pub struct Bls12381G2AffineDoubleEvent {
    pub shard: u32,
    pub clk: u32,
    pub p_ptr: u32,
    pub p: Vec<u32>,
    pub p_memory_records: Vec<MemoryWriteRecord>,
}

} // verus!
