//! Records of single-word memory accesses, as the interpreter's memory
//! subsystem hands them to the trace.

use vstd::prelude::*;

verus! {

/// One word read from memory. A read leaves the word as it was, so the value
/// before the access and after it are the same.
#[derive(Clone, Copy, Debug, PartialEq, Eq, Structural)]
pub struct MemoryReadRecord {
    pub shard: u32,
    pub clk: u32,
    pub addr: u32,
    pub value: u32,
}

/// One word written to memory, with the value it replaced.
#[derive(Clone, Copy, Debug, PartialEq, Eq, Structural)]
pub struct MemoryWriteRecord {
    pub shard: u32,
    pub clk: u32,
    pub addr: u32,
    pub prev_value: u32,
    pub value: u32,
}

/// A memory access of either direction.
#[derive(Clone, Copy, Debug, PartialEq, Eq, Structural)]
pub enum MemoryRecordEnum {
    Read(MemoryReadRecord),
    Write(MemoryWriteRecord),
}

impl MemoryReadRecord {
    pub fn new(shard: u32, clk: u32, addr: u32, value: u32) -> (r: Self)
        ensures
            r == (MemoryReadRecord { shard, clk, addr, value }),
    {
        MemoryReadRecord { shard, clk, addr, value }
    }

    /// The value the word held before the access: for a read, the value read.
    pub fn prev_value(&self) -> (r: u32)
        ensures
            r == self.value,
    {
        self.value
    }
}

impl MemoryWriteRecord {
    pub fn new(shard: u32, clk: u32, addr: u32, prev_value: u32, value: u32) -> (r: Self)
        ensures
            r == (MemoryWriteRecord { shard, clk, addr, prev_value, value }),
    {
        MemoryWriteRecord { shard, clk, addr, prev_value, value }
    }
}

impl MemoryRecordEnum {
    pub open spec fn spec_shard(self) -> u32 {
        match self {
            MemoryRecordEnum::Read(r) => r.shard,
            MemoryRecordEnum::Write(w) => w.shard,
        }
    }

    pub open spec fn spec_value(self) -> u32 {
        match self {
            MemoryRecordEnum::Read(r) => r.value,
            MemoryRecordEnum::Write(w) => w.value,
        }
    }

    pub open spec fn spec_prev_value(self) -> u32 {
        match self {
            MemoryRecordEnum::Read(r) => r.value,
            MemoryRecordEnum::Write(w) => w.prev_value,
        }
    }

    /// The shard in which the access happened.
    pub fn shard(&self) -> (r: u32)
        ensures
            r == self.spec_shard(),
    {
        match self {
            MemoryRecordEnum::Read(r) => r.shard,
            MemoryRecordEnum::Write(w) => w.shard,
        }
    }

    /// The value the word holds after the access.
    pub fn value(&self) -> (r: u32)
        ensures
            r == self.spec_value(),
    {
        match self {
            MemoryRecordEnum::Read(r) => r.value,
            MemoryRecordEnum::Write(w) => w.value,
        }
    }

    /// The value the word held before the access.
    pub fn prev_value(&self) -> (r: u32)
        ensures
            r == self.spec_prev_value(),
    {
        match self {
            MemoryRecordEnum::Read(r) => r.value,
            MemoryRecordEnum::Write(w) => w.prev_value,
        }
    }
}

/// Every read in `reads` happened in `shard`.
pub open spec fn reads_in_shard(reads: Seq<MemoryReadRecord>, shard: u32) -> bool {
    forall|i: int| 0 <= i < reads.len() ==> (#[trigger] reads[i]).shard == shard
}

/// Every write in `writes` happened in `shard`.
pub open spec fn writes_in_shard(writes: Seq<MemoryWriteRecord>, shard: u32) -> bool {
    forall|i: int| 0 <= i < writes.len() ==> (#[trigger] writes[i]).shard == shard
}

} // verus!
