//! The memory accesses of a precompile that reads one half of a slot of
//! words and writes the other half.

use vstd::prelude::*;

use crate::memory::columns::{read_values, replaced_values, written_values};
use crate::runtime::memory::{reads_in_shard, writes_in_shard, MemoryReadRecord, MemoryWriteRecord};

verus! {

/// The address of word `i` from `ptr` on.
pub open spec fn word_addr(ptr: u32, i: int) -> u32 {
    (ptr + 4 * i) as u32
}

/// The records of reading `read` from the upper half of the slot at `ptr`
/// and writing `written` over `prev` in the lower half, all at the time `clk`
/// in `shard`.
pub fn slot_records(
    shard: u32,
    clk: u32,
    ptr: u32,
    read: &Vec<u32>,
    prev: &Vec<u32>,
    written: &Vec<u32>,
) -> (r: (Vec<MemoryReadRecord>, Vec<MemoryWriteRecord>))
    requires
        read@.len() == prev@.len(),
        read@.len() == written@.len(),
        ptr + 8 * read@.len() <= u32::MAX,
    ensures
        r.0@.len() == read@.len(),
        r.1@.len() == read@.len(),
        forall|i: int|
            0 <= i < read@.len() ==> #[trigger] r.0@[i] == (MemoryReadRecord {
                shard,
                clk,
                addr: word_addr(ptr, i + read@.len()),
                value: read@[i],
            }),
        forall|i: int|
            0 <= i < read@.len() ==> #[trigger] r.1@[i] == (MemoryWriteRecord {
                shard,
                clk,
                addr: word_addr(ptr, i),
                prev_value: prev@[i],
                value: written@[i],
            }),
        reads_in_shard(r.0@, shard),
        writes_in_shard(r.1@, shard),
        read_values(r.0@) == read@,
        replaced_values(r.1@) == prev@,
        written_values(r.1@) == written@,
{
    let words = read.len();
    let mut reads: Vec<MemoryReadRecord> = Vec::new();
    let mut writes: Vec<MemoryWriteRecord> = Vec::new();
    let mut i: usize = 0;
    while i < words
        invariant
            0 <= i <= words,
            words == read@.len(),
            words == prev@.len(),
            words == written@.len(),
            ptr + 8 * words <= u32::MAX,
            reads@.len() == i,
            writes@.len() == i,
            forall|k: int|
                0 <= k < i ==> #[trigger] reads@[k] == (MemoryReadRecord {
                    shard,
                    clk,
                    addr: word_addr(ptr, k + words),
                    value: read@[k],
                }),
            forall|k: int|
                0 <= k < i ==> #[trigger] writes@[k] == (MemoryWriteRecord {
                    shard,
                    clk,
                    addr: word_addr(ptr, k),
                    prev_value: prev@[k],
                    value: written@[k],
                }),
        decreases words - i,
    {
        let offset = (4 * i) as u32;
        let upper = (4 * words) as u32;
        reads.push(MemoryReadRecord::new(shard, clk, ptr + upper + offset, read[i]));
        writes.push(MemoryWriteRecord::new(shard, clk, ptr + offset, prev[i], written[i]));
        i = i + 1;
    }
    proof {
        assert(read_values(reads@) =~= read@);
        assert(replaced_values(writes@) =~= prev@);
        assert(written_values(writes@) =~= written@);
    }
    (reads, writes)
}

} // verus!
