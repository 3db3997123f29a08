//! The columns of a row that witness one memory access, word by word.

use vstd::prelude::*;

use crate::air::public_values::{word_byte, word_bytes};
use crate::bytes::{ByteLookupEvent, BYTE_OP_U8_RANGE};
use crate::runtime::memory::{MemoryReadRecord, MemoryWriteRecord};

verus! {

/// Number of columns of one read: the four bytes of the word.
pub const MEMORY_READ_COLS: usize = 4;

/// Number of columns of one write: the four bytes of the word before, and
/// the four bytes of the word after.
pub const MEMORY_WRITE_COLS: usize = 8;

/// The columns of one read.
pub open spec fn read_cols(record: MemoryReadRecord) -> Seq<u32> {
    word_bytes(record.value)
}

/// The columns of one write.
pub open spec fn write_cols(record: MemoryWriteRecord) -> Seq<u32> {
    word_bytes(record.prev_value) + word_bytes(record.value)
}

/// The lookups that check the four bytes of `word` to be bytes.
pub open spec fn word_lookups(shard: u32, word: u32) -> Seq<ByteLookupEvent> {
    seq![
        ByteLookupEvent {
            shard,
            opcode: BYTE_OP_U8_RANGE,
            b1: word_byte(word, 0) as u8,
            b2: word_byte(word, 1) as u8,
            c1: 0,
            c2: 0,
        },
        ByteLookupEvent {
            shard,
            opcode: BYTE_OP_U8_RANGE,
            b1: word_byte(word, 2) as u8,
            b2: word_byte(word, 3) as u8,
            c1: 0,
            c2: 0,
        },
    ]
}

/// The columns of the reads, one read after the other.
pub open spec fn reads_cols(records: Seq<MemoryReadRecord>) -> Seq<u32>
    decreases records.len(),
{
    if records.len() == 0 {
        Seq::empty()
    } else {
        reads_cols(records.drop_last()) + read_cols(records.last())
    }
}

/// The columns of the writes, one write after the other.
pub open spec fn writes_cols(records: Seq<MemoryWriteRecord>) -> Seq<u32>
    decreases records.len(),
{
    if records.len() == 0 {
        Seq::empty()
    } else {
        writes_cols(records.drop_last()) + write_cols(records.last())
    }
}

/// The lookups of the reads, one read after the other.
pub open spec fn reads_lookups(records: Seq<MemoryReadRecord>) -> Seq<ByteLookupEvent>
    decreases records.len(),
{
    if records.len() == 0 {
        Seq::empty()
    } else {
        reads_lookups(records.drop_last()) + word_lookups(
            records.last().shard,
            records.last().value,
        )
    }
}

/// The lookups of the writes, one write after the other.
pub open spec fn writes_lookups(records: Seq<MemoryWriteRecord>) -> Seq<ByteLookupEvent>
    decreases records.len(),
{
    if records.len() == 0 {
        Seq::empty()
    } else {
        writes_lookups(records.drop_last()) + word_lookups(
            records.last().shard,
            records.last().value,
        )
    }
}

/// How many columns and lookups a number of accesses takes.
pub proof fn lemma_access_lens(reads: Seq<MemoryReadRecord>, writes: Seq<MemoryWriteRecord>)
    ensures
        reads_cols(reads).len() == 4 * reads.len(),
        reads_lookups(reads).len() == 2 * reads.len(),
        writes_cols(writes).len() == 8 * writes.len(),
        writes_lookups(writes).len() == 2 * writes.len(),
    decreases reads.len() + writes.len(),
{
    if reads.len() > 0 {
        lemma_access_lens(reads.drop_last(), writes);
    } else if writes.len() > 0 {
        lemma_access_lens(reads, writes.drop_last());
    }
}

/// Appends the four bytes of `word` as columns.
fn push_word_cols(row: &mut Vec<u32>, word: u32)
    ensures
        final(row)@ == old(row)@ + word_bytes(word),
{
    row.push(word % 256);
    row.push((word / 256) % 256);
    row.push((word / 65536) % 256);
    row.push((word / 16777216) % 256);
    assert(row@ =~= old(row)@ + word_bytes(word));
}

/// Appends the lookups that check the bytes of `word`.
fn push_word_lookups(lookups: &mut Vec<ByteLookupEvent>, shard: u32, word: u32)
    ensures
        final(lookups)@ == old(lookups)@ + word_lookups(shard, word),
{
    lookups.push(
        ByteLookupEvent::new(
            shard,
            BYTE_OP_U8_RANGE,
            (word % 256) as u8,
            ((word / 256) % 256) as u8,
            0,
            0,
        ),
    );
    lookups.push(
        ByteLookupEvent::new(
            shard,
            BYTE_OP_U8_RANGE,
            ((word / 65536) % 256) as u8,
            ((word / 16777216) % 256) as u8,
            0,
            0,
        ),
    );
    assert(lookups@ =~= old(lookups)@ + word_lookups(shard, word));
}

/// Appends the columns of the reads and the lookups that go with them.
pub fn populate_reads(
    row: &mut Vec<u32>,
    lookups: &mut Vec<ByteLookupEvent>,
    records: &Vec<MemoryReadRecord>,
)
    ensures
        final(row)@ == old(row)@ + reads_cols(records@),
        final(lookups)@ == old(lookups)@ + reads_lookups(records@),
{
    let mut i: usize = 0;
    assert(records@.subrange(0, 0) =~= Seq::<MemoryReadRecord>::empty());
    assert(row@ =~= old(row)@ + reads_cols(records@.subrange(0, 0)));
    assert(lookups@ =~= old(lookups)@ + reads_lookups(records@.subrange(0, 0)));
    while i < records.len()
        invariant
            0 <= i <= records@.len(),
            row@ == old(row)@ + reads_cols(records@.subrange(0, i as int)),
            lookups@ == old(lookups)@ + reads_lookups(records@.subrange(0, i as int)),
        decreases records@.len() - i,
    {
        let record = records[i];
        push_word_cols(row, record.value);
        push_word_lookups(lookups, record.shard, record.value);
        i = i + 1;
        proof {
            let done = records@.subrange(0, i as int);
            assert(done.drop_last() =~= records@.subrange(0, i - 1));
            assert(done.last() == record);
            assert(row@ =~= old(row)@ + reads_cols(done));
            assert(lookups@ =~= old(lookups)@ + reads_lookups(done));
        }
    }
    assert(records@.subrange(0, i as int) =~= records@);
}

/// Appends the columns of the writes and the lookups that go with them.
pub fn populate_writes(
    row: &mut Vec<u32>,
    lookups: &mut Vec<ByteLookupEvent>,
    records: &Vec<MemoryWriteRecord>,
)
    ensures
        final(row)@ == old(row)@ + writes_cols(records@),
        final(lookups)@ == old(lookups)@ + writes_lookups(records@),
{
    let mut i: usize = 0;
    assert(records@.subrange(0, 0) =~= Seq::<MemoryWriteRecord>::empty());
    assert(row@ =~= old(row)@ + writes_cols(records@.subrange(0, 0)));
    assert(lookups@ =~= old(lookups)@ + writes_lookups(records@.subrange(0, 0)));
    while i < records.len()
        invariant
            0 <= i <= records@.len(),
            row@ == old(row)@ + writes_cols(records@.subrange(0, i as int)),
            lookups@ == old(lookups)@ + writes_lookups(records@.subrange(0, i as int)),
        decreases records@.len() - i,
    {
        let record = records[i];
        push_word_cols(row, record.prev_value);
        push_word_cols(row, record.value);
        push_word_lookups(lookups, record.shard, record.value);
        i = i + 1;
        proof {
            let done = records@.subrange(0, i as int);
            assert(done.drop_last() =~= records@.subrange(0, i - 1));
            assert(done.last() == record);
            assert(row@ =~= old(row)@ + writes_cols(done));
            assert(lookups@ =~= old(lookups)@ + writes_lookups(done));
        }
    }
    assert(records@.subrange(0, i as int) =~= records@);
}


/// The words that the reads read.
pub open spec fn read_values(records: Seq<MemoryReadRecord>) -> Seq<u32> {
    Seq::new(records.len(), |i: int| records[i].value)
}

/// The words that the writes wrote.
pub open spec fn written_values(records: Seq<MemoryWriteRecord>) -> Seq<u32> {
    Seq::new(records.len(), |i: int| records[i].value)
}

/// The words that the writes replaced.
pub open spec fn replaced_values(records: Seq<MemoryWriteRecord>) -> Seq<u32> {
    Seq::new(records.len(), |i: int| records[i].prev_value)
}

/// Where the bytes of the word of each read stand among the columns of the
/// reads.
pub proof fn lemma_reads_cols_index(records: Seq<MemoryReadRecord>, k: int, j: int)
    requires
        0 <= k < records.len(),
        0 <= j < 4,
    ensures
        reads_cols(records).len() == 4 * records.len(),
        reads_cols(records)[4 * k + j] == word_byte(records[k].value, j),
    decreases records.len(),
{
    lemma_access_lens(records, Seq::empty());
    lemma_access_lens(records.drop_last(), Seq::empty());
    if k < records.len() - 1 {
        lemma_reads_cols_index(records.drop_last(), k, j);
    }
}

/// Where the bytes of the two words of each write stand among the columns of
/// the writes.
pub proof fn lemma_writes_cols_index(records: Seq<MemoryWriteRecord>, k: int, j: int)
    requires
        0 <= k < records.len(),
        0 <= j < 4,
    ensures
        writes_cols(records).len() == 8 * records.len(),
        writes_cols(records)[8 * k + j] == word_byte(records[k].prev_value, j),
        writes_cols(records)[8 * k + 4 + j] == word_byte(records[k].value, j),
    decreases records.len(),
{
    lemma_access_lens(Seq::empty(), records);
    lemma_access_lens(Seq::empty(), records.drop_last());
    if k < records.len() - 1 {
        lemma_writes_cols_index(records.drop_last(), k, j);
    }
}

} // verus!
