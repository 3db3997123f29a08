//! Subtraction in a prime field, `p = p - q`: the event, and the chip that
//! lays the events of a shard out as a trace.

use p3_matrix::dense::RowMajorMatrix;
use vstd::prelude::*;

use crate::air::constraints::{
    constraint_holds, constraints_hold, lemma_cols_value_zero, lemma_limb_cols_value,
    lemma_read_operand, lemma_write_operands, operand_cols, operand_value, receives_one_syscall,
    Constraint, Gate, Operand, SyscallCode, IS_REAL_COL,
};
use crate::bytes::{counts_positive, record_lookups, ByteLookupEvent};
use crate::memory::columns::{
    lemma_access_lens, populate_reads, populate_writes, read_values, reads_cols, reads_lookups,
    replaced_values, writes_cols, writes_lookups, written_values,
};
use crate::operations::field::field_op::{
    field_op, field_op_value, limb_cols, populate_field_op, range_lookups, FieldOperation,
};
use crate::operations::field::params::{small_biguint, FieldType};
use crate::runtime::bulk::{has_room, keys_of};
use crate::runtime::memory::{reads_in_shard, writes_in_shard, MemoryReadRecord, MemoryWriteRecord};
use crate::runtime::record::ExecutionRecord;
use crate::syscall::precompiles::slot::word_addr;
use crate::utils::bigint::{from_words_le, limbs_of, words_value};
use crate::utils::limbs::{
    bytes_to_words, bytes_to_words_le, lemma_bytes_to_words_round_trip, lemma_limbs_value, to_limbs,
};
use crate::utils::trace::{
    flatten, lemma_flatten_push, matrix_values, matrix_width, next_pow2, pad_to_matrix, padded,
};

verus! {

/// One subtraction: the two operands as they were read, and the memory
/// accesses that read `q` and wrote the difference over `p`.
#[derive(Clone, Debug)]
pub struct FieldSubEvent {
    pub shard: u32,
    pub clk: u32,
    pub p_ptr: u32,
    pub p: Vec<u32>,
    pub q_ptr: u32,
    pub q: Vec<u32>,
    pub p_memory_records: Vec<MemoryWriteRecord>,
    pub q_memory_records: Vec<MemoryReadRecord>,
}

/// The chip that proves subtractions in one field.
#[derive(Clone, Copy, Debug)]
pub struct FieldSubChip {
    pub field: FieldType,
}

/// Number of columns before the memory accesses: `is_real`, `shard`, `clk`,
/// `p_ptr` and `q_ptr`.
pub const FIELD_SUB_SCALAR_COLS: usize = 5;

/// Where each group of columns begins in a row of the chip. The row holds,
/// in this order: the flag that tells the row of an event from a padding
/// row, the shard, the clock and the two pointers; the writes of `p` and the
/// reads of `q`; and the sub-table of the difference.
#[derive(Clone, Copy, Debug, PartialEq, Eq, Structural)]
pub struct FieldSubCols {
    pub is_real: usize,
    pub shard: usize,
    pub clk: usize,
    pub p_ptr: usize,
    pub q_ptr: usize,
    pub p_access: usize,
    pub q_access: usize,
    pub p_sub_q: usize,
}

impl FieldSubCols {
    /// The layout of a row for `field`.
    pub open spec fn spec_new(field: FieldType) -> FieldSubCols {
        FieldSubCols {
            is_real: 0,
            shard: 1,
            clk: 2,
            p_ptr: 3,
            q_ptr: 4,
            p_access: 5,
            q_access: (5 + 2 * field.spec_nb_limbs()) as usize,
            p_sub_q: (5 + 3 * field.spec_nb_limbs()) as usize,
        }
    }

    /// The layout of a row for `field`.
    pub fn new(field: FieldType) -> (cols: Self)
        ensures
            cols == FieldSubCols::spec_new(field),
    {
        let limbs = field.nb_limbs();
        FieldSubCols {
            is_real: 0,
            shard: 1,
            clk: 2,
            p_ptr: 3,
            q_ptr: 4,
            p_access: FIELD_SUB_SCALAR_COLS,
            q_access: FIELD_SUB_SCALAR_COLS + 2 * limbs,
            p_sub_q: FIELD_SUB_SCALAR_COLS + 3 * limbs,
        }
    }
}

impl FieldSubEvent {
    /// The operands and the memory accesses have one entry for each word of
    /// a field element.
    pub open spec fn wf(self, field: FieldType) -> bool {
        &&& self.p@.len() * 4 == field.spec_nb_limbs()
        &&& self.q@.len() * 4 == field.spec_nb_limbs()
        &&& self.p_memory_records@.len() * 4 == field.spec_nb_limbs()
        &&& self.q_memory_records@.len() * 4 == field.spec_nb_limbs()
    }

    /// The difference `p - q` in the field.
    pub open spec fn spec_result(self, field: FieldType) -> nat {
        field_op_value(
            FieldOperation::Sub,
            words_value(self.p@),
            words_value(self.q@),
            field.spec_modulus(),
        )
    }

    /// The row of the event: the scalars, the write of every word of `p`,
    /// the read of every word of `q`, and the limbs of the difference.
    pub open spec fn spec_row(self, field: FieldType) -> Seq<u32> {
        seq![1u32, self.shard, self.clk, self.p_ptr, self.q_ptr] + writes_cols(
            self.p_memory_records@,
        ) + reads_cols(self.q_memory_records@) + limb_cols(
            self.spec_result(field),
            field.spec_nb_limbs(),
        )
    }

    /// The byte lookups that the row of the event gives rise to.
    pub open spec fn spec_lookups(self, field: FieldType) -> Seq<ByteLookupEvent> {
        writes_lookups(self.p_memory_records@) + reads_lookups(self.q_memory_records@)
            + range_lookups(self.shard, limbs_of(self.spec_result(field), field.spec_nb_limbs()))
    }
}

/// The event of one subtraction: `q` is read at `q_ptr` at time `clk`, and
/// the difference is written over `p` at `p_ptr` one tick later, so that the
/// two accesses do not collide where `p` and `q` are the same words.
pub fn create_fp_sub_event(
    field: FieldType,
    shard: u32,
    clk: u32,
    p_ptr: u32,
    q_ptr: u32,
    p: Vec<u32>,
    q: Vec<u32>,
) -> (event: FieldSubEvent)
    requires
        p_ptr % 4 == 0,
        q_ptr % 4 == 0,
        p@.len() * 4 == field.spec_nb_limbs(),
        q@.len() * 4 == field.spec_nb_limbs(),
        clk < u32::MAX,
        p_ptr + field.spec_nb_limbs() <= u32::MAX,
        q_ptr + field.spec_nb_limbs() <= u32::MAX,
    ensures
        event.wf(field),
        event.consistent(field),
        reads_in_shard(event.q_memory_records@, shard),
        writes_in_shard(event.p_memory_records@, shard),
        event.shard == shard,
        event.clk == clk,
        event.p_ptr == p_ptr,
        event.q_ptr == q_ptr,
        event.p@ == p@,
        event.q@ == q@,
        forall|i: int|
            0 <= i < q@.len() ==> #[trigger] event.q_memory_records@[i] == (MemoryReadRecord {
                shard,
                clk,
                addr: word_addr(q_ptr, i),
                value: q@[i],
            }),
        forall|i: int|
            0 <= i < p@.len() ==> #[trigger] event.p_memory_records@[i] == (MemoryWriteRecord {
                shard,
                clk: (clk + 1) as u32,
                addr: word_addr(p_ptr, i),
                prev_value: p@[i],
                value: bytes_to_words(limbs_of(event.spec_result(field), field.spec_nb_limbs()))[i],
            }),
{
    let words = field.nb_words();
    let p_int = from_words_le(p.as_slice());
    let q_int = from_words_le(q.as_slice());
    let result = field_op(field, &p_int, &q_int, FieldOperation::Sub);
    let result_bytes = to_limbs(&result, field.nb_limbs());
    let result_words = bytes_to_words_le(&result_bytes);
    let mut q_memory_records: Vec<MemoryReadRecord> = Vec::new();
    let mut p_memory_records: Vec<MemoryWriteRecord> = Vec::new();
    let mut i: usize = 0;
    while i < words
        invariant
            0 <= i <= words,
            words == p@.len(),
            words == q@.len(),
            words == result_words@.len(),
            words * 4 == field.spec_nb_limbs(),
            clk < u32::MAX,
            p_ptr + field.spec_nb_limbs() <= u32::MAX,
            q_ptr + field.spec_nb_limbs() <= u32::MAX,
            q_memory_records@.len() == i,
            p_memory_records@.len() == i,
            forall|k: int|
                0 <= k < i ==> #[trigger] q_memory_records@[k] == (MemoryReadRecord {
                    shard,
                    clk,
                    addr: word_addr(q_ptr, k),
                    value: q@[k],
                }),
            forall|k: int|
                0 <= k < i ==> #[trigger] p_memory_records@[k] == (MemoryWriteRecord {
                    shard,
                    clk: (clk + 1) as u32,
                    addr: word_addr(p_ptr, k),
                    prev_value: p@[k],
                    value: result_words@[k],
                }),
        decreases words - i,
    {
        let offset = (4 * i) as u32;
        q_memory_records.push(MemoryReadRecord::new(shard, clk, q_ptr + offset, q[i]));
        p_memory_records.push(
            MemoryWriteRecord::new(shard, clk + 1, p_ptr + offset, p[i], result_words[i]),
        );
        i = i + 1;
    }
    proof {
        assert(read_values(q_memory_records@) =~= q@);
        assert(replaced_values(p_memory_records@) =~= p@);
        assert(written_values(p_memory_records@) =~= result_words@);
    }
    FieldSubEvent { shard, clk, p_ptr, p, q_ptr, q, p_memory_records, q_memory_records }
}

impl FieldSubChip {
    /// The fields the chip is defined for.
    pub open spec fn spec_supported(self) -> bool {
        self.field == FieldType::Bls12381
    }

    /// The number of columns of a row.
    pub open spec fn spec_width(self) -> nat {
        5 + 12 * (self.field.spec_nb_limbs() / 4) + self.field.spec_nb_limbs()
    }

    /// The padding row: nothing real, and the difference of zero and zero.
    pub open spec fn spec_padding(self) -> Seq<u32> {
        Seq::new((5 + 12 * (self.field.spec_nb_limbs() / 4)) as nat, |i: int| 0u32) + limb_cols(
            field_op_value(FieldOperation::Sub, 0, 0, self.field.spec_modulus()),
            self.field.spec_nb_limbs(),
        )
    }

    /// The rows of the events, in the order of the events.
    pub open spec fn spec_rows(self, events: Seq<FieldSubEvent>) -> Seq<Seq<u32>> {
        Seq::new(events.len(), |i: int| events[i].spec_row(self.field))
    }

    /// The byte lookups of the events, in the order of the events.
    pub open spec fn spec_lookups(self, events: Seq<FieldSubEvent>) -> Seq<ByteLookupEvent>
        decreases events.len(),
    {
        if events.len() == 0 {
            Seq::empty()
        } else {
            self.spec_lookups(events.drop_last()) + events.last().spec_lookups(self.field)
        }
    }

    /// The chip for `field`.
    pub fn new(field: FieldType) -> (chip: Self)
        ensures
            chip.field == field,
    {
        FieldSubChip { field }
    }

    /// Whether the chip is defined for its field.
    pub fn supported(&self) -> (r: bool)
        ensures
            r == self.spec_supported(),
    {
        match self.field {
            FieldType::Bls12381 => true,
            _ => false,
        }
    }

    /// The display name of the chip.
    pub fn name(&self) -> (name: String)
        requires
            self.spec_supported(),
        ensures
            name@ == "Bls12381FieldSub"@,
    {
        "Bls12381FieldSub".to_string()
    }

    /// The number of columns of a row.
    pub fn width(&self) -> (w: usize)
        ensures
            w == self.spec_width(),
    {
        FIELD_SUB_SCALAR_COLS + 12 * self.field.nb_words() + self.field.nb_limbs()
    }

    /// Whether the shard holds an event of this chip.
    pub fn included(&self, shard: &ExecutionRecord) -> (r: bool)
        requires
            self.spec_supported(),
        ensures
            r == (shard.bls12381_fp_sub_events@.len() > 0),
    {
        !shard.bls12381_fp_sub_events.is_empty()
    }

    /// Appends the row of `event` to `values`, and its lookups to `lookups`.
    pub fn populate_row(
        &self,
        event: &FieldSubEvent,
        values: &mut Vec<u32>,
        lookups: &mut Vec<ByteLookupEvent>,
    )
        requires
            event.wf(self.field),
        ensures
            final(values)@ == old(values)@ + event.spec_row(self.field),
            final(lookups)@ == old(lookups)@ + event.spec_lookups(self.field),
            event.spec_row(self.field).len() == self.spec_width(),
    {
        values.push(1);
        values.push(event.shard);
        values.push(event.clk);
        values.push(event.p_ptr);
        values.push(event.q_ptr);
        assert(
            values@ =~= old(values)@ + seq![1u32, event.shard, event.clk, event.p_ptr, event.q_ptr]
        );
        populate_writes(values, lookups, &event.p_memory_records);
        populate_reads(values, lookups, &event.q_memory_records);
        let p = from_words_le(event.p.as_slice());
        let q = from_words_le(event.q.as_slice());
        let _ = populate_field_op(
            values,
            lookups,
            event.shard,
            self.field,
            &p,
            &q,
            FieldOperation::Sub,
        );
        proof {
            lemma_access_lens(event.q_memory_records@, event.p_memory_records@);
            lemma_limbs_value(event.spec_result(self.field), self.field.spec_nb_limbs());
            assert(values@ =~= old(values)@ + event.spec_row(self.field));
            assert(lookups@ =~= old(lookups)@ + event.spec_lookups(self.field));
        }
    }

    /// The padding row.
    pub fn padding_row(&self) -> (row: Vec<u32>)
        ensures
            row@ == self.spec_padding(),
            row@.len() == self.spec_width(),
    {
        let mut row: Vec<u32> = Vec::new();
        let blank = FIELD_SUB_SCALAR_COLS + 12 * self.field.nb_words();
        while row.len() < blank
            invariant
                row@.len() <= blank,
                forall|i: int| 0 <= i < row@.len() ==> row@[i] == 0,
            decreases blank - row@.len(),
        {
            row.push(0);
        }
        let ghost zeros = row@;
        let zero = small_biguint(0);
        let mut unused: Vec<ByteLookupEvent> = Vec::new();
        let _ = populate_field_op(
            &mut row,
            &mut unused,
            0,
            self.field,
            &zero,
            &zero,
            FieldOperation::Sub,
        );
        proof {
            lemma_limbs_value(
                field_op_value(FieldOperation::Sub, 0, 0, self.field.spec_modulus()),
                self.field.spec_nb_limbs(),
            );
            assert(zeros =~= Seq::new(
                (5 + 12 * (self.field.spec_nb_limbs() / 4)) as nat,
                |i: int| 0u32,
            ));
        }
        row
    }

    /// Lays the subtractions of `input` out as a trace: one row for each
    /// event, in the order of the events, then padding rows up to the next
    /// power of two. The byte lookups of the rows of the events are counted
    /// in `output`.
    pub fn generate_trace(&self, input: &ExecutionRecord, output: &mut ExecutionRecord) -> (trace:
        RowMajorMatrix<u32>)
        requires
            self.spec_supported(),
            forall|i: int|
                0 <= i < input.bls12381_fp_sub_events@.len() ==> (
                #[trigger] input.bls12381_fp_sub_events@[i]).wf(self.field),
            next_pow2(input.bls12381_fp_sub_events@.len()) <= usize::MAX,
            has_room(
                old(output).lookups(),
                self.spec_lookups(input.bls12381_fp_sub_events@).len(),
            ),
        ensures
            matrix_width(trace) == self.spec_width(),
            matrix_values(trace) == flatten(
                padded(self.spec_rows(input.bls12381_fp_sub_events@), self.spec_padding()),
            ),
            matrix_values(trace).len() == next_pow2(input.bls12381_fp_sub_events@.len())
                * self.spec_width(),
            final(output).lookups() == record_lookups(
                old(output).lookups(),
                keys_of(self.spec_lookups(input.bls12381_fp_sub_events@)),
            ),
            counts_positive(old(output).lookups()) ==> counts_positive(final(output).lookups()),
            *final(output) == (ExecutionRecord {
                byte_lookups: final(output).byte_lookups,
                ..*old(output)
            }),
    {
        let events = &input.bls12381_fp_sub_events;
        let mut values: Vec<u32> = Vec::new();
        let mut lookups: Vec<ByteLookupEvent> = Vec::new();
        let mut i: usize = 0;
        let ghost mut rows: Seq<Seq<u32>> = Seq::empty();
        assert(events@.subrange(0, 0) =~= Seq::<FieldSubEvent>::empty());
        while i < events.len()
            invariant
                0 <= i <= events@.len(),
                forall|k: int| 0 <= k < events@.len() ==> (#[trigger] events@[k]).wf(self.field),
                rows == self.spec_rows(events@).subrange(0, i as int),
                values@ == flatten(rows),
                lookups@ == self.spec_lookups(events@.subrange(0, i as int)),
            decreases events@.len() - i,
        {
            let event = &events[i];
            self.populate_row(event, &mut values, &mut lookups);
            proof {
                lemma_flatten_push(rows, event.spec_row(self.field));
                rows = rows.push(event.spec_row(self.field));
                assert(rows =~= self.spec_rows(events@).subrange(0, i + 1));
                let done = events@.subrange(0, i + 1);
                assert(done.drop_last() =~= events@.subrange(0, i as int));
                assert(done.last() == events@[i as int]);
            }
            i = i + 1;
        }
        proof {
            assert(rows =~= self.spec_rows(events@));
            assert(events@.subrange(0, i as int) =~= events@);
            assert forall|k: int| 0 <= k < rows.len() implies (#[trigger] rows[k]).len()
                == self.spec_width() by {
                lemma_row_len(*self, events@[k]);
            }
        }
        output.add_byte_lookup_events(lookups);
        let padding = self.padding_row();
        pad_to_matrix(values, &padding, events.len(), Ghost(rows))
    }
}

/// The row of a well-formed event has the width of the chip.
pub proof fn lemma_row_len(chip: FieldSubChip, event: FieldSubEvent)
    requires
        event.wf(chip.field),
    ensures
        event.spec_row(chip.field).len() == chip.spec_width(),
{
    lemma_access_lens(event.q_memory_records@, event.p_memory_records@);
    lemma_limbs_value(event.spec_result(chip.field), chip.field.spec_nb_limbs());
}


impl FieldSubEvent {
    /// The memory accesses are those of the operands: `q` was read, `p` was
    /// replaced, and the difference was written.
    pub open spec fn consistent(self, field: FieldType) -> bool {
        &&& read_values(self.q_memory_records@) == self.q@
        &&& replaced_values(self.p_memory_records@) == self.p@
        &&& written_values(self.p_memory_records@) == bytes_to_words(
            limbs_of(self.spec_result(field), field.spec_nb_limbs()),
        )
    }
}

impl FieldSubChip {
    /// The column at which the writes of `p` begin.
    pub open spec fn spec_p_access(self) -> nat {
        5
    }

    /// The column at which the reads of `q` begin.
    pub open spec fn spec_q_access(self) -> nat {
        5 + 2 * self.field.spec_nb_limbs()
    }

    /// The column at which the difference begins.
    pub open spec fn spec_p_sub_q(self) -> nat {
        5 + 3 * self.field.spec_nb_limbs()
    }

    /// What the chip asks of a row: `is_real` is 0 or 1; the difference is
    /// that of the words before the write of `p` and the words read of `q`;
    /// on the row of an event the difference is what was written; the words
    /// of `q` are read at the clock of the row and the words of `p` written
    /// one tick later; and the row answers one call of the precompile, with
    /// the two pointers as arguments.
    pub open spec fn spec_constraints(self) -> Seq<Constraint> {
        let words = self.field.spec_nb_limbs() / 4;
        let p_access = self.spec_p_access() as usize;
        let q_access = self.spec_q_access() as usize;
        let p_sub_q = self.spec_p_sub_q() as usize;
        seq![
            Constraint::Bool { col: IS_REAL_COL, gate: Gate::Always },
            Constraint::FieldOp {
                op: FieldOperation::Sub,
                a: Operand::WritePrev { start: p_access },
                b: Operand::ReadValue { start: q_access },
                result: p_sub_q,
            },
            Constraint::LimbsEqual {
                a: Operand::Cols { start: p_sub_q },
                b: Operand::WriteValue { start: p_access },
                gate: Gate::Real,
            },
        ] + Seq::new(
            words,
            |i: int|
                Constraint::MemoryRead {
                    cols: (q_access + 4 * i) as usize,
                    ptr: 4,
                    offset: (4 * i) as u32,
                    clk_offset: 0,
                },
        ) + Seq::new(
            words,
            |i: int|
                Constraint::MemoryWrite {
                    cols: (p_access + 8 * i) as usize,
                    ptr: 3,
                    offset: (4 * i) as u32,
                    clk_offset: 1,
                },
        ) + seq![
            Constraint::ReceiveSyscall {
                syscall_id: SyscallCode::BLS12381_FP_SUB.spec_syscall_id(),
                arg1: 3,
                arg2: 4,
            },
        ]
    }

    /// What the chip asks of a row.
    pub fn eval(&self) -> (constraints: Vec<Constraint>)
        requires
            self.spec_supported(),
        ensures
            constraints@ == self.spec_constraints(),
            receives_one_syscall(constraints@),
    {
        let words = self.field.nb_words();
        let cols = FieldSubCols::new(self.field);
        let p_access = cols.p_access;
        let q_access = cols.q_access;
        let p_sub_q = cols.p_sub_q;
        let mut constraints: Vec<Constraint> = Vec::new();
        constraints.push(Constraint::Bool { col: cols.is_real, gate: Gate::Always });
        constraints.push(
            Constraint::FieldOp {
                op: FieldOperation::Sub,
                a: Operand::WritePrev { start: p_access },
                b: Operand::ReadValue { start: q_access },
                result: p_sub_q,
            },
        );
        constraints.push(
            Constraint::LimbsEqual {
                a: Operand::Cols { start: p_sub_q },
                b: Operand::WriteValue { start: p_access },
                gate: Gate::Real,
            },
        );
        let ghost fixed = constraints@;
        let ghost reads = Seq::new(
            words as nat,
            |i: int|
                Constraint::MemoryRead {
                    cols: (q_access + 4 * i) as usize,
                    ptr: 4,
                    offset: (4 * i) as u32,
                    clk_offset: 0,
                },
        );
        let ghost writes = Seq::new(
            words as nat,
            |i: int|
                Constraint::MemoryWrite {
                    cols: (p_access + 8 * i) as usize,
                    ptr: 3,
                    offset: (4 * i) as u32,
                    clk_offset: 1,
                },
        );
        let mut i: usize = 0;
        while i < words
            invariant
                0 <= i <= words,
                words <= 12,
                q_access <= 5 + 96,
                cols == FieldSubCols::spec_new(self.field),
                constraints@ == fixed + reads.subrange(0, i as int),
                reads.len() == words,
                forall|k: int|
                    0 <= k < words ==> #[trigger] reads[k] == (Constraint::MemoryRead {
                        cols: (q_access + 4 * k) as usize,
                        ptr: 4,
                        offset: (4 * k) as u32,
                        clk_offset: 0,
                    }),
            decreases words - i,
        {
            constraints.push(
                Constraint::MemoryRead {
                    cols: q_access + 4 * i,
                    ptr: cols.q_ptr,
                    offset: (4 * i) as u32,
                    clk_offset: 0,
                },
            );
            i = i + 1;
            assert(constraints@ =~= fixed + reads.subrange(0, i as int));
        }
        assert(reads.subrange(0, i as int) =~= reads);
        let mut j: usize = 0;
        while j < words
            invariant
                0 <= j <= words,
                words <= 12,
                p_access == 5,
                cols == FieldSubCols::spec_new(self.field),
                constraints@ == fixed + reads + writes.subrange(0, j as int),
                writes.len() == words,
                forall|k: int|
                    0 <= k < words ==> #[trigger] writes[k] == (Constraint::MemoryWrite {
                        cols: (p_access + 8 * k) as usize,
                        ptr: 3,
                        offset: (4 * k) as u32,
                        clk_offset: 1,
                    }),
            decreases words - j,
        {
            constraints.push(
                Constraint::MemoryWrite {
                    cols: p_access + 8 * j,
                    ptr: cols.p_ptr,
                    offset: (4 * j) as u32,
                    clk_offset: 1,
                },
            );
            j = j + 1;
            assert(constraints@ =~= fixed + reads + writes.subrange(0, j as int));
        }
        assert(writes.subrange(0, j as int) =~= writes);
        constraints.push(
            Constraint::ReceiveSyscall {
                syscall_id: SyscallCode::BLS12381_FP_SUB.syscall_id(),
                arg1: cols.p_ptr,
                arg2: cols.q_ptr,
            },
        );
        assert(fixed =~= self.spec_constraints().subrange(0, 3));
        assert(constraints@ =~= self.spec_constraints());
        constraints
    }
}

/// A row whose scalars, accesses and difference are laid out as the chip lays
/// them out meets the constraints of the chip, if the accesses hold the
/// operands of the difference and, on the row of an event, the difference
/// itself.
proof fn lemma_field_sub_row_holds(
    chip: FieldSubChip,
    row: Seq<u32>,
    is_real: u32,
    p: nat,
    q: nat,
)
    requires
        is_real <= 1,
        row.len() == chip.spec_width(),
        row[0] == is_real,
        row.subrange(chip.spec_p_sub_q() as int, chip.spec_width() as int) == limb_cols(
            field_op_value(FieldOperation::Sub, p, q, chip.field.spec_modulus()),
            chip.field.spec_nb_limbs(),
        ),
        operand_value(row, Operand::WritePrev { start: 5 }, chip.field.spec_nb_limbs()) == p,
        operand_value(
            row,
            Operand::ReadValue { start: chip.spec_q_access() as usize },
            chip.field.spec_nb_limbs(),
        ) == q,
        is_real == 1 ==> operand_cols(
            row,
            Operand::WriteValue { start: 5 },
            chip.field.spec_nb_limbs(),
        ) == limb_cols(
            field_op_value(FieldOperation::Sub, p, q, chip.field.spec_modulus()),
            chip.field.spec_nb_limbs(),
        ),
    ensures
        constraints_hold(row, chip.field, chip.spec_constraints()),
{
    let field = chip.field;
    let n = field.spec_nb_limbs();
    let list = chip.spec_constraints();
    let result = field_op_value(FieldOperation::Sub, p, q, field.spec_modulus());
    let at = chip.spec_p_sub_q() as int;
    field.lemma_modulus();
    lemma_limb_cols_value(result, n);
    assert(row.subrange(at, at + n) =~= limb_cols(result, n));
    assert(operand_cols(row, Operand::Cols { start: at as usize }, n) =~= limb_cols(result, n));
    assert forall|i: int| 0 <= i < list.len() implies constraint_holds(
        row,
        field,
        #[trigger] list[i],
    ) by {
        if i == 1 {
            assert(list[1] == (Constraint::FieldOp {
                op: FieldOperation::Sub,
                a: Operand::WritePrev { start: 5 },
                b: Operand::ReadValue { start: chip.spec_q_access() as usize },
                result: at as usize,
            }));
        } else if i == 2 {
            assert(list[2] == (Constraint::LimbsEqual {
                a: Operand::Cols { start: at as usize },
                b: Operand::WriteValue { start: 5 },
                gate: Gate::Real,
            }));
        }
    }
}

/// The padding row meets every constraint of the chip: on it the difference
/// of nothing and nothing is held, and nothing else is asked of a row that
/// is not the row of an event.
pub proof fn lemma_field_sub_padding_holds(chip: FieldSubChip)
    ensures
        constraints_hold(chip.spec_padding(), chip.field, chip.spec_constraints()),
{
    let field = chip.field;
    let n = field.spec_nb_limbs();
    let row = chip.spec_padding();
    let result = field_op_value(FieldOperation::Sub, 0, 0, field.spec_modulus());
    field.lemma_modulus();
    lemma_limbs_value(result, n);
    assert(row.subrange(chip.spec_p_sub_q() as int, chip.spec_width() as int) =~= limb_cols(
        result,
        n,
    ));
    lemma_cols_value_zero(operand_cols(row, Operand::WritePrev { start: 5 }, n));
    lemma_cols_value_zero(
        operand_cols(row, Operand::ReadValue { start: chip.spec_q_access() as usize }, n),
    );
    lemma_field_sub_row_holds(chip, row, 0, 0, 0);
}

/// The row of an event whose memory accesses are those of its operands
/// meets every constraint of the chip.
pub proof fn lemma_field_sub_row_holds_for_event(chip: FieldSubChip, event: FieldSubEvent)
    requires
        event.wf(chip.field),
        event.consistent(chip.field),
    ensures
        constraints_hold(event.spec_row(chip.field), chip.field, chip.spec_constraints()),
{
    let field = chip.field;
    let n = field.spec_nb_limbs();
    let row = event.spec_row(field);
    let result = event.spec_result(field);
    field.lemma_modulus();
    lemma_row_len(chip, event);
    lemma_access_lens(event.q_memory_records@, event.p_memory_records@);
    lemma_limbs_value(result, n);
    let q_access = chip.spec_q_access() as int;
    let p_sub_q = chip.spec_p_sub_q() as int;
    assert(row.subrange(5, q_access) =~= writes_cols(event.p_memory_records@));
    assert(row.subrange(q_access, p_sub_q) =~= reads_cols(event.q_memory_records@));
    assert(row.subrange(p_sub_q, chip.spec_width() as int) =~= limb_cols(result, n));
    lemma_write_operands(row, 5, event.p_memory_records@, n);
    lemma_read_operand(row, q_access as usize, event.q_memory_records@, n);
    lemma_bytes_to_words_round_trip(limbs_of(result, n));
    lemma_field_sub_row_holds(chip, row, 1, words_value(event.p@), words_value(event.q@));
}

/// Every row of the trace of events whose memory accesses are those of
/// their operands meets every constraint of the chip: the rows of the events,
/// and the padding rows behind them.
pub proof fn lemma_field_sub_trace_holds(chip: FieldSubChip, events: Seq<FieldSubEvent>)
    requires
        forall|i: int|
            0 <= i < events.len() ==> (#[trigger] events[i]).wf(chip.field) && events[i].consistent(
                chip.field,
            ),
    ensures
        forall|i: int|
            0 <= i < padded(chip.spec_rows(events), chip.spec_padding()).len()
                ==> constraints_hold(
                #[trigger] padded(chip.spec_rows(events), chip.spec_padding())[i],
                chip.field,
                chip.spec_constraints(),
            ),
{
    let rows = padded(chip.spec_rows(events), chip.spec_padding());
    assert forall|i: int| 0 <= i < rows.len() implies constraints_hold(
        #[trigger] rows[i],
        chip.field,
        chip.spec_constraints(),
    ) by {
        if i < events.len() {
            lemma_field_sub_row_holds_for_event(chip, events[i]);
        } else {
            lemma_field_sub_padding_holds(chip);
        }
    }
}

} // verus!
