//! The constraints of a chip over one row of its trace, as data: what a chip
//! asks of a row is a list of constraints, and a prover's builder is told
//! them one by one.

use vstd::prelude::*;

use crate::memory::columns::{
    lemma_reads_cols_index, lemma_writes_cols_index, read_values, reads_cols, replaced_values,
    writes_cols, written_values,
};
use crate::operations::field::field_op::{byte_cols, field_op_value, limb_cols, FieldOperation};
use crate::operations::field::params::{CurveType, FieldType, ED25519_D};
use crate::operations::field::range::{lemma_top_difference, range_cols, top_difference};
use crate::runtime::memory::{MemoryReadRecord, MemoryWriteRecord};
use crate::utils::bigint::{bytes_value, limbs_of, words_value};
use crate::utils::ec::{ed25519_sqrt_spec, weierstrass_sqrt_spec};
use crate::utils::limbs::{lemma_limbs_value, lemma_words_to_bytes_value, pow256, words_to_bytes};

verus! {

/// The precompiles that a guest calls, as far as this crate has their chips.
#[derive(Clone, Copy, Debug, PartialEq, Eq, Structural)]
#[allow(non_camel_case_types)]
pub enum SyscallCode {
    ED_DECOMPRESS,
    SECP256K1_DECOMPRESS,
    BLS12381_DECOMPRESS,
    BLS12381_FP_SUB,
}

impl SyscallCode {
    /// The number by which the guest names the precompile.
    pub open spec fn spec_syscall_id(self) -> u32 {
        match self {
            SyscallCode::ED_DECOMPRESS => 8,
            SyscallCode::SECP256K1_DECOMPRESS => 12,
            SyscallCode::BLS12381_DECOMPRESS => 28,
            SyscallCode::BLS12381_FP_SUB => 33,
        }
    }

    /// The number by which the guest names the precompile.
    pub fn syscall_id(self) -> (id: u32)
        ensures
            id == self.spec_syscall_id(),
    {
        match self {
            SyscallCode::ED_DECOMPRESS => 8,
            SyscallCode::SECP256K1_DECOMPRESS => 12,
            SyscallCode::BLS12381_DECOMPRESS => 28,
            SyscallCode::BLS12381_FP_SUB => 33,
        }
    }
}

/// Where a constraint takes a field element from, one limb to a column.
#[derive(Clone, Copy, Debug, PartialEq, Eq, Structural)]
pub enum Operand {
    /// Consecutive columns, from `start` on.
    Cols { start: usize },
    /// The words that were read by the reads whose columns begin at `start`.
    ReadValue { start: usize },
    /// The words that were there before the writes whose columns begin at
    /// `start`.
    WritePrev { start: usize },
    /// The words that were written by the writes whose columns begin at
    /// `start`.
    WriteValue { start: usize },
    /// A number below 256.
    Small { value: u8 },
    /// The constant `d` of Ed25519.
    EdwardsD,
}

/// When a constraint applies.
#[derive(Clone, Copy, Debug, PartialEq, Eq, Structural)]
pub enum Gate {
    /// On every row.
    Always,
    /// On the rows of events.
    Real,
    /// On the rows of events on which the column is not zero.
    RealAndSet { col: usize },
    /// On the rows of events on which the column is zero.
    RealAndUnset { col: usize },
    /// On the rows of events on which column `a` differs from column `b`.
    RealAndDiffers { a: usize, b: usize },
    /// On the rows of events on which column `a` differs from one minus
    /// column `b`.
    RealAndDiffersFromNot { a: usize, b: usize },
}

/// Which square root a sub-table takes.
#[derive(Clone, Copy, Debug, PartialEq, Eq, Structural)]
pub enum SqrtKind {
    /// The even root in the base field of Ed25519.
    Ed25519,
    /// The root that the power (p + 1) / 4 gives in the base field of the
    /// curve.
    Weierstrass { curve: CurveType },
}

/// One thing that a chip asks of a row.
#[derive(Clone, Copy, Debug, PartialEq, Eq, Structural)]
pub enum Constraint {
    /// The column is 0 or 1.
    Bool { col: usize, gate: Gate },
    /// The columns from `result` on hold `a (op) b`.
    FieldOp { op: FieldOperation, a: Operand, b: Operand, result: usize },
    /// The columns from `cols` on witness that `value` is below the modulus.
    FieldRange { value: Operand, cols: usize },
    /// The columns from `result` on hold the square root of `a`.
    FieldSqrt { kind: SqrtKind, a: Operand, result: usize },
    /// The two field elements are the same, limb by limb.
    LimbsEqual { a: Operand, b: Operand, gate: Gate },
    /// The eight columns from `bits` on are the bits of the column `byte`,
    /// the least significant first.
    ByteBits { bits: usize, byte: usize, gate: Gate },
    /// The columns from `cols` on are the read of the word at the address in
    /// column `ptr` plus `offset`, at the clock of the row plus `clk_offset`.
    MemoryRead { cols: usize, ptr: usize, offset: u32, clk_offset: u32 },
    /// The columns from `cols` on are the write of the word at the address in
    /// column `ptr` plus `offset`, at the clock of the row plus `clk_offset`.
    MemoryWrite { cols: usize, ptr: usize, offset: u32, clk_offset: u32 },
    /// The row answers the call of the precompile with the given number and
    /// the two arguments in the columns `arg1` and `arg2`.
    ReceiveSyscall { syscall_id: u32, arg1: usize, arg2: usize },
}

/// The column that says whether a row is the row of an event.
pub const IS_REAL_COL: usize = 0;

/// The column that holds the shard of a row.
pub const SHARD_COL: usize = 1;

/// The column that holds the clock of a row.
pub const CLK_COL: usize = 2;

/// The number that columns stand for, one limb to a column, the least
/// significant first.
pub open spec fn cols_value(s: Seq<u32>) -> nat
    decreases s.len(),
{
    if s.len() == 0 {
        0
    } else {
        s[0] as nat + 256 * cols_value(s.drop_first())
    }
}

/// The `n` columns that an operand names in a row; for a constant, its limbs.
pub open spec fn operand_cols(row: Seq<u32>, operand: Operand, n: nat) -> Seq<u32> {
    match operand {
        Operand::Cols { start } => row.subrange(start as int, start + n),
        Operand::ReadValue { start } => row.subrange(start as int, start + n),
        Operand::WritePrev { start } => Seq::new(n, |i: int| row[start + 8 * (i / 4) + i % 4]),
        Operand::WriteValue { start } => Seq::new(
            n,
            |i: int| row[start + 8 * (i / 4) + 4 + i % 4],
        ),
        Operand::Small { value } => Seq::new(
            n,
            |i: int|
                if i == 0 {
                    value as u32
                } else {
                    0u32
                },
        ),
        Operand::EdwardsD => Seq::new(n, |i: int| ED25519_D@[i] as u32),
    }
}

/// The number that an operand stands for in a row.
pub open spec fn operand_value(row: Seq<u32>, operand: Operand, n: nat) -> nat {
    match operand {
        Operand::Small { value } => value as nat,
        Operand::EdwardsD => bytes_value(ED25519_D@),
        _ => cols_value(operand_cols(row, operand, n)),
    }
}

/// Whether a gate is open on a row.
pub open spec fn gate_open(row: Seq<u32>, gate: Gate) -> bool {
    match gate {
        Gate::Always => true,
        Gate::Real => row[IS_REAL_COL as int] != 0,
        Gate::RealAndSet { col } => row[IS_REAL_COL as int] != 0 && row[col as int] != 0,
        Gate::RealAndUnset { col } => row[IS_REAL_COL as int] != 0 && row[col as int] == 0,
        Gate::RealAndDiffers { a, b } => row[IS_REAL_COL as int] != 0 && row[a as int]
            != row[b as int],
        Gate::RealAndDiffersFromNot { a, b } => row[IS_REAL_COL as int] != 0 && row[a as int] != 1
            - row[b as int],
    }
}

/// The square root that a sub-table of the given kind holds for `a`: zero
/// where `a` has none.
pub open spec fn sqrt_value(kind: SqrtKind, a: nat) -> nat {
    match kind {
        SqrtKind::Ed25519 => match ed25519_sqrt_spec(a) {
            Some(r) => r,
            None => 0,
        },
        SqrtKind::Weierstrass { curve } => match weierstrass_sqrt_spec(curve, a) {
            Some(r) => r,
            None => 0,
        },
    }
}

/// The columns of a range check of the limbs in `v` against the limbs `m` of
/// the modulus.
pub open spec fn range_witness(v: Seq<u32>, m: Seq<u8>) -> Seq<u32> {
    let d = top_difference(v, Seq::new(m.len(), |i: int| m[i] as u32), v.len() as int);
    Seq::new(
        v.len() + 1,
        |i: int|
            if i < v.len() {
                if i == d {
                    1u32
                } else {
                    0u32
                }
            } else if d >= 0 {
                v[d]
            } else {
                0u32
            },
    )
}

/// Whether a row meets a constraint, as far as the row alone decides it.
///
/// A sub-table is met where its columns hold the result of its operation on
/// the operands as the row holds them. The constraints on memory and on the
/// call of the precompile tie the row to other tables, and no row fails them
/// by itself.
pub open spec fn constraint_holds(row: Seq<u32>, field: FieldType, c: Constraint) -> bool {
    let n = field.spec_nb_limbs();
    let m = field.spec_modulus();
    match c {
        Constraint::Bool { col, gate } => gate_open(row, gate) ==> row[col as int] <= 1,
        Constraint::FieldOp { op, a, b, result } => cols_value(
            row.subrange(result as int, result + n),
        ) == field_op_value(op, operand_value(row, a, n), operand_value(row, b, n), m),
        Constraint::FieldRange { value, cols } => row.subrange(cols as int, cols + n + 1)
            == range_witness(operand_cols(row, value, n), field.spec_modulus_bytes()),
        Constraint::FieldSqrt { kind, a, result } => cols_value(
            row.subrange(result as int, result + n),
        ) == sqrt_value(kind, operand_value(row, a, n)),
        Constraint::LimbsEqual { a, b, gate } => gate_open(row, gate) ==> operand_cols(row, a, n)
            == operand_cols(row, b, n),
        Constraint::ByteBits { bits, byte, gate } => gate_open(row, gate) ==> {
            &&& forall|i: int| 0 <= i < 8 ==> #[trigger] row[bits + i] <= 1
            &&& row[byte as int] == row[bits as int] + 2 * row[bits + 1] + 4 * row[bits + 2] + 8
                * row[bits + 3] + 16 * row[bits + 4] + 32 * row[bits + 5] + 64 * row[bits + 6]
                + 128 * row[bits + 7]
        },
        Constraint::MemoryRead { .. } => true,
        Constraint::MemoryWrite { .. } => true,
        Constraint::ReceiveSyscall { .. } => true,
    }
}

/// Whether a row meets every constraint of a list.
pub open spec fn constraints_hold(row: Seq<u32>, field: FieldType, list: Seq<Constraint>) -> bool {
    forall|i: int| 0 <= i < list.len() ==> constraint_holds(row, field, #[trigger] list[i])
}

/// Whether the list answers the call of a precompile exactly once, with its
/// last constraint.
pub open spec fn receives_one_syscall(list: Seq<Constraint>) -> bool {
    &&& list.len() > 0
    &&& forall|i: int|
        0 <= i < list.len() ==> ((#[trigger] list[i]) is ReceiveSyscall <==> i == list.len() - 1)
}


/// Columns that hold bytes stand for the number the bytes stand for.
pub proof fn lemma_cols_value_bytes(bytes: Seq<u8>)
    ensures
        cols_value(byte_cols(bytes)) == bytes_value(bytes),
    decreases bytes.len(),
{
    if bytes.len() > 0 {
        lemma_cols_value_bytes(bytes.drop_first());
        assert(byte_cols(bytes).drop_first() =~= byte_cols(bytes.drop_first()));
    }
}

/// The columns of the limbs of a number that fits them stand for the number.
pub proof fn lemma_limb_cols_value(v: nat, n: nat)
    requires
        v < pow256(n),
    ensures
        cols_value(limb_cols(v, n)) == v,
        limb_cols(v, n).len() == n,
{
    lemma_limbs_value(v, n);
    lemma_cols_value_bytes(limbs_of(v, n));
}

/// Columns that are all zero stand for zero.
pub proof fn lemma_cols_value_zero(s: Seq<u32>)
    requires
        forall|i: int| 0 <= i < s.len() ==> s[i] == 0,
    ensures
        cols_value(s) == 0,
    decreases s.len(),
{
    if s.len() > 0 {
        lemma_cols_value_zero(s.drop_first());
    }
}

/// The words that reads read, as the operand that names them.
pub proof fn lemma_read_operand(
    row: Seq<u32>,
    start: usize,
    records: Seq<MemoryReadRecord>,
    n: nat,
)
    requires
        n == 4 * records.len(),
        start + n <= row.len(),
        row.subrange(start as int, start + n) == reads_cols(records),
    ensures
        operand_cols(row, Operand::ReadValue { start }, n) == byte_cols(
            words_to_bytes(read_values(records)),
        ),
        operand_value(row, Operand::ReadValue { start }, n) == words_value(read_values(records)),
        operand_value(row, Operand::ReadValue { start }, n) == bytes_value(
            words_to_bytes(read_values(records)),
        ),
{
    let cols = operand_cols(row, Operand::ReadValue { start }, n);
    let bytes = words_to_bytes(read_values(records));
    assert forall|i: int| 0 <= i < n implies cols[i] == byte_cols(bytes)[i] by {
        lemma_reads_cols_index(records, i / 4, i % 4);
    }
    assert(cols =~= byte_cols(bytes));
    lemma_cols_value_bytes(bytes);
    lemma_words_to_bytes_value(read_values(records));
}

/// The words that writes replaced and wrote, as the operands that name them.
pub proof fn lemma_write_operands(
    row: Seq<u32>,
    start: usize,
    records: Seq<MemoryWriteRecord>,
    n: nat,
)
    requires
        n == 4 * records.len(),
        start + 2 * n <= row.len(),
        row.subrange(start as int, start + 2 * n) == writes_cols(records),
    ensures
        operand_cols(row, Operand::WritePrev { start }, n) == byte_cols(
            words_to_bytes(replaced_values(records)),
        ),
        operand_value(row, Operand::WritePrev { start }, n) == words_value(
            replaced_values(records),
        ),
        operand_cols(row, Operand::WriteValue { start }, n) == byte_cols(
            words_to_bytes(written_values(records)),
        ),
        operand_value(row, Operand::WriteValue { start }, n) == words_value(
            written_values(records),
        ),
{
    let prev = operand_cols(row, Operand::WritePrev { start }, n);
    let value = operand_cols(row, Operand::WriteValue { start }, n);
    let prev_bytes = words_to_bytes(replaced_values(records));
    let value_bytes = words_to_bytes(written_values(records));
    let segment = row.subrange(start as int, start + 2 * n);
    assert forall|i: int| 0 <= i < n implies prev[i] == byte_cols(prev_bytes)[i] && value[i]
        == byte_cols(value_bytes)[i] by {
        lemma_writes_cols_index(records, i / 4, i % 4);
        assert(row[start + 8 * (i / 4) + i % 4] == segment[8 * (i / 4) + i % 4]);
        assert(row[start + 8 * (i / 4) + 4 + i % 4] == segment[8 * (i / 4) + 4 + i % 4]);
    }
    assert(prev =~= byte_cols(prev_bytes));
    assert(value =~= byte_cols(value_bytes));
    lemma_cols_value_bytes(prev_bytes);
    lemma_cols_value_bytes(value_bytes);
    lemma_words_to_bytes_value(replaced_values(records));
    lemma_words_to_bytes_value(written_values(records));
}


/// The most significant difference of bytes is that of the columns that hold
/// them.
pub proof fn lemma_top_difference_cols(v: Seq<u8>, m: Seq<u8>, n: int)
    requires
        0 <= n <= v.len(),
        n <= m.len(),
    ensures
        top_difference(byte_cols(v), byte_cols(m), n) == top_difference(v, m, n),
    decreases n,
{
    if n > 0 {
        lemma_top_difference_cols(v, m, n - 1);
    }
}

/// The witness of a range check over columns that hold bytes is the columns
/// of the range check of the bytes.
pub proof fn lemma_range_witness(v: Seq<u8>, m: Seq<u8>)
    requires
        v.len() == m.len(),
    ensures
        range_witness(byte_cols(v), m) == range_cols(v, m),
{
    lemma_top_difference_cols(v, m, v.len() as int);
    lemma_top_difference(v, m, v.len() as int);
    assert(Seq::new(m.len(), |i: int| m[i] as u32) =~= byte_cols(m));
    assert(range_witness(byte_cols(v), m) =~= range_cols(v, m));
}

/// Columns that hold the limbs of a reduced number stand for it as an
/// operand.
pub proof fn lemma_cols_operand(row: Seq<u32>, start: usize, field: FieldType, v: nat)
    requires
        v < field.spec_modulus(),
        row.subrange(start as int, start + field.spec_nb_limbs()) == limb_cols(
            v,
            field.spec_nb_limbs(),
        ),
    ensures
        operand_value(row, Operand::Cols { start }, field.spec_nb_limbs()) == v,
        operand_cols(row, Operand::Cols { start }, field.spec_nb_limbs()) == limb_cols(
            v,
            field.spec_nb_limbs(),
        ),
        cols_value(row.subrange(start as int, start + field.spec_nb_limbs())) == v,
{
    field.lemma_modulus();
    lemma_limb_cols_value(v, field.spec_nb_limbs());
}

/// A sub-table that holds the limbs of `a (op) b` meets its constraint.
pub proof fn lemma_field_op_holds(
    row: Seq<u32>,
    field: FieldType,
    op: FieldOperation,
    a: Operand,
    b: Operand,
    result: usize,
)
    requires
        row.subrange(result as int, result + field.spec_nb_limbs()) == limb_cols(
            field_op_value(
                op,
                operand_value(row, a, field.spec_nb_limbs()),
                operand_value(row, b, field.spec_nb_limbs()),
                field.spec_modulus(),
            ),
            field.spec_nb_limbs(),
        ),
    ensures
        constraint_holds(row, field, Constraint::FieldOp { op, a, b, result }),
{
    let n = field.spec_nb_limbs();
    let v = field_op_value(
        op,
        operand_value(row, a, n),
        operand_value(row, b, n),
        field.spec_modulus(),
    );
    field.lemma_modulus();
    lemma_limb_cols_value(v, n);
}

/// A sub-table that holds the limbs of the root of `a` meets its constraint.
pub proof fn lemma_field_sqrt_holds(
    row: Seq<u32>,
    field: FieldType,
    kind: SqrtKind,
    a: Operand,
    result: usize,
)
    requires
        sqrt_value(kind, operand_value(row, a, field.spec_nb_limbs())) < field.spec_modulus(),
        row.subrange(result as int, result + field.spec_nb_limbs()) == limb_cols(
            sqrt_value(kind, operand_value(row, a, field.spec_nb_limbs())),
            field.spec_nb_limbs(),
        ),
    ensures
        constraint_holds(row, field, Constraint::FieldSqrt { kind, a, result }),
{
    let n = field.spec_nb_limbs();
    field.lemma_modulus();
    lemma_limb_cols_value(sqrt_value(kind, operand_value(row, a, n)), n);
}

} // verus!
