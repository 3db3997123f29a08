//! Decompression of a point of a short Weierstrass curve `y^2 = x^3 + b`:
//! from the `x` of the point and the parity of its `y`, the `y`.
//!
//! The point lies in a slot of two field elements. The upper half holds
//! `x`; the lower half is overwritten with `y`.

use num::BigUint;
use p3_matrix::dense::RowMajorMatrix;
use vstd::prelude::*;

use crate::air::constraints::{
    constraint_holds, constraints_hold, lemma_cols_operand, lemma_field_op_holds,
    lemma_field_sqrt_holds, lemma_limb_cols_value, lemma_read_operand, lemma_write_operands,
    operand_cols, operand_value, receives_one_syscall, Constraint, Gate, Operand, SqrtKind,
    SyscallCode, IS_REAL_COL,
};
use crate::bytes::{counts_positive, record_lookups, ByteLookupEvent};
use crate::memory::columns::{
    lemma_access_lens, populate_reads, populate_writes, read_values, reads_cols, reads_lookups,
    writes_cols, writes_lookups, written_values,
};
use crate::operations::field::field_op::{
    byte_cols, field_op_value, limb_cols, populate_field_op, populate_value, range_lookups,
    FieldOperation,
};
use crate::operations::field::params::{small_biguint, CurveType, FieldType};
use crate::runtime::bulk::{has_room, keys_of};
use crate::runtime::memory::{reads_in_shard, writes_in_shard, MemoryReadRecord, MemoryWriteRecord};
use crate::runtime::record::ExecutionRecord;
use crate::syscall::precompiles::slot::{slot_records, word_addr};
use crate::utils::bigint::{biguint_value, bytes_value, from_bytes_le, limbs_of};
use crate::utils::ec::{
    lemma_weierstrass_decompress_y, weierstrass_decompress, weierstrass_decompress_y,
    weierstrass_rhs, weierstrass_sqrt, weierstrass_sqrt_spec,
};
use crate::utils::limbs::{
    bytes_to_words, bytes_to_words_le, lemma_bytes_to_words_round_trip, lemma_bytes_value_bound,
    lemma_limbs_of_bytes, lemma_limbs_value, pow256, to_limbs, words_to_bytes, words_to_bytes_le,
};
use crate::utils::trace::{
    flatten, lemma_append_assoc, lemma_flatten_push, matrix_values, matrix_width, next_pow2,
    pad_to_matrix, padded,
};

verus! {

/// One decompression: the `x` that was read, the parity asked of `y`, the `y`
/// that was written, and the memory accesses that did so.
#[derive(Clone, Debug)]
pub struct WeierstrassDecompressEvent {
    pub shard: u32,
    pub clk: u32,
    pub ptr: u32,
    pub is_odd: bool,
    pub x_bytes: Vec<u8>,
    pub decompressed_y_bytes: Vec<u8>,
    pub x_memory_records: Vec<MemoryReadRecord>,
    pub y_memory_records: Vec<MemoryWriteRecord>,
}

/// A decompression on secp256k1.
pub type Secp256k1DecompressEvent = WeierstrassDecompressEvent;

/// A decompression on the group G1 of BLS12-381.
pub type Bls12381G1DecompressEvent = WeierstrassDecompressEvent;

/// Where each group of columns begins in a row of the chip. The row holds,
/// in this order: the flag that tells the row of an event from a padding
/// row, the shard, the clock, the pointer and the parity asked for; the reads
/// of `x` and the writes of `y`; the sub-tables `x^2`, `x^3`, `x^3 + b`, the
/// root `y` and `-y`; and the bits of the least significant byte of `y`.
#[derive(Clone, Copy, Debug, PartialEq, Eq, Structural)]
pub struct WeierstrassDecompressCols {
    pub is_real: usize,
    pub shard: usize,
    pub clk: usize,
    pub ptr: usize,
    pub is_odd: usize,
    pub x_access: usize,
    pub y_access: usize,
    pub x_2: usize,
    pub x_3: usize,
    pub x_3_plus_b: usize,
    pub y: usize,
    pub neg_y: usize,
    pub y_least_bits: usize,
}

/// The chip that proves decompressions on one curve.
#[derive(Clone, Copy, Debug)]
pub struct WeierstrassDecompressChip {
    pub curve: CurveType,
}

/// Number of columns before the memory accesses: `is_real`, `shard`, `clk`,
/// `ptr` and `is_odd`.
pub const WEIERSTRASS_SCALAR_COLS: usize = 5;

impl WeierstrassDecompressCols {
    /// The layout of a row for `curve`.
    pub open spec fn spec_new(curve: CurveType) -> WeierstrassDecompressCols {
        let n = curve.spec_base_field().spec_nb_limbs();
        WeierstrassDecompressCols {
            is_real: 0,
            shard: 1,
            clk: 2,
            ptr: 3,
            is_odd: 4,
            x_access: 5,
            y_access: (5 + n) as usize,
            x_2: (5 + 3 * n) as usize,
            x_3: (5 + 4 * n) as usize,
            x_3_plus_b: (5 + 5 * n) as usize,
            y: (5 + 6 * n) as usize,
            neg_y: (5 + 7 * n) as usize,
            y_least_bits: (5 + 8 * n) as usize,
        }
    }

    /// The layout of a row for `curve`.
    pub fn new(curve: CurveType) -> (cols: Self)
        requires
            curve.spec_weierstrass(),
        ensures
            cols == WeierstrassDecompressCols::spec_new(curve),
    {
        let n = curve.base_field().nb_limbs();
        WeierstrassDecompressCols {
            is_real: 0,
            shard: 1,
            clk: 2,
            ptr: 3,
            is_odd: 4,
            x_access: WEIERSTRASS_SCALAR_COLS,
            y_access: WEIERSTRASS_SCALAR_COLS + n,
            x_2: WEIERSTRASS_SCALAR_COLS + 3 * n,
            x_3: WEIERSTRASS_SCALAR_COLS + 4 * n,
            x_3_plus_b: WEIERSTRASS_SCALAR_COLS + 5 * n,
            y: WEIERSTRASS_SCALAR_COLS + 6 * n,
            neg_y: WEIERSTRASS_SCALAR_COLS + 7 * n,
            y_least_bits: WEIERSTRASS_SCALAR_COLS + 8 * n,
        }
    }
}

/// The root that the columns hold: the square root that is tried, or zero
/// where it is none.
pub open spec fn weierstrass_root(curve: CurveType, x: nat) -> nat {
    match weierstrass_sqrt_spec(curve, weierstrass_rhs(curve, x)) {
        Some(r) => r,
        None => 0,
    }
}

/// The eight bits of a byte as columns, the least significant first.
pub open spec fn bit_cols(b: u8) -> Seq<u32> {
    seq![
        (b % 2) as u32,
        ((b / 2) % 2) as u32,
        ((b / 4) % 2) as u32,
        ((b / 8) % 2) as u32,
        ((b / 16) % 2) as u32,
        ((b / 32) % 2) as u32,
        ((b / 64) % 2) as u32,
        ((b / 128) % 2) as u32,
    ]
}

/// `x^2`, reduced.
pub open spec fn weierstrass_x_2(curve: CurveType, x: nat) -> nat {
    field_op_value(FieldOperation::Mul, x, x, curve.spec_base_field().spec_modulus())
}

/// `x^3`, reduced.
pub open spec fn weierstrass_x_3(curve: CurveType, x: nat) -> nat {
    field_op_value(
        FieldOperation::Mul,
        weierstrass_x_2(curve, x),
        x,
        curve.spec_base_field().spec_modulus(),
    )
}

/// The negative of the root, reduced.
pub open spec fn weierstrass_neg_root(curve: CurveType, x: nat) -> nat {
    field_op_value(
        FieldOperation::Sub,
        0,
        weierstrass_root(curve, x),
        curve.spec_base_field().spec_modulus(),
    )
}

/// The columns of the field operations for the given `x`: `x^2`, `x^3`,
/// `x^3 + b`, the root `y`, `-y`, and the bits of the least significant byte
/// of `y`.
pub open spec fn weierstrass_field_cols(curve: CurveType, x: nat) -> Seq<u32> {
    let n = curve.spec_base_field().spec_nb_limbs();
    limb_cols(weierstrass_x_2(curve, x), n) + limb_cols(weierstrass_x_3(curve, x), n) + limb_cols(
        weierstrass_rhs(curve, x),
        n,
    ) + limb_cols(weierstrass_root(curve, x), n) + limb_cols(weierstrass_neg_root(curve, x), n)
        + bit_cols(limbs_of(weierstrass_root(curve, x), n)[0])
}

/// The lookups of the field operations for the given `x`, in the order of the
/// columns.
pub open spec fn weierstrass_field_lookups(curve: CurveType, shard: u32, x: nat) -> Seq<
    ByteLookupEvent,
> {
    let n = curve.spec_base_field().spec_nb_limbs();
    range_lookups(shard, limbs_of(weierstrass_x_2(curve, x), n)) + range_lookups(
        shard,
        limbs_of(weierstrass_x_3(curve, x), n),
    ) + range_lookups(shard, limbs_of(weierstrass_rhs(curve, x), n)) + range_lookups(
        shard,
        limbs_of(weierstrass_root(curve, x), n),
    ) + range_lookups(shard, limbs_of(weierstrass_neg_root(curve, x), n))
}

impl WeierstrassDecompressEvent {
    /// The bytes and the memory accesses have one entry for each byte and
    /// each word of a field element.
    pub open spec fn wf(self, curve: CurveType) -> bool {
        let n = curve.spec_base_field().spec_nb_limbs();
        &&& self.x_bytes@.len() == n
        &&& self.decompressed_y_bytes@.len() == n
        &&& self.x_memory_records@.len() * 4 == n
        &&& self.y_memory_records@.len() * 4 == n
    }

    /// The `x` that the columns are computed from.
    pub open spec fn spec_x(self) -> nat {
        bytes_value(self.x_bytes@)
    }

    /// The row of the event.
    pub open spec fn spec_row(self, curve: CurveType) -> Seq<u32> {
        seq![
            1u32,
            self.shard,
            self.clk,
            self.ptr,
            if self.is_odd {
                1u32
            } else {
                0u32
            },
        ] + reads_cols(self.x_memory_records@) + writes_cols(self.y_memory_records@)
            + weierstrass_field_cols(curve, self.spec_x())
    }

    /// The byte lookups that the row of the event gives rise to.
    pub open spec fn spec_lookups(self, curve: CurveType) -> Seq<ByteLookupEvent> {
        reads_lookups(self.x_memory_records@) + writes_lookups(self.y_memory_records@)
            + weierstrass_field_lookups(curve, self.shard, self.spec_x())
    }
}

/// The columns of the field operations take five field elements and eight
/// bits.
pub proof fn lemma_weierstrass_field_cols_len(curve: CurveType, x: nat)
    ensures
        weierstrass_field_cols(curve, x).len() == 5 * curve.spec_base_field().spec_nb_limbs() + 8,
{
    let n = curve.spec_base_field().spec_nb_limbs();
    lemma_limbs_value(weierstrass_x_2(curve, x), n);
    lemma_limbs_value(weierstrass_x_3(curve, x), n);
    lemma_limbs_value(weierstrass_rhs(curve, x), n);
    lemma_limbs_value(weierstrass_root(curve, x), n);
    lemma_limbs_value(weierstrass_neg_root(curve, x), n);
}

/// Appends the eight bits of `b` as columns.
fn push_bit_cols(values: &mut Vec<u32>, b: u8)
    ensures
        final(values)@ == old(values)@ + bit_cols(b),
{
    values.push((b % 2) as u32);
    values.push(((b / 2) % 2) as u32);
    values.push(((b / 4) % 2) as u32);
    values.push(((b / 8) % 2) as u32);
    values.push(((b / 16) % 2) as u32);
    values.push(((b / 32) % 2) as u32);
    values.push(((b / 64) % 2) as u32);
    values.push(((b / 128) % 2) as u32);
    assert(values@ =~= old(values)@ + bit_cols(b));
}

impl WeierstrassDecompressChip {
    /// The number of columns of a row.
    pub open spec fn spec_width(self) -> nat {
        5 + 12 * (self.curve.spec_base_field().spec_nb_limbs() / 4) + 5
            * self.curve.spec_base_field().spec_nb_limbs() + 8
    }

    /// The padding row: nothing real, the `x` of the generator where `x` is
    /// read, and the field operations for that `x`, so that the row holds a
    /// point of the curve.
    pub open spec fn spec_padding(self) -> Seq<u32> {
        let n = self.curve.spec_base_field().spec_nb_limbs();
        Seq::new(5, |i: int| 0u32) + byte_cols(self.curve.spec_generator_x_bytes()) + Seq::new(
            2 * n,
            |i: int| 0u32,
        ) + weierstrass_field_cols(self.curve, bytes_value(self.curve.spec_generator_x_bytes()))
    }

    /// The rows of the events, in the order of the events.
    pub open spec fn spec_rows(self, events: Seq<WeierstrassDecompressEvent>) -> Seq<Seq<u32>> {
        Seq::new(events.len(), |i: int| events[i].spec_row(self.curve))
    }

    /// The byte lookups of the events, in the order of the events.
    pub open spec fn spec_lookups(self, events: Seq<WeierstrassDecompressEvent>) -> Seq<
        ByteLookupEvent,
    >
        decreases events.len(),
    {
        if events.len() == 0 {
            Seq::empty()
        } else {
            self.spec_lookups(events.drop_last()) + events.last().spec_lookups(self.curve)
        }
    }

    /// The events of the chip's curve in `record`.
    pub open spec fn spec_events(self, record: ExecutionRecord) -> Seq<WeierstrassDecompressEvent> {
        match self.curve {
            CurveType::Secp256k1 => record.secp256k1_decompress_events@,
            _ => record.bls12381_g1_decompress_events@,
        }
    }

    /// The chip for `curve`.
    pub fn new(curve: CurveType) -> (chip: Self)
        ensures
            chip.curve == curve,
    {
        WeierstrassDecompressChip { curve }
    }

    /// The display name of the chip.
    pub fn name(&self) -> (name: String)
        requires
            self.curve.spec_weierstrass(),
        ensures
            self.curve == CurveType::Secp256k1 ==> name@ == "Secp256k1Decompress"@,
            self.curve == CurveType::Bls12381 ==> name@ == "Bls12381Decompress"@,
    {
        match self.curve {
            CurveType::Secp256k1 => "Secp256k1Decompress".to_string(),
            _ => "Bls12381Decompress".to_string(),
        }
    }

    /// The number of columns of a row.
    pub fn width(&self) -> (w: usize)
        requires
            self.curve.spec_weierstrass(),
        ensures
            w == self.spec_width(),
    {
        let field = self.curve.base_field();
        WEIERSTRASS_SCALAR_COLS + 12 * field.nb_words() + 5 * field.nb_limbs() + 8
    }

    /// Whether the shard holds an event of this chip.
    pub fn included(&self, shard: &ExecutionRecord) -> (r: bool)
        requires
            self.curve.spec_weierstrass(),
        ensures
            r == (self.spec_events(*shard).len() > 0),
    {
        match self.curve {
            CurveType::Secp256k1 => !shard.secp256k1_decompress_events.is_empty(),
            _ => !shard.bls12381_g1_decompress_events.is_empty(),
        }
    }

    /// Decompresses the point whose `x` was read as `x_words` from the upper
    /// half of the slot at `ptr`: computes the `y` of the parity `is_odd` and
    /// gives the event of reading `x` and writing `y` over `y_prev`, the words
    /// in the lower half. `None` where no point of the curve has this `x`.
    ///
    /// The `y` that is written lies with `x` on the curve, and unless the only
    /// root is zero its parity is the one that was asked for.
    pub fn create_decompress_event(
        &self,
        shard: u32,
        clk: u32,
        ptr: u32,
        is_odd: bool,
        x_words: &Vec<u32>,
        y_prev: &Vec<u32>,
    ) -> (r: Option<WeierstrassDecompressEvent>)
        requires
            self.curve.spec_weierstrass(),
            ptr % 4 == 0,
            x_words@.len() * 4 == self.curve.spec_base_field().spec_nb_limbs(),
            y_prev@.len() * 4 == self.curve.spec_base_field().spec_nb_limbs(),
            ptr + 2 * self.curve.spec_base_field().spec_nb_limbs() <= u32::MAX,
        ensures
            r is Some <==> weierstrass_decompress_y(
                self.curve,
                bytes_value(words_to_bytes(x_words@)),
                is_odd,
            ) is Some,
            r matches Some(event) ==> {
                &&& event.wf(self.curve)
                &&& event.consistent(self.curve)
                &&& reads_in_shard(event.x_memory_records@, shard)
                &&& writes_in_shard(event.y_memory_records@, shard)
                &&& event.shard == shard
                &&& event.clk == clk
                &&& event.ptr == ptr
                &&& event.is_odd == is_odd
                &&& event.x_bytes@ == words_to_bytes(x_words@)
                &&& weierstrass_decompress_y(self.curve, event.spec_x(), is_odd) == Some(
                    bytes_value(event.decompressed_y_bytes@),
                )
                &&& event.decompressed_y_bytes@ == limbs_of(
                    bytes_value(event.decompressed_y_bytes@),
                    self.curve.spec_base_field().spec_nb_limbs(),
                )
                &&& bytes_value(event.decompressed_y_bytes@)
                    < self.curve.spec_base_field().spec_modulus()
                &&& (bytes_value(event.decompressed_y_bytes@) * bytes_value(
                    event.decompressed_y_bytes@,
                )) % self.curve.spec_base_field().spec_modulus() == (event.spec_x()
                    * event.spec_x() * event.spec_x() + self.curve.spec_b())
                    % self.curve.spec_base_field().spec_modulus()
                &&& weierstrass_root(self.curve, event.spec_x()) != 0 ==> (bytes_value(
                    event.decompressed_y_bytes@,
                ) % 2 == 1) == is_odd
                &&& forall|i: int|
                    0 <= i < x_words@.len() ==> #[trigger] event.x_memory_records@[i] == (
                    MemoryReadRecord {
                        shard,
                        clk,
                        addr: word_addr(ptr, i + x_words@.len()),
                        value: x_words@[i],
                    })
                &&& forall|i: int|
                    0 <= i < y_prev@.len() ==> #[trigger] event.y_memory_records@[i] == (
                    MemoryWriteRecord {
                        shard,
                        clk,
                        addr: word_addr(ptr, i),
                        prev_value: y_prev@[i],
                        value: bytes_to_words(event.decompressed_y_bytes@)[i],
                    })
            },
    {
        let field = self.curve.base_field();
        let limbs = field.nb_limbs();
        let words = field.nb_words();
        let x_bytes = words_to_bytes_le(x_words);
        let x = from_bytes_le(x_bytes.as_slice());
        let y = match weierstrass_decompress(self.curve, &x, is_odd) {
            Some(y) => y,
            None => {
                return None;
            },
        };
        let decompressed_y_bytes = to_limbs(&y, limbs);
        let y_words = bytes_to_words_le(&decompressed_y_bytes);
        proof {
            lemma_weierstrass_decompress_y(self.curve, biguint_value(x), is_odd);
            field.lemma_modulus();
            lemma_limbs_value(biguint_value(y), limbs as nat);
        }
        let (x_memory_records, y_memory_records) = slot_records(
            shard,
            clk,
            ptr,
            x_words,
            y_prev,
            &y_words,
        );
        Some(
            WeierstrassDecompressEvent {
                shard,
                clk,
                ptr,
                is_odd,
                x_bytes,
                decompressed_y_bytes,
                x_memory_records,
                y_memory_records,
            },
        )
    }

    /// Appends the columns of the field operations for `x`, and their
    /// lookups.
    fn populate_field_ops(
        &self,
        values: &mut Vec<u32>,
        lookups: &mut Vec<ByteLookupEvent>,
        shard: u32,
        x: &BigUint,
    )
        requires
            self.curve.spec_weierstrass(),
        ensures
            final(values)@ == old(values)@ + weierstrass_field_cols(self.curve, biguint_value(*x)),
            final(lookups)@ == old(lookups)@ + weierstrass_field_lookups(
                self.curve,
                shard,
                biguint_value(*x),
            ),
    {
        let curve = self.curve;
        let field = curve.base_field();
        let zero = small_biguint(0);
        let b = curve.b();
        let ghost xv = biguint_value(*x);
        let ghost n = field.spec_nb_limbs();
        let ghost v0 = values@;
        let ghost l0 = lookups@;
        let x_2 = populate_field_op(values, lookups, shard, field, x, x, FieldOperation::Mul);
        let ghost cols_1 = limb_cols(weierstrass_x_2(curve, xv), n);
        let ghost lookups_1 = range_lookups(shard, limbs_of(weierstrass_x_2(curve, xv), n));
        let x_3 = populate_field_op(values, lookups, shard, field, &x_2, x, FieldOperation::Mul);
        let ghost cols_2 = cols_1 + limb_cols(weierstrass_x_3(curve, xv), n);
        let ghost lookups_2 = lookups_1 + range_lookups(
            shard,
            limbs_of(weierstrass_x_3(curve, xv), n),
        );
        proof {
            lemma_append_assoc(v0, cols_1, limb_cols(weierstrass_x_3(curve, xv), n));
            lemma_append_assoc(
                l0,
                lookups_1,
                range_lookups(shard, limbs_of(weierstrass_x_3(curve, xv), n)),
            );
        }
        let rhs = populate_field_op(values, lookups, shard, field, &x_3, &b, FieldOperation::Add);
        let ghost cols_3 = cols_2 + limb_cols(weierstrass_rhs(curve, xv), n);
        let ghost lookups_3 = lookups_2 + range_lookups(
            shard,
            limbs_of(weierstrass_rhs(curve, xv), n),
        );
        proof {
            lemma_append_assoc(v0, cols_2, limb_cols(weierstrass_rhs(curve, xv), n));
            lemma_append_assoc(
                l0,
                lookups_2,
                range_lookups(shard, limbs_of(weierstrass_rhs(curve, xv), n)),
            );
        }
        let y = match weierstrass_sqrt(curve, &rhs) {
            Some(root) => root,
            None => small_biguint(0),
        };
        populate_value(values, lookups, shard, field, &y);
        let ghost cols_4 = cols_3 + limb_cols(weierstrass_root(curve, xv), n);
        let ghost lookups_4 = lookups_3 + range_lookups(
            shard,
            limbs_of(weierstrass_root(curve, xv), n),
        );
        proof {
            lemma_append_assoc(v0, cols_3, limb_cols(weierstrass_root(curve, xv), n));
            lemma_append_assoc(
                l0,
                lookups_3,
                range_lookups(shard, limbs_of(weierstrass_root(curve, xv), n)),
            );
        }
        let _ = populate_field_op(values, lookups, shard, field, &zero, &y, FieldOperation::Sub);
        let ghost cols_5 = cols_4 + limb_cols(weierstrass_neg_root(curve, xv), n);
        proof {
            lemma_append_assoc(v0, cols_4, limb_cols(weierstrass_neg_root(curve, xv), n));
            lemma_append_assoc(
                l0,
                lookups_4,
                range_lookups(shard, limbs_of(weierstrass_neg_root(curve, xv), n)),
            );
        }
        // The bits of the least significant byte of y.
        let y_limbs = to_limbs(&y, field.nb_limbs());
        push_bit_cols(values, y_limbs[0]);
        proof {
            lemma_append_assoc(v0, cols_5, bit_cols(y_limbs@[0]));
        }
    }

    /// Appends the row of `event` to `values`, and its lookups to `lookups`.
    pub fn populate_row(
        &self,
        event: &WeierstrassDecompressEvent,
        values: &mut Vec<u32>,
        lookups: &mut Vec<ByteLookupEvent>,
    )
        requires
            self.curve.spec_weierstrass(),
            event.wf(self.curve),
        ensures
            final(values)@ == old(values)@ + event.spec_row(self.curve),
            final(lookups)@ == old(lookups)@ + event.spec_lookups(self.curve),
            event.spec_row(self.curve).len() == self.spec_width(),
    {
        let ghost v0 = values@;
        let ghost l0 = lookups@;
        values.push(1);
        values.push(event.shard);
        values.push(event.clk);
        values.push(event.ptr);
        values.push(
            if event.is_odd {
                1
            } else {
                0
            },
        );
        let ghost scalars = seq![
            1u32,
            event.shard,
            event.clk,
            event.ptr,
            if event.is_odd {
                1u32
            } else {
                0u32
            },
        ];
        assert(values@ =~= v0 + scalars);
        populate_reads(values, lookups, &event.x_memory_records);
        populate_writes(values, lookups, &event.y_memory_records);
        let x = from_bytes_le(event.x_bytes.as_slice());
        self.populate_field_ops(values, lookups, event.shard, &x);
        proof {
            let reads = reads_cols(event.x_memory_records@);
            let writes = writes_cols(event.y_memory_records@);
            let ops = weierstrass_field_cols(self.curve, event.spec_x());
            lemma_append_assoc(v0, scalars, reads);
            lemma_append_assoc(v0, scalars + reads, writes);
            lemma_append_assoc(v0, scalars + reads + writes, ops);
            let rl = reads_lookups(event.x_memory_records@);
            let wl = writes_lookups(event.y_memory_records@);
            let ol = weierstrass_field_lookups(self.curve, event.shard, event.spec_x());
            lemma_append_assoc(l0, rl, wl);
            lemma_append_assoc(l0, rl + wl, ol);
            lemma_access_lens(event.x_memory_records@, event.y_memory_records@);
            lemma_weierstrass_field_cols_len(self.curve, event.spec_x());
        }
    }

    /// The padding row.
    pub fn padding_row(&self) -> (row: Vec<u32>)
        requires
            self.curve.spec_weierstrass(),
        ensures
            row@ == self.spec_padding(),
            row@.len() == self.spec_width(),
    {
        let field = self.curve.base_field();
        let limbs = field.nb_limbs();
        let x = self.curve.generator_x();
        let x_limbs = self.curve.generator_x_limbs();
        let mut row: Vec<u32> = Vec::new();
        let mut i: usize = 0;
        while i < WEIERSTRASS_SCALAR_COLS
            invariant
                0 <= i <= 5,
                row@ == Seq::new(i as nat, |k: int| 0u32),
            decreases 5 - i,
        {
            row.push(0);
            i = i + 1;
            assert(row@ =~= Seq::new(i as nat, |k: int| 0u32));
        }
        let ghost zeros_1 = row@;
        let mut j: usize = 0;
        while j < limbs
            invariant
                0 <= j <= limbs,
                limbs == x_limbs@.len(),
                row@ == zeros_1 + byte_cols(x_limbs@).subrange(0, j as int),
            decreases limbs - j,
        {
            row.push(x_limbs[j] as u32);
            j = j + 1;
            assert(row@ =~= zeros_1 + byte_cols(x_limbs@).subrange(0, j as int));
        }
        assert(byte_cols(x_limbs@).subrange(0, j as int) =~= byte_cols(x_limbs@));
        let ghost with_x = row@;
        let mut k: usize = 0;
        while k < 2 * limbs
            invariant
                0 <= k <= 2 * limbs,
                limbs <= 48,
                row@ == with_x + Seq::new(k as nat, |t: int| 0u32),
            decreases 2 * limbs - k,
        {
            row.push(0);
            k = k + 1;
            assert(row@ =~= with_x + Seq::new(k as nat, |t: int| 0u32));
        }
        let mut unused: Vec<ByteLookupEvent> = Vec::new();
        self.populate_field_ops(&mut row, &mut unused, 0, &x);
        proof {
            lemma_weierstrass_field_cols_len(self.curve, biguint_value(x));
        }
        row
    }

    /// Lays the decompressions of `input` on the chip's curve out as a trace:
    /// one row for each event, in the order of the events, then padding rows
    /// up to the next power of two. The byte lookups of the rows of the events
    /// are counted in `output`.
    pub fn generate_trace(&self, input: &ExecutionRecord, output: &mut ExecutionRecord) -> (trace:
        RowMajorMatrix<u32>)
        requires
            self.curve.spec_weierstrass(),
            forall|i: int|
                0 <= i < self.spec_events(*input).len() ==> (#[trigger] self.spec_events(
                    *input,
                )[i]).wf(self.curve),
            next_pow2(self.spec_events(*input).len()) <= usize::MAX,
            has_room(old(output).lookups(), self.spec_lookups(self.spec_events(*input)).len()),
        ensures
            matrix_width(trace) == self.spec_width(),
            matrix_values(trace) == flatten(
                padded(self.spec_rows(self.spec_events(*input)), self.spec_padding()),
            ),
            matrix_values(trace).len() == next_pow2(self.spec_events(*input).len())
                * self.spec_width(),
            final(output).lookups() == record_lookups(
                old(output).lookups(),
                keys_of(self.spec_lookups(self.spec_events(*input))),
            ),
            counts_positive(old(output).lookups()) ==> counts_positive(final(output).lookups()),
            *final(output) == (ExecutionRecord {
                byte_lookups: final(output).byte_lookups,
                ..*old(output)
            }),
    {
        let events = match self.curve {
            CurveType::Secp256k1 => &input.secp256k1_decompress_events,
            _ => &input.bls12381_g1_decompress_events,
        };
        let mut values: Vec<u32> = Vec::new();
        let mut lookups: Vec<ByteLookupEvent> = Vec::new();
        let mut i: usize = 0;
        let ghost mut rows: Seq<Seq<u32>> = Seq::empty();
        assert(events@.subrange(0, 0) =~= Seq::<WeierstrassDecompressEvent>::empty());
        while i < events.len()
            invariant
                0 <= i <= events@.len(),
                self.curve.spec_weierstrass(),
                forall|k: int| 0 <= k < events@.len() ==> (#[trigger] events@[k]).wf(self.curve),
                rows == self.spec_rows(events@).subrange(0, i as int),
                forall|k: int|
                    0 <= k < rows.len() ==> (#[trigger] rows[k]).len() == self.spec_width(),
                values@ == flatten(rows),
                lookups@ == self.spec_lookups(events@.subrange(0, i as int)),
            decreases events@.len() - i,
        {
            let event = &events[i];
            self.populate_row(event, &mut values, &mut lookups);
            proof {
                lemma_flatten_push(rows, event.spec_row(self.curve));
                rows = rows.push(event.spec_row(self.curve));
                assert(rows =~= self.spec_rows(events@).subrange(0, i + 1));
                let done = events@.subrange(0, i + 1);
                assert(done.drop_last() =~= events@.subrange(0, i as int));
                assert(done.last() == events@[i as int]);
            }
            i = i + 1;
        }
        proof {
            assert(rows =~= self.spec_rows(events@));
            assert(events@.subrange(0, i as int) =~= events@);
        }
        output.add_byte_lookup_events(lookups);
        let padding = self.padding_row();
        pad_to_matrix(values, &padding, events.len(), Ghost(rows))
    }
}


/// The column that holds the pointer to the slot.
pub const WEIERSTRASS_PTR_COL: usize = 3;

/// The column that holds the parity asked of `y`.
pub const WEIERSTRASS_IS_ODD_COL: usize = 4;

/// The column at which the reads of `x` begin.
pub const WEIERSTRASS_X_ACCESS: usize = 5;

impl WeierstrassDecompressEvent {
    /// The root that is written for the `x` of the event: the root that has
    /// the parity of the event.
    pub open spec fn spec_written_y(self, curve: CurveType) -> nat {
        if (weierstrass_root(curve, self.spec_x()) % 2 == 1) == self.is_odd {
            weierstrass_root(curve, self.spec_x())
        } else {
            weierstrass_neg_root(curve, self.spec_x())
        }
    }

    /// The memory accesses are those of the point: the bytes of `x` were
    /// read, and the root with the parity of the event was written.
    pub open spec fn consistent(self, curve: CurveType) -> bool {
        &&& words_to_bytes(read_values(self.x_memory_records@)) == self.x_bytes@
        &&& written_values(self.y_memory_records@) == bytes_to_words(
            limbs_of(self.spec_written_y(curve), curve.spec_base_field().spec_nb_limbs()),
        )
    }
}

impl WeierstrassDecompressChip {
    /// The column at which the writes of `y` begin.
    pub open spec fn spec_y_access(self) -> nat {
        5 + self.curve.spec_base_field().spec_nb_limbs()
    }

    /// The column at which the sub-table number `k` begins: `x^2`, `x^3`,
    /// `x^3 + b`, the root `y`, `-y`, and then the bits of `y`.
    pub open spec fn spec_sub_table(self, k: nat) -> nat {
        5 + (3 + k) * self.curve.spec_base_field().spec_nb_limbs()
    }

    /// The number by which the guest names the precompile of the curve.
    pub open spec fn spec_syscall_id(self) -> u32 {
        match self.curve {
            CurveType::Secp256k1 => SyscallCode::SECP256K1_DECOMPRESS.spec_syscall_id(),
            _ => SyscallCode::BLS12381_DECOMPRESS.spec_syscall_id(),
        }
    }

    /// The constraints on the sub-tables and on what is written: the two
    /// flags are 0 or 1; each sub-table holds its operation on the sub-tables
    /// before it; on the row of an event the bits are those of the least
    /// significant byte of the root, and what is written is the root where
    /// its parity is the one asked for, and its negative where it is not.
    pub open spec fn spec_field_constraints(self) -> Seq<Constraint> {
        let x = Operand::ReadValue { start: WEIERSTRASS_X_ACCESS };
        let written = Operand::WriteValue { start: self.spec_y_access() as usize };
        let x_2 = self.spec_sub_table(0) as usize;
        let x_3 = self.spec_sub_table(1) as usize;
        let rhs = self.spec_sub_table(2) as usize;
        let y = self.spec_sub_table(3) as usize;
        let neg_y = self.spec_sub_table(4) as usize;
        let bits = self.spec_sub_table(5) as usize;
        seq![
            Constraint::Bool { col: IS_REAL_COL, gate: Gate::Always },
            Constraint::Bool { col: WEIERSTRASS_IS_ODD_COL, gate: Gate::Always },
            Constraint::FieldOp { op: FieldOperation::Mul, a: x, b: x, result: x_2 },
            Constraint::FieldOp {
                op: FieldOperation::Mul,
                a: Operand::Cols { start: x_2 },
                b: x,
                result: x_3,
            },
            Constraint::FieldOp {
                op: FieldOperation::Add,
                a: Operand::Cols { start: x_3 },
                b: Operand::Small { value: self.curve.spec_b() as u8 },
                result: rhs,
            },
            Constraint::FieldSqrt {
                kind: SqrtKind::Weierstrass { curve: self.curve },
                a: Operand::Cols { start: rhs },
                result: y,
            },
            Constraint::FieldOp {
                op: FieldOperation::Sub,
                a: Operand::Small { value: 0 },
                b: Operand::Cols { start: y },
                result: neg_y,
            },
            Constraint::ByteBits { bits, byte: y, gate: Gate::Real },
            Constraint::LimbsEqual {
                a: Operand::Cols { start: y },
                b: written,
                gate: Gate::RealAndDiffersFromNot { a: bits, b: WEIERSTRASS_IS_ODD_COL },
            },
            Constraint::LimbsEqual {
                a: Operand::Cols { start: neg_y },
                b: written,
                gate: Gate::RealAndDiffers { a: bits, b: WEIERSTRASS_IS_ODD_COL },
            },
        ]
    }

    /// The constraints on memory and the call: the words of `x` are read in
    /// the upper half of the slot and the words of `y` written in the lower
    /// half, all at the clock of the row; and the row answers one call of the
    /// precompile, with the pointer and the parity as arguments.
    pub open spec fn spec_memory_constraints(self) -> Seq<Constraint> {
        let n = self.curve.spec_base_field().spec_nb_limbs();
        Seq::new(
            n / 4,
            |i: int|
                Constraint::MemoryRead {
                    cols: (WEIERSTRASS_X_ACCESS + 4 * i) as usize,
                    ptr: WEIERSTRASS_PTR_COL,
                    offset: (4 * i + n) as u32,
                    clk_offset: 0,
                },
        ) + Seq::new(
            n / 4,
            |i: int|
                Constraint::MemoryWrite {
                    cols: (self.spec_y_access() + 8 * i) as usize,
                    ptr: WEIERSTRASS_PTR_COL,
                    offset: (4 * i) as u32,
                    clk_offset: 0,
                },
        ) + seq![
            Constraint::ReceiveSyscall {
                syscall_id: self.spec_syscall_id(),
                arg1: WEIERSTRASS_PTR_COL,
                arg2: WEIERSTRASS_IS_ODD_COL,
            },
        ]
    }

    /// What the chip asks of a row.
    pub open spec fn spec_constraints(self) -> Seq<Constraint> {
        self.spec_field_constraints() + self.spec_memory_constraints()
    }

    /// What the chip asks of a row.
    pub fn eval(&self) -> (constraints: Vec<Constraint>)
        requires
            self.curve.spec_weierstrass(),
        ensures
            constraints@ == self.spec_constraints(),
            receives_one_syscall(constraints@),
    {
        let field = self.curve.base_field();
        let n = field.nb_limbs();
        let words = field.nb_words();
        let cols = WeierstrassDecompressCols::new(self.curve);
        let x = Operand::ReadValue { start: cols.x_access };
        let y_access = cols.y_access;
        let written = Operand::WriteValue { start: y_access };
        let x_2 = cols.x_2;
        let x_3 = cols.x_3;
        let rhs = cols.x_3_plus_b;
        let y = cols.y;
        let neg_y = cols.neg_y;
        let bits = cols.y_least_bits;
        let b: u8 = match self.curve {
            CurveType::Secp256k1 => 7,
            _ => 4,
        };
        let syscall_id = match self.curve {
            CurveType::Secp256k1 => SyscallCode::SECP256K1_DECOMPRESS.syscall_id(),
            _ => SyscallCode::BLS12381_DECOMPRESS.syscall_id(),
        };
        let mut constraints: Vec<Constraint> = Vec::new();
        constraints.push(Constraint::Bool { col: cols.is_real, gate: Gate::Always });
        constraints.push(Constraint::Bool { col: cols.is_odd, gate: Gate::Always });
        constraints.push(Constraint::FieldOp { op: FieldOperation::Mul, a: x, b: x, result: x_2 });
        constraints.push(
            Constraint::FieldOp {
                op: FieldOperation::Mul,
                a: Operand::Cols { start: x_2 },
                b: x,
                result: x_3,
            },
        );
        constraints.push(
            Constraint::FieldOp {
                op: FieldOperation::Add,
                a: Operand::Cols { start: x_3 },
                b: Operand::Small { value: b },
                result: rhs,
            },
        );
        constraints.push(
            Constraint::FieldSqrt {
                kind: SqrtKind::Weierstrass { curve: self.curve },
                a: Operand::Cols { start: rhs },
                result: y,
            },
        );
        constraints.push(
            Constraint::FieldOp {
                op: FieldOperation::Sub,
                a: Operand::Small { value: 0 },
                b: Operand::Cols { start: y },
                result: neg_y,
            },
        );
        constraints.push(Constraint::ByteBits { bits, byte: y, gate: Gate::Real });
        constraints.push(
            Constraint::LimbsEqual {
                a: Operand::Cols { start: y },
                b: written,
                gate: Gate::RealAndDiffersFromNot { a: bits, b: cols.is_odd },
            },
        );
        constraints.push(
            Constraint::LimbsEqual {
                a: Operand::Cols { start: neg_y },
                b: written,
                gate: Gate::RealAndDiffers { a: bits, b: cols.is_odd },
            },
        );
        assert(constraints@ =~= self.spec_field_constraints());
        let ghost memory = self.spec_memory_constraints();
        let mut i: usize = 0;
        while i < words
            invariant
                0 <= i <= words,
                words <= 12,
                n == 4 * words,
                cols == WeierstrassDecompressCols::spec_new(self.curve),
                n == self.curve.spec_base_field().spec_nb_limbs(),
                memory == self.spec_memory_constraints(),
                constraints@ == self.spec_field_constraints() + memory.subrange(0, i as int),
            decreases words - i,
        {
            constraints.push(
                Constraint::MemoryRead {
                    cols: cols.x_access + 4 * i,
                    ptr: cols.ptr,
                    offset: (4 * i + n) as u32,
                    clk_offset: 0,
                },
            );
            i = i + 1;
            assert(constraints@ =~= self.spec_field_constraints() + memory.subrange(0, i as int));
        }
        let mut j: usize = 0;
        while j < words
            invariant
                0 <= j <= words,
                words <= 12,
                n == 4 * words,
                y_access == 5 + n,
                cols == WeierstrassDecompressCols::spec_new(self.curve),
                n == self.curve.spec_base_field().spec_nb_limbs(),
                memory == self.spec_memory_constraints(),
                constraints@ == self.spec_field_constraints() + memory.subrange(0, words + j),
            decreases words - j,
        {
            constraints.push(
                Constraint::MemoryWrite {
                    cols: y_access + 8 * j,
                    ptr: cols.ptr,
                    offset: (4 * j) as u32,
                    clk_offset: 0,
                },
            );
            j = j + 1;
            assert(constraints@ =~= self.spec_field_constraints() + memory.subrange(0, words + j));
        }
        constraints.push(
            Constraint::ReceiveSyscall {
                syscall_id,
                arg1: cols.ptr,
                arg2: cols.is_odd,
            },
        );
        assert(constraints@ =~= self.spec_constraints());
        constraints
    }
}


/// A byte is made of its eight bits.
proof fn lemma_bit_cols(b: u8)
    ensures
        bit_cols(b).len() == 8,
        forall|i: int| 0 <= i < 8 ==> #[trigger] bit_cols(b)[i] <= 1,
        b as int == bit_cols(b)[0] + 2 * bit_cols(b)[1] + 4 * bit_cols(b)[2] + 8 * bit_cols(b)[3]
            + 16 * bit_cols(b)[4] + 32 * bit_cols(b)[5] + 64 * bit_cols(b)[6] + 128 * bit_cols(
            b,
        )[7],
        bit_cols(b)[0] == b % 2,
{
    assert(b == (b % 2) + 2 * ((b / 2) % 2) + 4 * ((b / 4) % 2) + 8 * ((b / 8) % 2) + 16 * ((b
        / 16) % 2) + 32 * ((b / 32) % 2) + 64 * ((b / 64) % 2) + 128 * ((b / 128) % 2))
        by (bit_vector);
}

/// The values of the sub-tables are below the modulus, so that their limbs
/// stand for them.
proof fn lemma_weierstrass_values_reduced(curve: CurveType, x: nat)
    requires
        curve.spec_weierstrass(),
    ensures
        weierstrass_x_2(curve, x) < curve.spec_base_field().spec_modulus(),
        weierstrass_x_3(curve, x) < curve.spec_base_field().spec_modulus(),
        weierstrass_rhs(curve, x) < curve.spec_base_field().spec_modulus(),
        weierstrass_root(curve, x) < curve.spec_base_field().spec_modulus(),
        weierstrass_neg_root(curve, x) < curve.spec_base_field().spec_modulus(),
        curve.spec_base_field().spec_modulus() < pow256(
            curve.spec_base_field().spec_nb_limbs(),
        ),
{
    curve.spec_base_field().lemma_modulus();
}

/// Where the sub-tables stand in a row that is laid out as the chip lays it
/// out.
proof fn lemma_weierstrass_row_segments(chip: WeierstrassDecompressChip, prefix: Seq<u32>, x: nat)
    requires
        chip.curve.spec_weierstrass(),
        prefix.len() == chip.spec_sub_table(0),
    ensures
        ({
            let row = prefix + weierstrass_field_cols(chip.curve, x);
            let n = chip.curve.spec_base_field().spec_nb_limbs();
            &&& row.len() == chip.spec_width()
            &&& row.subrange(0, prefix.len() as int) == prefix
            &&& row.subrange(chip.spec_sub_table(0) as int, chip.spec_sub_table(1) as int)
                == limb_cols(weierstrass_x_2(chip.curve, x), n)
            &&& row.subrange(chip.spec_sub_table(1) as int, chip.spec_sub_table(2) as int)
                == limb_cols(weierstrass_x_3(chip.curve, x), n)
            &&& row.subrange(chip.spec_sub_table(2) as int, chip.spec_sub_table(3) as int)
                == limb_cols(weierstrass_rhs(chip.curve, x), n)
            &&& row.subrange(chip.spec_sub_table(3) as int, chip.spec_sub_table(4) as int)
                == limb_cols(weierstrass_root(chip.curve, x), n)
            &&& row.subrange(chip.spec_sub_table(4) as int, chip.spec_sub_table(5) as int)
                == limb_cols(weierstrass_neg_root(chip.curve, x), n)
            &&& row.subrange(chip.spec_sub_table(5) as int, chip.spec_width() as int)
                == bit_cols(limbs_of(weierstrass_root(chip.curve, x), n)[0])
        }),
{
    let curve = chip.curve;
    let row = prefix + weierstrass_field_cols(curve, x);
    let n = curve.spec_base_field().spec_nb_limbs();
    let t0 = chip.spec_sub_table(0) as int;
    let t1 = chip.spec_sub_table(1) as int;
    let t2 = chip.spec_sub_table(2) as int;
    let t3 = chip.spec_sub_table(3) as int;
    let t4 = chip.spec_sub_table(4) as int;
    let t5 = chip.spec_sub_table(5) as int;
    assert(n == 32 || n == 48);
    assert(t0 == 5 + 3 * n && t1 == t0 + n && t2 == t1 + n && t3 == t2 + n && t4 == t3 + n && t5
        == t4 + n);
    lemma_limbs_value(weierstrass_x_2(curve, x), n);
    lemma_limbs_value(weierstrass_x_3(curve, x), n);
    lemma_limbs_value(weierstrass_rhs(curve, x), n);
    lemma_limbs_value(weierstrass_root(curve, x), n);
    lemma_limbs_value(weierstrass_neg_root(curve, x), n);
    lemma_bit_cols(limbs_of(weierstrass_root(curve, x), n)[0]);
    assert(row.subrange(0, prefix.len() as int) =~= prefix);
    assert(row.subrange(t0, t1) =~= limb_cols(weierstrass_x_2(curve, x), n));
    assert(row.subrange(t1, t2) =~= limb_cols(weierstrass_x_3(curve, x), n));
    assert(row.subrange(t2, t3) =~= limb_cols(weierstrass_rhs(curve, x), n));
    assert(row.subrange(t3, t4) =~= limb_cols(weierstrass_root(curve, x), n));
    assert(row.subrange(t4, t5) =~= limb_cols(weierstrass_neg_root(curve, x), n));
    assert(row.subrange(t5, chip.spec_width() as int) =~= bit_cols(
        limbs_of(weierstrass_root(curve, x), n)[0],
    ));
}

/// The sub-tables of a row that is laid out as the chip lays it out meet
/// their constraints, if the reads hold the `x` of the sub-tables.
proof fn lemma_weierstrass_sub_tables_hold(
    chip: WeierstrassDecompressChip,
    prefix: Seq<u32>,
    x: nat,
)
    requires
        chip.curve.spec_weierstrass(),
        prefix.len() == chip.spec_sub_table(0),
        x < pow256(chip.curve.spec_base_field().spec_nb_limbs()),
        prefix.subrange(5, chip.spec_y_access() as int) == limb_cols(
            x,
            chip.curve.spec_base_field().spec_nb_limbs(),
        ),
    ensures
        forall|i: int|
            2 <= i < 7 ==> constraint_holds(
                prefix + weierstrass_field_cols(chip.curve, x),
                chip.curve.spec_base_field(),
                #[trigger] chip.spec_field_constraints()[i],
            ),
{
    let curve = chip.curve;
    let field = curve.spec_base_field();
    let n = field.spec_nb_limbs();
    let row = prefix + weierstrass_field_cols(curve, x);
    let fields = chip.spec_field_constraints();
    assert(n == 32 || n == 48);
    let x_2 = chip.spec_sub_table(0) as usize;
    let x_3 = chip.spec_sub_table(1) as usize;
    let rhs = chip.spec_sub_table(2) as usize;
    let y = chip.spec_sub_table(3) as usize;
    let neg_y = chip.spec_sub_table(4) as usize;
    assert(x_2 == 5 + 3 * n && x_3 == x_2 + n && rhs == x_3 + n && y == rhs + n && neg_y == y + n);
    lemma_weierstrass_row_segments(chip, prefix, x);
    lemma_weierstrass_values_reduced(curve, x);
    let read = Operand::ReadValue { start: WEIERSTRASS_X_ACCESS };
    assert(operand_value(row, read, n) == x) by {
        assert(row.subrange(5, chip.spec_y_access() as int) =~= prefix.subrange(
            5,
            chip.spec_y_access() as int,
        ));
        lemma_limb_cols_value(x, n);
    }
    lemma_cols_operand(row, x_2, field, weierstrass_x_2(curve, x));
    lemma_cols_operand(row, x_3, field, weierstrass_x_3(curve, x));
    lemma_cols_operand(row, rhs, field, weierstrass_rhs(curve, x));
    lemma_cols_operand(row, y, field, weierstrass_root(curve, x));
    let b = Operand::Small { value: curve.spec_b() as u8 };
    let zero = Operand::Small { value: 0 };
    assert(operand_value(row, b, n) == curve.spec_b());
    lemma_field_op_holds(row, field, FieldOperation::Mul, read, read, x_2);
    lemma_field_op_holds(row, field, FieldOperation::Mul, Operand::Cols { start: x_2 }, read, x_3);
    lemma_field_op_holds(row, field, FieldOperation::Add, Operand::Cols { start: x_3 }, b, rhs);
    lemma_field_sqrt_holds(
        row,
        field,
        SqrtKind::Weierstrass { curve },
        Operand::Cols { start: rhs },
        y,
    );
    lemma_field_op_holds(row, field, FieldOperation::Sub, zero, Operand::Cols { start: y }, neg_y);
}

/// Eight columns that hold the bits of the byte in another column meet the
/// constraint on the bits.
proof fn lemma_byte_bits_hold(row: Seq<u32>, field: FieldType, bits: usize, byte: usize, b: u8)
    requires
        bits + 8 <= row.len(),
        byte < row.len(),
        row.subrange(bits as int, bits + 8) == bit_cols(b),
        row[byte as int] == b,
    ensures
        constraint_holds(row, field, Constraint::ByteBits { bits, byte, gate: Gate::Real }),
        row[bits as int] == b % 2,
{
    lemma_bit_cols(b);
    let cols = row.subrange(bits as int, bits + 8);
    assert forall|i: int| 0 <= i < 8 implies #[trigger] row[bits + i] <= 1 by {
        assert(row[bits + i] == cols[i]);
    }
    assert(row[bits as int] == cols[0] && row[bits + 1] == cols[1] && row[bits + 2] == cols[2]
        && row[bits + 3] == cols[3] && row[bits + 4] == cols[4] && row[bits + 5] == cols[5]
        && row[bits + 6] == cols[6] && row[bits + 7] == cols[7]);
}

/// On a row that is laid out as the chip lays it out, the bits are those of
/// the least significant byte of the root, the first of them tells whether
/// the root is odd, and the columns of the root and of its negative are
/// their limbs.
proof fn lemma_weierstrass_root_cols(chip: WeierstrassDecompressChip, prefix: Seq<u32>, x: nat)
    requires
        chip.curve.spec_weierstrass(),
        prefix.len() == chip.spec_sub_table(0),
    ensures
        ({
            let row = prefix + weierstrass_field_cols(chip.curve, x);
            let field = chip.curve.spec_base_field();
            let n = field.spec_nb_limbs();
            let y = chip.spec_sub_table(3) as usize;
            let neg_y = chip.spec_sub_table(4) as usize;
            let bits = chip.spec_sub_table(5) as usize;
            &&& constraint_holds(row, field, Constraint::ByteBits { bits, byte: y, gate: Gate::Real })
            &&& row[bits as int] == weierstrass_root(chip.curve, x) % 2
            &&& operand_cols(row, Operand::Cols { start: y }, n) == limb_cols(
                weierstrass_root(chip.curve, x),
                n,
            )
            &&& operand_cols(row, Operand::Cols { start: neg_y }, n) == limb_cols(
                weierstrass_neg_root(chip.curve, x),
                n,
            )
        }),
{
    let curve = chip.curve;
    let field = curve.spec_base_field();
    let n = field.spec_nb_limbs();
    let row = prefix + weierstrass_field_cols(curve, x);
    let root = weierstrass_root(curve, x);
    assert(n == 32 || n == 48);
    let t3 = chip.spec_sub_table(3) as int;
    let t4 = chip.spec_sub_table(4) as int;
    let t5 = chip.spec_sub_table(5) as int;
    assert(t3 == 5 + 6 * n && t4 == t3 + n && t5 == t4 + n && chip.spec_width() == t5 + 8);
    lemma_weierstrass_row_segments(chip, prefix, x);
    lemma_weierstrass_values_reduced(curve, x);
    lemma_cols_operand(row, t3 as usize, field, root);
    lemma_cols_operand(row, t4 as usize, field, weierstrass_neg_root(curve, x));
    let lsb = limbs_of(root, n)[0];
    assert(lsb % 2 == root % 2) by {
        assert(limbs_of(root, n)[0] == (root % 256) as u8);
    }
    assert(row[t3] == lsb) by {
        assert(row[t3] == row.subrange(t3, t4)[0]);
    }
    lemma_byte_bits_hold(row, field, t5 as usize, t3 as usize, lsb);
}

/// A row that is laid out as the chip lays it out meets the constraints of
/// the chip, if the reads hold the `x` of its sub-tables and, on the row of
/// an event, the writes hold the root with the parity of the row.
proof fn lemma_weierstrass_row_holds(chip: WeierstrassDecompressChip, prefix: Seq<u32>, x: nat)
    requires
        chip.curve.spec_weierstrass(),
        prefix.len() == chip.spec_sub_table(0),
        prefix[0] <= 1,
        prefix[4] <= 1,
        x < pow256(chip.curve.spec_base_field().spec_nb_limbs()),
        prefix.subrange(5, chip.spec_y_access() as int) == limb_cols(
            x,
            chip.curve.spec_base_field().spec_nb_limbs(),
        ),
        prefix[0] == 1 ==> operand_cols(
            prefix,
            Operand::WriteValue { start: chip.spec_y_access() as usize },
            chip.curve.spec_base_field().spec_nb_limbs(),
        ) == limb_cols(
            if (weierstrass_root(chip.curve, x) % 2 == 1) == (prefix[4] == 1) {
                weierstrass_root(chip.curve, x)
            } else {
                weierstrass_neg_root(chip.curve, x)
            },
            chip.curve.spec_base_field().spec_nb_limbs(),
        ),
    ensures
        constraints_hold(
            prefix + weierstrass_field_cols(chip.curve, x),
            chip.curve.spec_base_field(),
            chip.spec_constraints(),
        ),
{
    let curve = chip.curve;
    let field = curve.spec_base_field();
    let n = field.spec_nb_limbs();
    let row = prefix + weierstrass_field_cols(curve, x);
    let list = chip.spec_constraints();
    let fields = chip.spec_field_constraints();
    let memory = chip.spec_memory_constraints();
    let y_access = chip.spec_y_access() as int;
    lemma_weierstrass_sub_tables_hold(chip, prefix, x);
    lemma_weierstrass_root_cols(chip, prefix, x);
    assert(operand_cols(row, Operand::WriteValue { start: y_access as usize }, n) =~= operand_cols(
        prefix,
        Operand::WriteValue { start: y_access as usize },
        n,
    ));
    assert(row[0] == prefix[0] && row[4] == prefix[4]);
    assert(constraint_holds(row, field, fields[0]));
    assert(constraint_holds(row, field, fields[1]));
    assert(constraint_holds(row, field, fields[7]));
    assert(constraint_holds(row, field, fields[8]));
    assert(constraint_holds(row, field, fields[9]));
    assert forall|i: int| 0 <= i < list.len() implies constraint_holds(
        row,
        field,
        #[trigger] list[i],
    ) by {
        if i < 10 {
            assert(list[i] == fields[i]);
        } else {
            assert(list[i] == memory[i - 10]);
        }
    }
}

/// The padding row meets every constraint of the chip: it holds the `x` of
/// the generator and, in its sub-tables, their operations for that `x`; and
/// nothing is asked of what a row writes that is not the row of an event.
pub proof fn lemma_weierstrass_padding_holds(chip: WeierstrassDecompressChip)
    requires
        chip.curve.spec_weierstrass(),
    ensures
        constraints_hold(
            chip.spec_padding(),
            chip.curve.spec_base_field(),
            chip.spec_constraints(),
        ),
{
    let curve = chip.curve;
    let n = curve.spec_base_field().spec_nb_limbs();
    let gx = curve.spec_generator_x_bytes();
    let x = bytes_value(gx);
    let prefix = Seq::new(5, |i: int| 0u32) + byte_cols(gx) + Seq::new(2 * n, |i: int| 0u32);
    lemma_bytes_value_bound(gx);
    lemma_limbs_of_bytes(gx, n);
    assert(gx.subrange(0, n as int) =~= gx);
    assert(prefix.subrange(5, chip.spec_y_access() as int) =~= byte_cols(gx));
    lemma_weierstrass_row_holds(chip, prefix, x);
}

/// The row of an event whose memory accesses are those of its point meets
/// every constraint of the chip.
pub proof fn lemma_weierstrass_row_holds_for_event(
    chip: WeierstrassDecompressChip,
    event: WeierstrassDecompressEvent,
)
    requires
        chip.curve.spec_weierstrass(),
        event.wf(chip.curve),
        event.consistent(chip.curve),
    ensures
        constraints_hold(
            event.spec_row(chip.curve),
            chip.curve.spec_base_field(),
            chip.spec_constraints(),
        ),
{
    let curve = chip.curve;
    let n = curve.spec_base_field().spec_nb_limbs();
    let x = event.spec_x();
    let odd: u32 = if event.is_odd {
        1
    } else {
        0
    };
    let scalars = seq![1u32, event.shard, event.clk, event.ptr, odd];
    let reads = reads_cols(event.x_memory_records@);
    let writes = writes_cols(event.y_memory_records@);
    let prefix = scalars + reads + writes;
    let y_access = chip.spec_y_access() as int;
    lemma_access_lens(event.x_memory_records@, event.y_memory_records@);
    assert(event.spec_row(curve) =~= prefix + weierstrass_field_cols(curve, x));
    lemma_bytes_value_bound(event.x_bytes@);
    lemma_limbs_of_bytes(event.x_bytes@, n);
    assert(event.x_bytes@.subrange(0, n as int) =~= event.x_bytes@);
    assert(prefix.subrange(5, y_access) =~= reads);
    assert(prefix.subrange(y_access, y_access + 2 * n) =~= writes);
    lemma_read_operand(prefix, 5, event.x_memory_records@, n);
    lemma_write_operands(prefix, y_access as usize, event.y_memory_records@, n);
    lemma_limbs_value(event.spec_written_y(curve), n);
    lemma_bytes_to_words_round_trip(limbs_of(event.spec_written_y(curve), n));
    lemma_weierstrass_row_holds(chip, prefix, x);
}

/// Every row of the trace of events whose memory accesses are those of
/// their points meets every constraint of the chip: the rows of the events,
/// and the padding rows behind them.
pub proof fn lemma_weierstrass_trace_holds(
    chip: WeierstrassDecompressChip,
    events: Seq<WeierstrassDecompressEvent>,
)
    requires
        chip.curve.spec_weierstrass(),
        forall|i: int|
            0 <= i < events.len() ==> (#[trigger] events[i]).wf(chip.curve)
                && events[i].consistent(chip.curve),
    ensures
        forall|i: int|
            0 <= i < padded(chip.spec_rows(events), chip.spec_padding()).len()
                ==> constraints_hold(
                #[trigger] padded(chip.spec_rows(events), chip.spec_padding())[i],
                chip.curve.spec_base_field(),
                chip.spec_constraints(),
            ),
{
    let rows = padded(chip.spec_rows(events), chip.spec_padding());
    assert forall|i: int| 0 <= i < rows.len() implies constraints_hold(
        #[trigger] rows[i],
        chip.curve.spec_base_field(),
        chip.spec_constraints(),
    ) by {
        if i < events.len() {
            lemma_weierstrass_row_holds_for_event(chip, events[i]);
        } else {
            lemma_weierstrass_padding_holds(chip);
        }
    }
}

} // verus!
