//! Decompression of a point of the Edwards curve Ed25519: from the `y` of the
//! point and the sign of its `x`, the `x`.
//!
//! The point lies in 16 words of memory. The upper 8 hold the compressed
//! `y`; the lower 8 are overwritten with `x`.

use num::BigUint;
use p3_matrix::dense::RowMajorMatrix;
use vstd::prelude::*;

use crate::air::constraints::{
    constraint_holds, constraints_hold, lemma_cols_operand, lemma_field_op_holds,
    lemma_field_sqrt_holds, lemma_limb_cols_value, lemma_range_witness, lemma_read_operand,
    lemma_write_operands, operand_cols, receives_one_syscall, Constraint, Gate, Operand, SqrtKind,
    SyscallCode, CLK_COL, IS_REAL_COL, SHARD_COL,
};
use crate::bytes::{counts_positive, record_lookups, ByteLookupEvent};
use crate::memory::columns::{
    lemma_access_lens, populate_reads, populate_writes, read_values, reads_cols, reads_lookups,
    writes_cols, writes_lookups, written_values,
};
use crate::operations::field::field_op::{
    field_op_value, limb_cols, populate_field_op, populate_value, range_lookups, FieldOperation,
};
use crate::operations::field::params::{small_biguint, FieldType, ED25519_D};
use crate::operations::field::range::{populate_field_range, range_check_lookups, range_cols};
use crate::runtime::bulk::{has_room, keys_of};
use crate::runtime::memory::{reads_in_shard, writes_in_shard, MemoryReadRecord, MemoryWriteRecord};
use crate::runtime::record::ExecutionRecord;
use crate::syscall::precompiles::slot::{slot_records, word_addr};
use crate::utils::bigint::{biguint_value, bytes_value, from_bytes_le, limbs_of};
use crate::utils::ec::{
    ed25519_modulus, ed25519_sqrt, ed25519_sqrt_spec, ed_decompress, ed_decompress_x, ed_dyy, ed_u,
    ed_u_div_v, ed_v, ed_yy, lemma_ed25519_sqrt_is_root, lemma_ed_decompress_x, lemma_negated_root,
};
use crate::utils::limbs::{
    bytes_to_words, bytes_to_words_le, lemma_bytes_to_words_round_trip, lemma_bytes_value_bound,
    lemma_bytes_value_parity, lemma_limbs_of_bytes, lemma_limbs_value, lemma_pow256_positive,
    lemma_zero_limbs_value, pow256, to_limbs, words_to_bytes, words_to_bytes_le,
};
use crate::utils::trace::{
    flatten, lemma_append_assoc, lemma_flatten_push, matrix_values, matrix_width, next_pow2,
    pad_to_matrix, padded,
};

verus! {

/// Number of bytes of a field element of Ed25519.
pub const ED_LIMBS: usize = 32;

/// Number of words of a field element of Ed25519.
pub const ED_WORDS: usize = 8;

/// Number of columns of a row.
pub const ED_DECOMPRESS_WIDTH: usize = 358;

/// Number of columns before the columns of the field operations.
pub const ED_DECOMPRESS_ACCESS_COLS: usize = 101;

/// The column at which the writes of `x` begin.
pub const ED_X_ACCESS: usize = 5;

/// The column at which the reads of `y` begin.
pub const ED_Y_ACCESS: usize = 69;

/// The column at which the range check of `y` begins.
pub const ED_Y_RANGE: usize = 101;

/// The column at which `y^2` begins.
pub const ED_YY: usize = 134;

/// The column at which `u` begins.
pub const ED_U: usize = 166;

/// The column at which `d y^2` begins.
pub const ED_DYY: usize = 198;

/// The column at which `v` begins.
pub const ED_V: usize = 230;

/// The column at which `u / v` begins.
pub const ED_U_DIV_V: usize = 262;

/// The column at which the root `x` begins.
pub const ED_X: usize = 294;

/// The column at which `-x` begins.
pub const ED_NEG_X: usize = 326;

/// The column that holds the pointer to the slot.
pub const ED_PTR_COL: usize = 3;

/// The column that holds the sign.
pub const ED_SIGN_COL: usize = 4;

/// Where each group of columns begins in a row of the chip. The row holds,
/// in this order: the flag that tells the row of an event from a padding
/// row, the shard, the clock, the pointer and the sign; the writes of `x` and
/// the reads of `y`; the range check of `y`; and the sub-tables `y^2`,
/// `u = y^2 - 1`, `d y^2`, `v = 1 + d y^2`, `u / v`, the root `x` and `-x`.
#[derive(Clone, Copy, Debug, PartialEq, Eq, Structural)]
pub struct EdDecompressCols {
    pub is_real: usize,
    pub shard: usize,
    pub clk: usize,
    pub ptr: usize,
    pub sign: usize,
    pub x_access: usize,
    pub y_access: usize,
    pub y_range: usize,
    pub yy: usize,
    pub u: usize,
    pub dyy: usize,
    pub v: usize,
    pub u_div_v: usize,
    pub x: usize,
    pub neg_x: usize,
}

/// One decompression: the compressed `y` that was read, the `x` that was
/// written, and the memory accesses that did so.
#[derive(Clone, Debug)]
pub struct EdDecompressEvent {
    pub shard: u32,
    pub clk: u32,
    pub ptr: u32,
    pub sign: bool,
    pub y_bytes: Vec<u8>,
    pub decompressed_x_bytes: Vec<u8>,
    pub x_memory_records: Vec<MemoryWriteRecord>,
    pub y_memory_records: Vec<MemoryReadRecord>,
}

/// The chip that proves decompressions on Ed25519.
#[derive(Clone, Copy, Debug)]
pub struct EdDecompressChip {}

/// The root that the columns hold: the even square root, or zero where there
/// is none.
pub open spec fn ed_root(y: nat) -> nat {
    match ed25519_sqrt_spec(ed_u_div_v(y)) {
        Some(r) => r,
        None => 0,
    }
}

/// The negative of the root, reduced.
pub open spec fn ed_neg_root(y: nat) -> nat {
    field_op_value(FieldOperation::Sub, 0, ed_root(y), ed25519_modulus())
}

/// The columns of the field operations for the given `y`: the range check of
/// `y`, then `y^2`, `u`, `d y^2`, `v`, `u / v`, the root `x` and `-x`.
pub open spec fn ed_field_cols(y: nat) -> Seq<u32> {
    range_cols(limbs_of(y, 32), FieldType::Ed25519.spec_modulus_bytes()) + limb_cols(ed_yy(y), 32)
        + limb_cols(ed_u(y), 32) + limb_cols(ed_dyy(y), 32) + limb_cols(ed_v(y), 32) + limb_cols(
        ed_u_div_v(y),
        32,
    ) + limb_cols(ed_root(y), 32) + limb_cols(ed_neg_root(y), 32)
}

/// The lookups of the field operations for the given `y`, in the order of
/// the columns.
pub open spec fn ed_field_lookups(shard: u32, y: nat) -> Seq<ByteLookupEvent> {
    range_check_lookups(shard, limbs_of(y, 32), FieldType::Ed25519.spec_modulus_bytes())
        + range_lookups(shard, limbs_of(ed_yy(y), 32)) + range_lookups(
        shard,
        limbs_of(ed_u(y), 32),
    ) + range_lookups(shard, limbs_of(ed_dyy(y), 32)) + range_lookups(
        shard,
        limbs_of(ed_v(y), 32),
    ) + range_lookups(shard, limbs_of(ed_u_div_v(y), 32)) + range_lookups(
        shard,
        limbs_of(ed_root(y), 32),
    ) + range_lookups(shard, limbs_of(ed_neg_root(y), 32))
}

/// The compressed form of a point: the bytes of `y` with the most
/// significant bit replaced by the sign of `x`.
pub open spec fn compressed_point(y_bytes: Seq<u8>, sign: bool) -> Seq<u8> {
    y_bytes.update(
        31,
        ((y_bytes[31] % 128) + (if sign {
            128int
        } else {
            0int
        })) as u8,
    )
}

/// The `y` of a compressed point: its bytes without the most significant
/// bit.
pub open spec fn compressed_y(y_bytes: Seq<u8>) -> nat {
    bytes_value(y_bytes.update(31, (y_bytes[31] % 128) as u8))
}

impl EdDecompressEvent {
    /// The bytes and the memory accesses have one entry for each byte and
    /// each word of a field element.
    pub open spec fn wf(self) -> bool {
        &&& self.y_bytes@.len() == 32
        &&& self.decompressed_x_bytes@.len() == 32
        &&& self.x_memory_records@.len() == 8
        &&& self.y_memory_records@.len() == 8
    }

    /// The `y` that the columns are computed from.
    pub open spec fn spec_y(self) -> nat {
        bytes_value(self.y_bytes@)
    }

    /// The row of the event.
    pub open spec fn spec_row(self) -> Seq<u32> {
        seq![
            1u32,
            self.shard,
            self.clk,
            self.ptr,
            if self.sign {
                1u32
            } else {
                0u32
            },
        ] + writes_cols(self.x_memory_records@) + reads_cols(self.y_memory_records@)
            + ed_field_cols(self.spec_y())
    }

    /// The byte lookups that the row of the event gives rise to.
    pub open spec fn spec_lookups(self) -> Seq<ByteLookupEvent> {
        writes_lookups(self.x_memory_records@) + reads_lookups(self.y_memory_records@)
            + ed_field_lookups(self.shard, self.spec_y())
    }
}

/// The columns of the field operations have the same length for every `y`.
pub proof fn lemma_ed_field_cols_len(y: nat)
    ensures
        ed_field_cols(y).len() == 257,
{
    lemma_limbs_value(y, 32);
    lemma_limbs_value(ed_yy(y), 32);
    lemma_limbs_value(ed_u(y), 32);
    lemma_limbs_value(ed_dyy(y), 32);
    lemma_limbs_value(ed_v(y), 32);
    lemma_limbs_value(ed_u_div_v(y), 32);
    lemma_limbs_value(ed_root(y), 32);
    lemma_limbs_value(ed_neg_root(y), 32);
}

/// An event that holds a `y` without a sign bit, the reads of that `y`, the
/// `x` of the point, and the writes of that `x`, is consistent.
proof fn lemma_event_consistent(event: EdDecompressEvent)
    requires
        event.y_bytes@.len() == 32,
        event.y_bytes@[31] < 128,
        is_decompressed_x(event.y_bytes@, event.sign, event.decompressed_x_bytes@),
        words_to_bytes(read_values(event.y_memory_records@)) == event.y_bytes@,
        written_values(event.x_memory_records@) == bytes_to_words(event.decompressed_x_bytes@),
    ensures
        event.consistent(),
{
    let y_bytes = event.y_bytes@;
    assert(y_bytes.update(31, (y_bytes[31] % 128) as u8) =~= y_bytes);
    assert(compressed_y(y_bytes) == event.spec_y());
}

/// Whether `x_bytes` holds the `x` of the point with the bytes `y_bytes` of
/// `y` and the sign `sign`: the 32 limbs of a reduced root of
/// `(y^2 - 1) / (d y^2 + 1)`, namely of the even root, negated where the sign
/// is set. Unless the root is zero its parity is the sign, so that writing
/// its parity back into `y` gives the compressed point again.
pub open spec fn is_decompressed_x(y_bytes: Seq<u8>, sign: bool, x_bytes: Seq<u8>) -> bool {
    let x = bytes_value(x_bytes);
    &&& x_bytes.len() == 32
    &&& x_bytes == limbs_of(x, 32)
    &&& ed_decompress_x(compressed_y(y_bytes), sign) == Some(x)
    &&& x < ed25519_modulus()
    &&& (x * x) % ed25519_modulus() == ed_u_div_v(compressed_y(y_bytes))
    &&& (x != 0 || !sign) ==> {
        &&& (x % 2 == 1) == sign
        &&& compressed_point(y_bytes, x_bytes[0] % 2 == 1) == compressed_point(y_bytes, sign)
    }
}

/// The bytes of the `x` of the point with the bytes `y_bytes` of `y` and the
/// sign `sign`; `None` where no point of the curve has this `y`. The most
/// significant bit of `y_bytes` is not part of `y`.
pub fn decompress_x_bytes(y_bytes: &Vec<u8>, sign: bool) -> (r: Option<Vec<u8>>)
    requires
        y_bytes@.len() == 32,
    ensures
        r is Some <==> ed_decompress_x(compressed_y(y_bytes@), sign) is Some,
        r matches Some(x_bytes) ==> is_decompressed_x(y_bytes@, sign, x_bytes@),
{
    // The compressed y without its sign bit.
    let mut masked: Vec<u8> = Vec::new();
    let mut i: usize = 0;
    while i < 31
        invariant
            0 <= i <= 31,
            y_bytes@.len() == 32,
            masked@ == y_bytes@.subrange(0, i as int),
        decreases 31 - i,
    {
        masked.push(y_bytes[i]);
        i = i + 1;
        assert(masked@ =~= y_bytes@.subrange(0, i as int));
    }
    masked.push(y_bytes[31] % 128);
    assert(masked@ =~= y_bytes@.update(31, (y_bytes@[31] % 128) as u8));
    let y = from_bytes_le(masked.as_slice());
    let x = match ed_decompress(&y, sign) {
        Some(x) => x,
        None => {
            return None;
        },
    };
    let x_bytes = to_limbs(&x, ED_LIMBS);
    proof {
        let yv = compressed_y(y_bytes@);
        lemma_ed_decompress_x(yv, sign);
        FieldType::Ed25519.lemma_modulus();
        lemma_limbs_value(biguint_value(x), 32);
        lemma_bytes_value_parity(x_bytes@);
        let root = ed25519_sqrt_spec(ed_u_div_v(yv))->0;
        lemma_ed25519_sqrt_is_root(ed_u_div_v(yv));
        lemma_negated_root(root, ed25519_modulus());
    }
    Some(x_bytes)
}

impl EdDecompressCols {
    /// The layout of a row.
    pub open spec fn spec_new() -> EdDecompressCols {
        EdDecompressCols {
            is_real: IS_REAL_COL,
            shard: SHARD_COL,
            clk: CLK_COL,
            ptr: ED_PTR_COL,
            sign: ED_SIGN_COL,
            x_access: ED_X_ACCESS,
            y_access: ED_Y_ACCESS,
            y_range: ED_Y_RANGE,
            yy: ED_YY,
            u: ED_U,
            dyy: ED_DYY,
            v: ED_V,
            u_div_v: ED_U_DIV_V,
            x: ED_X,
            neg_x: ED_NEG_X,
        }
    }

    /// Whether the table is the layout of a row.
    pub open spec fn wf(self) -> bool {
        self == EdDecompressCols::spec_new()
    }

    /// The layout of a row.
    pub fn new() -> (cols: Self)
        ensures
            cols.wf(),
    {
        EdDecompressCols {
            is_real: IS_REAL_COL,
            shard: SHARD_COL,
            clk: CLK_COL,
            ptr: ED_PTR_COL,
            sign: ED_SIGN_COL,
            x_access: ED_X_ACCESS,
            y_access: ED_Y_ACCESS,
            y_range: ED_Y_RANGE,
            yy: ED_YY,
            u: ED_U,
            dyy: ED_DYY,
            v: ED_V,
            u_div_v: ED_U_DIV_V,
            x: ED_X,
            neg_x: ED_NEG_X,
        }
    }

    /// Appends the row of `event` to `values`, and its lookups to `lookups`.
    pub fn populate(
        &self,
        event: &EdDecompressEvent,
        values: &mut Vec<u32>,
        lookups: &mut Vec<ByteLookupEvent>,
    )
        requires
            event.wf(),
        ensures
            final(values)@ == old(values)@ + event.spec_row(),
            final(lookups)@ == old(lookups)@ + event.spec_lookups(),
            event.spec_row().len() == ED_DECOMPRESS_WIDTH,
    {
        values.push(1);
        values.push(event.shard);
        values.push(event.clk);
        values.push(event.ptr);
        values.push(
            if event.sign {
                1
            } else {
                0
            },
        );
        assert(values@ =~= old(values)@ + seq![
            1u32,
            event.shard,
            event.clk,
            event.ptr,
            if event.sign {
                1u32
            } else {
                0u32
            },
        ]);
        populate_writes(values, lookups, &event.x_memory_records);
        populate_reads(values, lookups, &event.y_memory_records);
        let y = from_bytes_le(event.y_bytes.as_slice());
        self.populate_field_ops(values, lookups, event.shard, &y);
        proof {
            lemma_access_lens(event.y_memory_records@, event.x_memory_records@);
            lemma_ed_field_cols_len(event.spec_y());
            assert(values@ =~= old(values)@ + event.spec_row());
            assert(lookups@ =~= old(lookups)@ + event.spec_lookups());
        }
    }

    /// Appends the columns of the field operations for `y`, and their lookups.
    fn populate_field_ops(
        &self,
        values: &mut Vec<u32>,
        lookups: &mut Vec<ByteLookupEvent>,
        shard: u32,
        y: &BigUint,
    )
        ensures
            final(values)@ == old(values)@ + ed_field_cols(biguint_value(*y)),
            final(lookups)@ == old(lookups)@ + ed_field_lookups(shard, biguint_value(*y)),
    {
        let field = FieldType::Ed25519;
        let one = small_biguint(1);
        let zero = small_biguint(0);
        let d = from_bytes_le(ED25519_D.as_slice());
        let ghost yv = biguint_value(*y);
        let ghost modulus = field.spec_modulus_bytes();
        let ghost v0 = values@;
        let ghost l0 = lookups@;
        populate_field_range(values, lookups, shard, field, y);
        let ghost cols_1 = range_cols(limbs_of(yv, 32), modulus);
        let ghost lookups_1 = range_check_lookups(shard, limbs_of(yv, 32), modulus);
        let yy = populate_field_op(values, lookups, shard, field, y, y, FieldOperation::Mul);
        let ghost cols_2 = cols_1 + limb_cols(ed_yy(yv), 32);
        let ghost lookups_2 = lookups_1 + range_lookups(shard, limbs_of(ed_yy(yv), 32));
        proof {
            lemma_append_assoc(v0, cols_1, limb_cols(ed_yy(yv), 32));
            lemma_append_assoc(l0, lookups_1, range_lookups(shard, limbs_of(ed_yy(yv), 32)));
        }
        let u = populate_field_op(values, lookups, shard, field, &yy, &one, FieldOperation::Sub);
        let ghost cols_3 = cols_2 + limb_cols(ed_u(yv), 32);
        let ghost lookups_3 = lookups_2 + range_lookups(shard, limbs_of(ed_u(yv), 32));
        proof {
            lemma_append_assoc(v0, cols_2, limb_cols(ed_u(yv), 32));
            lemma_append_assoc(l0, lookups_2, range_lookups(shard, limbs_of(ed_u(yv), 32)));
        }
        let dyy = populate_field_op(values, lookups, shard, field, &d, &yy, FieldOperation::Mul);
        let ghost cols_4 = cols_3 + limb_cols(ed_dyy(yv), 32);
        let ghost lookups_4 = lookups_3 + range_lookups(shard, limbs_of(ed_dyy(yv), 32));
        proof {
            lemma_append_assoc(v0, cols_3, limb_cols(ed_dyy(yv), 32));
            lemma_append_assoc(l0, lookups_3, range_lookups(shard, limbs_of(ed_dyy(yv), 32)));
        }
        let v = populate_field_op(values, lookups, shard, field, &one, &dyy, FieldOperation::Add);
        let ghost cols_5 = cols_4 + limb_cols(ed_v(yv), 32);
        let ghost lookups_5 = lookups_4 + range_lookups(shard, limbs_of(ed_v(yv), 32));
        proof {
            lemma_append_assoc(v0, cols_4, limb_cols(ed_v(yv), 32));
            lemma_append_assoc(l0, lookups_4, range_lookups(shard, limbs_of(ed_v(yv), 32)));
        }
        let u_div_v = populate_field_op(
            values,
            lookups,
            shard,
            field,
            &u,
            &v,
            FieldOperation::Div,
        );
        let ghost cols_6 = cols_5 + limb_cols(ed_u_div_v(yv), 32);
        let ghost lookups_6 = lookups_5 + range_lookups(shard, limbs_of(ed_u_div_v(yv), 32));
        proof {
            lemma_append_assoc(v0, cols_5, limb_cols(ed_u_div_v(yv), 32));
            lemma_append_assoc(l0, lookups_5, range_lookups(shard, limbs_of(ed_u_div_v(yv), 32)));
        }
        let x = match ed25519_sqrt(&u_div_v) {
            Some(root) => root,
            None => small_biguint(0),
        };
        populate_value(values, lookups, shard, field, &x);
        let ghost cols_7 = cols_6 + limb_cols(ed_root(yv), 32);
        let ghost lookups_7 = lookups_6 + range_lookups(shard, limbs_of(ed_root(yv), 32));
        proof {
            lemma_append_assoc(v0, cols_6, limb_cols(ed_root(yv), 32));
            lemma_append_assoc(l0, lookups_6, range_lookups(shard, limbs_of(ed_root(yv), 32)));
        }
        let _ = populate_field_op(values, lookups, shard, field, &zero, &x, FieldOperation::Sub);
        proof {
            lemma_append_assoc(v0, cols_7, limb_cols(ed_neg_root(yv), 32));
            lemma_append_assoc(l0, lookups_7, range_lookups(shard, limbs_of(ed_neg_root(yv), 32)));
        }
    }
}

impl EdDecompressChip {
    /// The padding row: nothing real, and the field operations for `y` zero.
    pub open spec fn spec_padding() -> Seq<u32> {
        Seq::new(101, |i: int| 0u32) + ed_field_cols(0)
    }

    /// The rows of the events, in the order of the events.
    pub open spec fn spec_rows(events: Seq<EdDecompressEvent>) -> Seq<Seq<u32>> {
        Seq::new(events.len(), |i: int| events[i].spec_row())
    }

    /// The byte lookups of the events, in the order of the events.
    pub open spec fn spec_lookups(events: Seq<EdDecompressEvent>) -> Seq<ByteLookupEvent>
        decreases events.len(),
    {
        if events.len() == 0 {
            Seq::empty()
        } else {
            Self::spec_lookups(events.drop_last()) + events.last().spec_lookups()
        }
    }

    pub fn new() -> (chip: Self) {
        EdDecompressChip {  }
    }

    /// The display name of the chip.
    pub fn name(&self) -> (name: String)
        ensures
            name@ == "EdDecompress"@,
    {
        "EdDecompress".to_string()
    }

    /// The number of columns of a row.
    pub fn width(&self) -> (w: usize)
        ensures
            w == ED_DECOMPRESS_WIDTH,
    {
        ED_DECOMPRESS_WIDTH
    }

    /// The number of extra cycles the precompile takes.
    pub fn num_extra_cycles(&self) -> (r: u32)
        ensures
            r == 0,
    {
        0
    }

    /// Whether the shard holds an event of this chip.
    pub fn included(&self, shard: &ExecutionRecord) -> (r: bool)
        ensures
            r == (shard.ed_decompress_events@.len() > 0),
    {
        !shard.ed_decompress_events.is_empty()
    }

    /// Decompresses the point whose `y` was read as `y_words` from the upper
    /// half of the slot at `ptr`: computes the `x` with the sign `sign` and
    /// gives the event of reading `y` and writing `x` over `x_prev`, the words
    /// in the lower half. `None` where no point of the curve has this `y`.
    ///
    /// The `x` that is written is a root of `(y^2 - 1) / (d y^2 + 1)`, and
    /// unless it is zero its parity is the sign that was asked for: writing
    /// its parity back into `y` then gives the compressed point again.
    pub fn execute(
        &self,
        shard: u32,
        clk: u32,
        ptr: u32,
        sign: u32,
        y_words: &Vec<u32>,
        x_prev: &Vec<u32>,
    ) -> (r: Option<EdDecompressEvent>)
        requires
            ptr % 4 == 0,
            sign <= 1,
            y_words@.len() == 8,
            x_prev@.len() == 8,
            ptr + 64 <= u32::MAX,
        ensures
            r is Some <==> ed_decompress_x(compressed_y(words_to_bytes(y_words@)), sign == 1)
                is Some,
            r matches Some(event) ==> {
                &&& event.wf()
                &&& reads_in_shard(event.y_memory_records@, shard)
                &&& writes_in_shard(event.x_memory_records@, shard)
                &&& event.shard == shard
                &&& event.clk == clk
                &&& event.ptr == ptr
                &&& event.sign == (sign == 1)
                &&& event.y_bytes@ == words_to_bytes(y_words@)
                &&& is_decompressed_x(event.y_bytes@, event.sign, event.decompressed_x_bytes@)
                &&& forall|i: int|
                    0 <= i < 8 ==> #[trigger] event.y_memory_records@[i] == (MemoryReadRecord {
                        shard,
                        clk,
                        addr: word_addr(ptr, i + 8),
                        value: y_words@[i],
                    })
                &&& forall|i: int|
                    0 <= i < 8 ==> #[trigger] event.x_memory_records@[i] == (MemoryWriteRecord {
                        shard,
                        clk,
                        addr: word_addr(ptr, i),
                        prev_value: x_prev@[i],
                        value: bytes_to_words(event.decompressed_x_bytes@)[i],
                    })
                &&& event.y_bytes@[31] < 128 ==> event.consistent()
            },
    {
        let sign_bool = sign != 0;
        let y_bytes = words_to_bytes_le(y_words);
        let decompressed_x_bytes = match decompress_x_bytes(&y_bytes, sign_bool) {
            Some(x) => x,
            None => {
                return None;
            },
        };
        let decompressed_x_words = bytes_to_words_le(&decompressed_x_bytes);
        let (y_memory_records, x_memory_records) = slot_records(
            shard,
            clk,
            ptr,
            y_words,
            x_prev,
            &decompressed_x_words,
        );
        let event = EdDecompressEvent {
            shard,
            clk,
            ptr,
            sign: sign_bool,
            y_bytes,
            decompressed_x_bytes,
            x_memory_records,
            y_memory_records,
        };
        proof {
            if event.y_bytes@[31] < 128 {
                lemma_event_consistent(event);
            }
        }
        Some(event)
    }

    /// The padding row.
    pub fn padding_row(&self) -> (row: Vec<u32>)
        ensures
            row@ == Self::spec_padding(),
            row@.len() == ED_DECOMPRESS_WIDTH,
    {
        let mut row: Vec<u32> = Vec::new();
        while row.len() < ED_DECOMPRESS_ACCESS_COLS
            invariant
                row@.len() <= 101,
                forall|i: int| 0 <= i < row@.len() ==> row@[i] == 0,
            decreases 101 - row@.len(),
        {
            row.push(0);
        }
        let ghost zeros = row@;
        let zero = small_biguint(0);
        let mut unused: Vec<ByteLookupEvent> = Vec::new();
        EdDecompressCols::new().populate_field_ops(&mut row, &mut unused, 0, &zero);
        proof {
            lemma_ed_field_cols_len(0);
            assert(zeros =~= Seq::new(101, |i: int| 0u32));
        }
        row
    }

    /// Lays the decompressions of `input` out as a trace: one row for each
    /// event, in the order of the events, then padding rows up to the next
    /// power of two. The byte lookups of the rows of the events are counted
    /// in `output`.
    pub fn generate_trace(&self, input: &ExecutionRecord, output: &mut ExecutionRecord) -> (trace:
        RowMajorMatrix<u32>)
        requires
            forall|i: int|
                0 <= i < input.ed_decompress_events@.len() ==> (
                #[trigger] input.ed_decompress_events@[i]).wf(),
            next_pow2(input.ed_decompress_events@.len()) <= usize::MAX,
            has_room(old(output).lookups(), Self::spec_lookups(input.ed_decompress_events@).len()),
        ensures
            matrix_width(trace) == ED_DECOMPRESS_WIDTH,
            matrix_values(trace) == flatten(
                padded(Self::spec_rows(input.ed_decompress_events@), Self::spec_padding()),
            ),
            matrix_values(trace).len() == next_pow2(input.ed_decompress_events@.len())
                * ED_DECOMPRESS_WIDTH,
            final(output).lookups() == record_lookups(
                old(output).lookups(),
                keys_of(Self::spec_lookups(input.ed_decompress_events@)),
            ),
            counts_positive(old(output).lookups()) ==> counts_positive(final(output).lookups()),
            *final(output) == (ExecutionRecord {
                byte_lookups: final(output).byte_lookups,
                ..*old(output)
            }),
    {
        let events = &input.ed_decompress_events;
        let cols = EdDecompressCols::new();
        let mut values: Vec<u32> = Vec::new();
        let mut lookups: Vec<ByteLookupEvent> = Vec::new();
        let mut i: usize = 0;
        let ghost mut rows: Seq<Seq<u32>> = Seq::empty();
        assert(events@.subrange(0, 0) =~= Seq::<EdDecompressEvent>::empty());
        while i < events.len()
            invariant
                0 <= i <= events@.len(),
                forall|k: int| 0 <= k < events@.len() ==> (#[trigger] events@[k]).wf(),
                rows == Self::spec_rows(events@).subrange(0, i as int),
                forall|k: int| 0 <= k < rows.len() ==> (#[trigger] rows[k]).len() == 358,
                values@ == flatten(rows),
                lookups@ == Self::spec_lookups(events@.subrange(0, i as int)),
            decreases events@.len() - i,
        {
            let event = &events[i];
            cols.populate(event, &mut values, &mut lookups);
            proof {
                lemma_flatten_push(rows, event.spec_row());
                rows = rows.push(event.spec_row());
                assert(rows =~= Self::spec_rows(events@).subrange(0, i + 1));
                let done = events@.subrange(0, i + 1);
                assert(done.drop_last() =~= events@.subrange(0, i as int));
                assert(done.last() == events@[i as int]);
            }
            i = i + 1;
        }
        proof {
            assert(rows =~= Self::spec_rows(events@));
            assert(events@.subrange(0, i as int) =~= events@);
        }
        output.add_byte_lookup_events(lookups);
        let padding = self.padding_row();
        pad_to_matrix(values, &padding, events.len(), Ghost(rows))
    }
}


impl EdDecompressEvent {
    /// The root that is written for the `y` of the event: the even root, or
    /// its negative where the sign is set.
    pub open spec fn spec_written_x(self) -> nat {
        if self.sign {
            ed_neg_root(self.spec_y())
        } else {
            ed_root(self.spec_y())
        }
    }

    /// The memory accesses are those of the point: the bytes of `y` were
    /// read, and the root with the sign of the event was written.
    pub open spec fn consistent(self) -> bool {
        &&& words_to_bytes(read_values(self.y_memory_records@)) == self.y_bytes@
        &&& written_values(self.x_memory_records@) == bytes_to_words(
            limbs_of(self.spec_written_x(), 32),
        )
    }
}

impl EdDecompressChip {
    /// The constraints on the sub-tables: the two flags are 0 or 1, `y` is
    /// in range, and each sub-table holds its operation on the sub-tables
    /// before it.
    pub open spec fn spec_field_constraints() -> Seq<Constraint> {
        seq![
            Constraint::Bool { col: IS_REAL_COL, gate: Gate::Always },
            Constraint::Bool { col: ED_SIGN_COL, gate: Gate::Always },
            Constraint::FieldRange {
                value: Operand::ReadValue { start: ED_Y_ACCESS },
                cols: ED_Y_RANGE,
            },
            Constraint::FieldOp {
                op: FieldOperation::Mul,
                a: Operand::ReadValue { start: ED_Y_ACCESS },
                b: Operand::ReadValue { start: ED_Y_ACCESS },
                result: ED_YY,
            },
            Constraint::FieldOp {
                op: FieldOperation::Sub,
                a: Operand::Cols { start: ED_YY },
                b: Operand::Small { value: 1 },
                result: ED_U,
            },
            Constraint::FieldOp {
                op: FieldOperation::Mul,
                a: Operand::EdwardsD,
                b: Operand::Cols { start: ED_YY },
                result: ED_DYY,
            },
            Constraint::FieldOp {
                op: FieldOperation::Add,
                a: Operand::Small { value: 1 },
                b: Operand::Cols { start: ED_DYY },
                result: ED_V,
            },
            Constraint::FieldOp {
                op: FieldOperation::Div,
                a: Operand::Cols { start: ED_U },
                b: Operand::Cols { start: ED_V },
                result: ED_U_DIV_V,
            },
            Constraint::FieldSqrt {
                kind: SqrtKind::Ed25519,
                a: Operand::Cols { start: ED_U_DIV_V },
                result: ED_X,
            },
            Constraint::FieldOp {
                op: FieldOperation::Sub,
                a: Operand::Small { value: 0 },
                b: Operand::Cols { start: ED_X },
                result: ED_NEG_X,
            },
        ]
    }

    /// The constraints on what is written: on the row of an event, `-x`
    /// where the sign is set and `x` where it is not; and the call of the
    /// precompile, with the pointer and the sign as arguments.
    pub open spec fn spec_written_constraints() -> Seq<Constraint> {
        seq![
            Constraint::LimbsEqual {
                a: Operand::Cols { start: ED_NEG_X },
                b: Operand::WriteValue { start: ED_X_ACCESS },
                gate: Gate::RealAndSet { col: ED_SIGN_COL },
            },
            Constraint::LimbsEqual {
                a: Operand::Cols { start: ED_X },
                b: Operand::WriteValue { start: ED_X_ACCESS },
                gate: Gate::RealAndUnset { col: ED_SIGN_COL },
            },
            Constraint::ReceiveSyscall {
                syscall_id: SyscallCode::ED_DECOMPRESS.spec_syscall_id(),
                arg1: ED_PTR_COL,
                arg2: ED_SIGN_COL,
            },
        ]
    }

    /// The constraints on memory: the eight words of `x` are written at the
    /// pointer, and the eight words of `y` are read 32 bytes behind it, all
    /// at the clock of the row.
    pub open spec fn spec_memory_constraints() -> Seq<Constraint> {
        Seq::new(
            8,
            |i: int|
                Constraint::MemoryWrite {
                    cols: (ED_X_ACCESS + 8 * i) as usize,
                    ptr: ED_PTR_COL,
                    offset: (4 * i) as u32,
                    clk_offset: 0,
                },
        ) + Seq::new(
            8,
            |i: int|
                Constraint::MemoryRead {
                    cols: (ED_Y_ACCESS + 4 * i) as usize,
                    ptr: ED_PTR_COL,
                    offset: (4 * i + 32) as u32,
                    clk_offset: 0,
                },
        )
    }

    /// What the chip asks of a row.
    pub open spec fn spec_constraints() -> Seq<Constraint> {
        Self::spec_field_constraints() + Self::spec_memory_constraints()
            + Self::spec_written_constraints()
    }

    /// What the chip asks of a row.
    pub fn eval(&self) -> (constraints: Vec<Constraint>)
        ensures
            constraints@ == Self::spec_constraints(),
            receives_one_syscall(constraints@),
    {
        EdDecompressCols::new().eval()
    }
}

impl EdDecompressCols {
    /// What the chip asks of a row.
    pub fn eval(&self) -> (constraints: Vec<Constraint>)
        requires
            self.wf(),
        ensures
            constraints@ == EdDecompressChip::spec_constraints(),
            receives_one_syscall(constraints@),
    {
        let mut constraints: Vec<Constraint> = Vec::new();
        constraints.push(Constraint::Bool { col: self.is_real, gate: Gate::Always });
        constraints.push(Constraint::Bool { col: self.sign, gate: Gate::Always });
        constraints.push(
            Constraint::FieldRange {
                value: Operand::ReadValue { start: self.y_access },
                cols: self.y_range,
            },
        );
        constraints.push(
            Constraint::FieldOp {
                op: FieldOperation::Mul,
                a: Operand::ReadValue { start: self.y_access },
                b: Operand::ReadValue { start: self.y_access },
                result: self.yy,
            },
        );
        constraints.push(
            Constraint::FieldOp {
                op: FieldOperation::Sub,
                a: Operand::Cols { start: self.yy },
                b: Operand::Small { value: 1 },
                result: self.u,
            },
        );
        constraints.push(
            Constraint::FieldOp {
                op: FieldOperation::Mul,
                a: Operand::EdwardsD,
                b: Operand::Cols { start: self.yy },
                result: self.dyy,
            },
        );
        constraints.push(
            Constraint::FieldOp {
                op: FieldOperation::Add,
                a: Operand::Small { value: 1 },
                b: Operand::Cols { start: self.dyy },
                result: self.v,
            },
        );
        constraints.push(
            Constraint::FieldOp {
                op: FieldOperation::Div,
                a: Operand::Cols { start: self.u },
                b: Operand::Cols { start: self.v },
                result: self.u_div_v,
            },
        );
        constraints.push(
            Constraint::FieldSqrt {
                kind: SqrtKind::Ed25519,
                a: Operand::Cols { start: self.u_div_v },
                result: self.x,
            },
        );
        constraints.push(
            Constraint::FieldOp {
                op: FieldOperation::Sub,
                a: Operand::Small { value: 0 },
                b: Operand::Cols { start: self.x },
                result: self.neg_x,
            },
        );
        assert(constraints@ =~= EdDecompressChip::spec_field_constraints());
        let ghost memory = EdDecompressChip::spec_memory_constraints();
        let mut i: usize = 0;
        while i < ED_WORDS
            invariant
                0 <= i <= 8,
                self.wf(),
                memory == EdDecompressChip::spec_memory_constraints(),
                constraints@ == EdDecompressChip::spec_field_constraints() + memory.subrange(
                    0,
                    i as int
                ),
            decreases 8 - i,
        {
            constraints.push(
                Constraint::MemoryWrite {
                    cols: self.x_access + 8 * i,
                    ptr: self.ptr,
                    offset: (4 * i) as u32,
                    clk_offset: 0,
                },
            );
            i = i + 1;
            assert(
                constraints@ =~= EdDecompressChip::spec_field_constraints() + memory.subrange(
                    0,
                    i as int,
                )
            );
        }
        let mut j: usize = 0;
        while j < ED_WORDS
            invariant
                0 <= j <= 8,
                self.wf(),
                memory == EdDecompressChip::spec_memory_constraints(),
                constraints@ == EdDecompressChip::spec_field_constraints() + memory.subrange(
                    0,
                    8 + j,
                ),
            decreases 8 - j,
        {
            constraints.push(
                Constraint::MemoryRead {
                    cols: self.y_access + 4 * j,
                    ptr: self.ptr,
                    offset: (4 * j + 32) as u32,
                    clk_offset: 0,
                },
            );
            j = j + 1;
            assert(
                constraints@ =~= EdDecompressChip::spec_field_constraints() + memory.subrange(
                    0,
                    8 + j,
                )
            );
        }
        assert(memory.subrange(0, 16) =~= memory);
        constraints.push(
            Constraint::LimbsEqual {
                a: Operand::Cols { start: self.neg_x },
                b: Operand::WriteValue { start: self.x_access },
                gate: Gate::RealAndSet { col: self.sign },
            },
        );
        constraints.push(
            Constraint::LimbsEqual {
                a: Operand::Cols { start: self.x },
                b: Operand::WriteValue { start: self.x_access },
                gate: Gate::RealAndUnset { col: self.sign },
            },
        );
        constraints.push(
            Constraint::ReceiveSyscall {
                syscall_id: SyscallCode::ED_DECOMPRESS.syscall_id(),
                arg1: self.ptr,
                arg2: self.sign,
            },
        );
        assert(constraints@ =~= EdDecompressChip::spec_constraints());
        constraints
    }
}

/// Where the sub-tables stand in a row that is laid out as the chip lays it
/// out.
proof fn lemma_ed_row_segments(prefix: Seq<u32>, y: nat)
    requires
        prefix.len() == 101,
    ensures
        (prefix + ed_field_cols(y)).len() == 358,
        (prefix + ed_field_cols(y)).subrange(0, 101) == prefix,
        (prefix + ed_field_cols(y)).subrange(101, 134) == range_cols(
            limbs_of(y, 32),
            FieldType::Ed25519.spec_modulus_bytes(),
        ),
        (prefix + ed_field_cols(y)).subrange(134, 166) == limb_cols(ed_yy(y), 32),
        (prefix + ed_field_cols(y)).subrange(166, 198) == limb_cols(ed_u(y), 32),
        (prefix + ed_field_cols(y)).subrange(198, 230) == limb_cols(ed_dyy(y), 32),
        (prefix + ed_field_cols(y)).subrange(230, 262) == limb_cols(ed_v(y), 32),
        (prefix + ed_field_cols(y)).subrange(262, 294) == limb_cols(ed_u_div_v(y), 32),
        (prefix + ed_field_cols(y)).subrange(294, 326) == limb_cols(ed_root(y), 32),
        (prefix + ed_field_cols(y)).subrange(326, 358) == limb_cols(ed_neg_root(y), 32),
{
    let row = prefix + ed_field_cols(y);
    lemma_limbs_value(y, 32);
    lemma_limbs_value(ed_yy(y), 32);
    lemma_limbs_value(ed_u(y), 32);
    lemma_limbs_value(ed_dyy(y), 32);
    lemma_limbs_value(ed_v(y), 32);
    lemma_limbs_value(ed_u_div_v(y), 32);
    lemma_limbs_value(ed_root(y), 32);
    lemma_limbs_value(ed_neg_root(y), 32);
    assert(row.subrange(0, 101) =~= prefix);
    assert(row.subrange(101, 134) =~= range_cols(
        limbs_of(y, 32),
        FieldType::Ed25519.spec_modulus_bytes(),
    ));
    assert(row.subrange(134, 166) =~= limb_cols(ed_yy(y), 32));
    assert(row.subrange(166, 198) =~= limb_cols(ed_u(y), 32));
    assert(row.subrange(198, 230) =~= limb_cols(ed_dyy(y), 32));
    assert(row.subrange(230, 262) =~= limb_cols(ed_v(y), 32));
    assert(row.subrange(262, 294) =~= limb_cols(ed_u_div_v(y), 32));
    assert(row.subrange(294, 326) =~= limb_cols(ed_root(y), 32));
    assert(row.subrange(326, 358) =~= limb_cols(ed_neg_root(y), 32));
}

/// The values of the sub-tables are below the modulus, so that their limbs
/// stand for them.
proof fn lemma_ed_values_reduced(y: nat)
    ensures
        ed_yy(y) < ed25519_modulus(),
        ed_u(y) < ed25519_modulus(),
        ed_dyy(y) < ed25519_modulus(),
        ed_v(y) < ed25519_modulus(),
        ed_u_div_v(y) < ed25519_modulus(),
        ed_root(y) < ed25519_modulus(),
        ed_neg_root(y) < ed25519_modulus(),
        ed25519_modulus() < pow256(32),
{
    FieldType::Ed25519.lemma_modulus();
    if ed25519_sqrt_spec(ed_u_div_v(y)) is Some {
        lemma_ed25519_sqrt_is_root(ed_u_div_v(y));
    }
}

/// The sub-tables of a row that is laid out as the chip lays it out meet
/// their constraints, if the reads hold the `y` of the sub-tables.
proof fn lemma_ed_sub_tables_hold(prefix: Seq<u32>, y: nat)
    requires
        prefix.len() == 101,
        y < pow256(32),
        prefix.subrange(69, 101) == limb_cols(y, 32),
    ensures
        forall|i: int|
            2 <= i < 10 ==> constraint_holds(
                prefix + ed_field_cols(y),
                FieldType::Ed25519,
                #[trigger] EdDecompressChip::spec_field_constraints()[i],
            ),
{
    let field = FieldType::Ed25519;
    let row = prefix + ed_field_cols(y);
    lemma_ed_row_segments(prefix, y);
    lemma_ed_values_reduced(y);
    let read = Operand::ReadValue { start: ED_Y_ACCESS };
    assert(row.subrange(69, 101) =~= prefix.subrange(69, 101));
    lemma_limb_cols_value(y, 32);
    lemma_limbs_value(y, 32);
    lemma_range_witness(limbs_of(y, 32), field.spec_modulus_bytes());
    field.lemma_modulus();
    lemma_cols_operand(row, ED_YY, field, ed_yy(y));
    lemma_cols_operand(row, ED_U, field, ed_u(y));
    lemma_cols_operand(row, ED_DYY, field, ed_dyy(y));
    lemma_cols_operand(row, ED_V, field, ed_v(y));
    lemma_cols_operand(row, ED_U_DIV_V, field, ed_u_div_v(y));
    lemma_cols_operand(row, ED_X, field, ed_root(y));
    let one = Operand::Small { value: 1 };
    let zero = Operand::Small { value: 0 };
    lemma_field_op_holds(row, field, FieldOperation::Mul, read, read, ED_YY);
    lemma_field_op_holds(
        row,
        field,
        FieldOperation::Sub,
        Operand::Cols { start: ED_YY },
        one,
        ED_U,
    );
    lemma_field_op_holds(
        row,
        field,
        FieldOperation::Mul,
        Operand::EdwardsD,
        Operand::Cols { start: ED_YY },
        ED_DYY,
    );
    lemma_field_op_holds(
        row,
        field,
        FieldOperation::Add,
        one,
        Operand::Cols { start: ED_DYY },
        ED_V,
    );
    lemma_field_op_holds(
        row,
        field,
        FieldOperation::Div,
        Operand::Cols { start: ED_U },
        Operand::Cols { start: ED_V },
        ED_U_DIV_V,
    );
    lemma_field_sqrt_holds(
        row,
        field,
        SqrtKind::Ed25519,
        Operand::Cols { start: ED_U_DIV_V },
        ED_X,
    );
    lemma_field_op_holds(
        row,
        field,
        FieldOperation::Sub,
        zero,
        Operand::Cols { start: ED_X },
        ED_NEG_X,
    );
}

/// A row that is laid out as the chip lays it out meets the constraints of
/// the chip, if the reads hold the `y` of its sub-tables and, on the row of
/// an event, the writes hold the root with the sign of the row.
proof fn lemma_ed_row_holds(prefix: Seq<u32>, y: nat)
    requires
        prefix.len() == 101,
        prefix[0] <= 1,
        prefix[4] <= 1,
        y < pow256(32),
        prefix.subrange(69, 101) == limb_cols(y, 32),
        prefix[0] == 1 && prefix[4] == 1 ==> operand_cols(
            prefix,
            Operand::WriteValue { start: ED_X_ACCESS },
            32,
        ) == limb_cols(ed_neg_root(y), 32),
        prefix[0] == 1 && prefix[4] == 0 ==> operand_cols(
            prefix,
            Operand::WriteValue { start: ED_X_ACCESS },
            32,
        ) == limb_cols(ed_root(y), 32),
    ensures
        constraints_hold(
            prefix + ed_field_cols(y),
            FieldType::Ed25519,
            EdDecompressChip::spec_constraints(),
        ),
{
    let field = FieldType::Ed25519;
    let row = prefix + ed_field_cols(y);
    let list = EdDecompressChip::spec_constraints();
    let fields = EdDecompressChip::spec_field_constraints();
    let memory = EdDecompressChip::spec_memory_constraints();
    let written = EdDecompressChip::spec_written_constraints();
    lemma_ed_sub_tables_hold(prefix, y);
    lemma_ed_row_segments(prefix, y);
    lemma_ed_values_reduced(y);
    lemma_cols_operand(row, ED_X, field, ed_root(y));
    lemma_cols_operand(row, ED_NEG_X, field, ed_neg_root(y));
    assert(operand_cols(row, Operand::WriteValue { start: ED_X_ACCESS }, 32) =~= operand_cols(
        prefix,
        Operand::WriteValue { start: ED_X_ACCESS },
        32,
    ));
    assert(row[0] == prefix[0] && row[4] == prefix[4]);
    assert(constraint_holds(row, field, written[0]));
    assert(constraint_holds(row, field, written[1]));
    assert(constraint_holds(row, field, written[2]));
    assert(constraint_holds(row, field, fields[0]));
    assert(constraint_holds(row, field, fields[1]));
    assert forall|i: int| 0 <= i < list.len() implies constraint_holds(
        row,
        field,
        #[trigger] list[i],
    ) by {
        if i < 10 {
            assert(list[i] == fields[i]);
        } else if i < 26 {
            assert(list[i] == memory[i - 10]);
        } else {
            assert(list[i] == written[i - 26]);
        }
    }
}

/// The padding row meets every constraint of the chip: its sub-tables hold
/// their operations for `y` zero, and nothing is asked of what a row writes
/// that is not the row of an event.
pub proof fn lemma_ed_padding_holds()
    ensures
        constraints_hold(
            EdDecompressChip::spec_padding(),
            FieldType::Ed25519,
            EdDecompressChip::spec_constraints(),
        ),
{
    let prefix = Seq::new(101, |i: int| 0u32);
    lemma_zero_limbs_value(32);
    assert(prefix.subrange(69, 101) =~= limb_cols(0, 32));
    lemma_pow256_positive(32);
    lemma_ed_row_holds(prefix, 0);
}

/// The row of an event whose memory accesses are those of its point meets
/// every constraint of the chip.
pub proof fn lemma_ed_row_holds_for_event(event: EdDecompressEvent)
    requires
        event.wf(),
        event.consistent(),
    ensures
        constraints_hold(
            event.spec_row(),
            FieldType::Ed25519,
            EdDecompressChip::spec_constraints(),
        ),
{
    let y = event.spec_y();
    let sign: u32 = if event.sign {
        1
    } else {
        0
    };
    let scalars = seq![1u32, event.shard, event.clk, event.ptr, sign];
    let writes = writes_cols(event.x_memory_records@);
    let reads = reads_cols(event.y_memory_records@);
    let prefix = scalars + writes + reads;
    lemma_access_lens(event.y_memory_records@, event.x_memory_records@);
    lemma_append_assoc(prefix, Seq::empty(), ed_field_cols(y));
    assert(event.spec_row() =~= prefix + ed_field_cols(y));
    lemma_bytes_value_bound(event.y_bytes@);
    lemma_limbs_of_bytes(event.y_bytes@, 32);
    assert(prefix.subrange(5, 69) =~= writes);
    assert(prefix.subrange(69, 101) =~= reads);
    lemma_read_operand(prefix, 69, event.y_memory_records@, 32);
    lemma_write_operands(prefix, 5, event.x_memory_records@, 32);
    lemma_limbs_value(event.spec_written_x(), 32);
    lemma_bytes_to_words_round_trip(limbs_of(event.spec_written_x(), 32));
    assert(event.y_bytes@.subrange(0, 32) =~= event.y_bytes@);
    lemma_ed_row_holds(prefix, y);
}

/// Every row of the trace of events whose memory accesses are those of
/// their points meets every constraint of the chip: the rows of the events,
/// and the padding rows behind them.
pub proof fn lemma_ed_trace_holds(events: Seq<EdDecompressEvent>)
    requires
        forall|i: int|
            0 <= i < events.len() ==> (#[trigger] events[i]).wf() && events[i].consistent(),
    ensures
        forall|i: int|
            0 <= i < padded(
                EdDecompressChip::spec_rows(events),
                EdDecompressChip::spec_padding(),
            ).len() ==> constraints_hold(
                #[trigger] padded(
                    EdDecompressChip::spec_rows(events),
                    EdDecompressChip::spec_padding(),
                )[i],
                FieldType::Ed25519,
                EdDecompressChip::spec_constraints(),
            ),
{
    let rows = padded(EdDecompressChip::spec_rows(events), EdDecompressChip::spec_padding());
    assert forall|i: int| 0 <= i < rows.len() implies constraints_hold(
        #[trigger] rows[i],
        FieldType::Ed25519,
        EdDecompressChip::spec_constraints(),
    ) by {
        if i < events.len() {
            lemma_ed_row_holds_for_event(events[i]);
        } else {
            lemma_ed_padding_holds();
        }
    }
}

} // verus!
