//! The four operations of a prime field, and the columns that witness one
//! operation in a row of a trace.

use num::BigUint;
use vstd::arithmetic::power::pow;
use vstd::prelude::*;

use crate::bytes::{ByteLookupEvent, BYTE_OP_U8_RANGE};
use crate::operations::field::params::{small_biguint, FieldType};
use crate::utils::bigint::{big_add, big_modpow, big_mul, big_rem, big_sub, biguint_value, limbs_of};
use crate::utils::limbs::to_limbs;

verus! {

/// An operation of a prime field.
#[derive(Clone, Copy, Debug, PartialEq, Eq, Structural)]
pub enum FieldOperation {
    Add,
    Mul,
    Sub,
    Div,
}

/// The inverse of `b` modulo the prime `m`, as the power `b^(m - 2)`; zero
/// for `b` zero.
pub open spec fn field_inverse(b: nat, m: nat) -> nat {
    (pow(b as int, (m - 2) as nat) % (m as int)) as nat
}

/// The result of `a (op) b` modulo `m`. The operands need not be reduced.
pub open spec fn field_op_value(op: FieldOperation, a: nat, b: nat, m: nat) -> nat {
    match op {
        FieldOperation::Add => (a + b) % m,
        FieldOperation::Mul => (a * b) % m,
        FieldOperation::Sub => ((m + a - b) % (m as int)) as nat,
        FieldOperation::Div => (a * field_inverse(b, m)) % m,
    }
}

/// The bytes as columns, one byte to a column.
pub open spec fn byte_cols(bytes: Seq<u8>) -> Seq<u32> {
    Seq::new(bytes.len(), |i: int| bytes[i] as u32)
}

/// The columns that hold `v` in `n` limbs.
pub open spec fn limb_cols(v: nat, n: nat) -> Seq<u32> {
    byte_cols(limbs_of(v, n))
}

/// The lookups that check an even number of limbs to be bytes, two limbs to a
/// lookup.
pub open spec fn range_lookups(shard: u32, limbs: Seq<u8>) -> Seq<ByteLookupEvent> {
    Seq::new(
        limbs.len() / 2,
        |i: int|
            ByteLookupEvent {
                shard,
                opcode: BYTE_OP_U8_RANGE,
                b1: limbs[2 * i],
                b2: limbs[2 * i + 1],
                c1: 0,
                c2: 0,
            },
    )
}

/// Subtracting a number or what is left of it modulo `m` comes to the same
/// modulo `m`.
pub proof fn lemma_sub_reduced(a: int, b: int, m: int)
    requires
        m > 0,
    ensures
        (a - b % m) % m == (a - b) % m,
{
    vstd::arithmetic::div_mod::lemma_sub_mod_noop_right(a, b, m);
}

/// What was subtracted can be added again: `(a - b) + b` is `a`, modulo `m`.
pub proof fn lemma_sub_then_add(a: nat, b: nat, m: nat)
    requires
        m > 0,
    ensures
        (field_op_value(FieldOperation::Sub, a, b, m) + b) % m == a % m,
        field_op_value(FieldOperation::Add, field_op_value(FieldOperation::Sub, a, b, m), b, m)
            == a % m,
{
    let mi = m as int;
    let d = (m + a - b) % mi;
    vstd::arithmetic::div_mod::lemma_add_mod_noop_right(b as int, m + a - b, mi);
    assert((b + d) % mi == (b + (m + a - b)) % mi);
    assert(b + (m + a - b) == a + m);
    vstd::arithmetic::div_mod::lemma_mod_add_multiples_vanish(a as int, mi);
}

/// `a (op) b` in the field.
pub fn field_op(field: FieldType, a: &BigUint, b: &BigUint, op: FieldOperation) -> (r: BigUint)
    ensures
        biguint_value(r) == field_op_value(
            op,
            biguint_value(*a),
            biguint_value(*b),
            field.spec_modulus(),
        ),
        biguint_value(r) < field.spec_modulus(),
{
    let modulus = field.modulus();
    proof {
        field.lemma_modulus();
    }
    match op {
        FieldOperation::Add => {
            let sum = big_add(a, b);
            big_rem(&sum, &modulus)
        },
        FieldOperation::Mul => {
            let product = big_mul(a, b);
            big_rem(&product, &modulus)
        },
        FieldOperation::Sub => {
            let reduced = big_rem(b, &modulus);
            let lifted = big_add(&modulus, a);
            let difference = big_sub(&lifted, &reduced);
            proof {
                lemma_sub_reduced(
                    (biguint_value(modulus) + biguint_value(*a)) as int,
                    biguint_value(*b) as int,
                    biguint_value(modulus) as int,
                );
            }
            big_rem(&difference, &modulus)
        },
        FieldOperation::Div => {
            let two = small_biguint(2);
            let exponent = big_sub(&modulus, &two);
            let inverse = big_modpow(b, &exponent, &modulus);
            let product = big_mul(a, &inverse);
            big_rem(&product, &modulus)
        },
    }
}

/// Appends the limbs as columns, and the lookups that check them to be
/// bytes.
pub fn populate_limbs(
    row: &mut Vec<u32>,
    lookups: &mut Vec<ByteLookupEvent>,
    shard: u32,
    limbs: &Vec<u8>,
)
    requires
        limbs@.len() % 2 == 0,
    ensures
        final(row)@ == old(row)@ + byte_cols(limbs@),
        final(lookups)@ == old(lookups)@ + range_lookups(shard, limbs@),
{
    let mut i: usize = 0;
    while i < limbs.len()
        invariant
            0 <= i <= limbs@.len(),
            row@ == old(row)@ + byte_cols(limbs@).subrange(0, i as int),
        decreases limbs@.len() - i,
    {
        row.push(limbs[i] as u32);
        i = i + 1;
        assert(row@ =~= old(row)@ + byte_cols(limbs@).subrange(0, i as int));
    }
    assert(byte_cols(limbs@).subrange(0, i as int) =~= byte_cols(limbs@));
    let pairs = limbs.len() / 2;
    let mut j: usize = 0;
    while j < pairs
        invariant
            0 <= j <= pairs,
            pairs == limbs@.len() / 2,
            limbs@.len() % 2 == 0,
            lookups@ == old(lookups)@ + range_lookups(shard, limbs@).subrange(0, j as int),
        decreases pairs - j,
    {
        assert(2 * j + 1 < limbs@.len() <= usize::MAX) by {
            assert(limbs@.len() == limbs.len());
        }
        lookups.push(
            ByteLookupEvent::new(shard, BYTE_OP_U8_RANGE, limbs[2 * j], limbs[2 * j + 1], 0, 0),
        );
        j = j + 1;
        assert(lookups@ =~= old(lookups)@ + range_lookups(shard, limbs@).subrange(0, j as int));
    }
    assert(range_lookups(shard, limbs@).subrange(0, j as int) =~= range_lookups(shard, limbs@));
}

/// Appends the columns of the number `value` in the limbs of `field`, and
/// the lookups that check the limbs to be bytes.
pub fn populate_value(
    row: &mut Vec<u32>,
    lookups: &mut Vec<ByteLookupEvent>,
    shard: u32,
    field: FieldType,
    value: &BigUint,
)
    ensures
        final(row)@ == old(row)@ + limb_cols(biguint_value(*value), field.spec_nb_limbs()),
        final(lookups)@ == old(lookups)@ + range_lookups(
            shard,
            limbs_of(biguint_value(*value), field.spec_nb_limbs()),
        ),
{
    let limbs = to_limbs(value, field.nb_limbs());
    populate_limbs(row, lookups, shard, &limbs);
}

/// Computes `a (op) b` in the field, appends the columns that witness the
/// result and the lookups that check them to be bytes, and returns the
/// result.
pub fn populate_field_op(
    row: &mut Vec<u32>,
    lookups: &mut Vec<ByteLookupEvent>,
    shard: u32,
    field: FieldType,
    a: &BigUint,
    b: &BigUint,
    op: FieldOperation,
) -> (r: BigUint)
    ensures
        biguint_value(r) == field_op_value(
            op,
            biguint_value(*a),
            biguint_value(*b),
            field.spec_modulus(),
        ),
        final(row)@ == old(row)@ + limb_cols(biguint_value(r), field.spec_nb_limbs()),
        final(lookups)@ == old(lookups)@ + range_lookups(
            shard,
            limbs_of(biguint_value(r), field.spec_nb_limbs()),
        ),
{
    let result = field_op(field, a, b, op);
    populate_value(row, lookups, shard, field, &result);
    result
}

} // verus!
