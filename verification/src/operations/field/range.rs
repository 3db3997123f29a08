//! The columns that witness that a number is below the modulus of its
//! field: the most significant limb in which it differs from the modulus is
//! flagged, and that limb is compared with the limb of the modulus.

use num::BigUint;
use vstd::prelude::*;

use crate::bytes::{ByteLookupEvent, BYTE_OP_LTU};
use crate::operations::field::params::FieldType;
use crate::utils::bigint::{biguint_value, bytes_value, limbs_of};
use crate::utils::limbs::{lemma_bytes_value_bound, pow256, to_limbs};

verus! {

/// The most significant position below `n` at which `v` and `m` differ; -1
/// where they do not differ at all.
pub open spec fn top_difference<T>(v: Seq<T>, m: Seq<T>, n: int) -> int
    decreases n,
{
    if n <= 0 {
        -1
    } else if v[n - 1] != m[n - 1] {
        n - 1
    } else {
        top_difference(v, m, n - 1)
    }
}

/// The columns of the range check of the limbs `v` against the limbs `m` of
/// the modulus: one flag for each limb, set at the most significant limb that
/// differs, and then the limb of `v` at that position.
pub open spec fn range_cols(v: Seq<u8>, m: Seq<u8>) -> Seq<u32> {
    let d = top_difference(v, m, v.len() as int);
    Seq::new(
        v.len() + 1,
        |i: int|
            if i < v.len() {
                if i == d {
                    1u32
                } else {
                    0u32
                }
            } else if d >= 0 {
                v[d] as u32
            } else {
                0u32
            },
    )
}

/// The lookup of the range check: whether the flagged limb is below the limb
/// of the modulus. There is none where the number is the modulus.
pub open spec fn range_check_lookups(shard: u32, v: Seq<u8>, m: Seq<u8>) -> Seq<ByteLookupEvent> {
    let d = top_difference(v, m, v.len() as int);
    if d >= 0 {
        seq![
            ByteLookupEvent {
                shard,
                opcode: BYTE_OP_LTU,
                b1: if v[d] < m[d] {
                    1u8
                } else {
                    0u8
                },
                b2: 0,
                c1: v[d],
                c2: m[d],
            },
        ]
    } else {
        Seq::empty()
    }
}

/// Where the two differ, they differ at the position found and nowhere above
/// it.
pub proof fn lemma_top_difference<T>(v: Seq<T>, m: Seq<T>, n: int)
    requires
        0 <= n <= v.len(),
        n <= m.len(),
    ensures
        -1 <= top_difference(v, m, n) < n,
        top_difference(v, m, n) >= 0 ==> v[top_difference(v, m, n)] != m[top_difference(v, m, n)],
        forall|i: int| top_difference(v, m, n) < i < n ==> v[i] == m[i],
    decreases n,
{
    if n > 0 && v[n - 1] == m[n - 1] {
        lemma_top_difference(v, m, n - 1);
    }
}

/// Appends the columns of the range check of `value` in `field`, and its
/// lookup.
pub fn populate_field_range(
    row: &mut Vec<u32>,
    lookups: &mut Vec<ByteLookupEvent>,
    shard: u32,
    field: FieldType,
    value: &BigUint,
)
    ensures
        final(row)@ == old(row)@ + range_cols(
            limbs_of(biguint_value(*value), field.spec_nb_limbs()),
            field.spec_modulus_bytes(),
        ),
        final(lookups)@ == old(lookups)@ + range_check_lookups(
            shard,
            limbs_of(biguint_value(*value), field.spec_nb_limbs()),
            field.spec_modulus_bytes(),
        ),
{
    let n = field.nb_limbs();
    let limbs = to_limbs(value, n);
    let modulus = field.modulus_limbs();
    let ghost v = limbs@;
    let ghost m = modulus@;
    let mut at: usize = n;
    let mut found = false;
    while at > 0 && !found
        invariant
            0 <= at <= n,
            n == v.len(),
            n == m.len(),
            v == limbs@,
            m == modulus@,
            found ==> at < n && v[at as int] != m[at as int] && top_difference(v, m, n as int)
                == at,
            !found ==> top_difference(v, m, n as int) == top_difference(v, m, at as int),
        decreases at + (if found { 0int } else { 1int }),
    {
        at = at - 1;
        if limbs[at] != modulus[at] {
            found = true;
        }
    }
    let ghost d = top_difference(v, m, n as int);
    assert(found <==> d >= 0);
    let mut i: usize = 0;
    let ghost cols = range_cols(v, m);
    while i < n
        invariant
            0 <= i <= n,
            n == v.len(),
            found ==> at < n,
            found <==> d >= 0,
            found ==> d == at,
            d == top_difference(v, m, n as int),
            cols == range_cols(v, m),
            row@ == old(row)@ + cols.subrange(0, i as int),
        decreases n - i,
    {
        if found && i == at {
            row.push(1);
        } else {
            row.push(0);
        }
        i = i + 1;
        assert(row@ =~= old(row)@ + cols.subrange(0, i as int));
    }
    if found {
        row.push(limbs[at] as u32);
        let below: u8 = if limbs[at] < modulus[at] {
            1
        } else {
            0
        };
        lookups.push(ByteLookupEvent::new(shard, BYTE_OP_LTU, below, 0, limbs[at], modulus[at]));
    } else {
        row.push(0);
    }
    assert(row@ =~= old(row)@ + cols);
    assert(lookups@ =~= old(lookups)@ + range_check_lookups(shard, v, m));
}


/// The number of bytes, with the most significant byte taken apart.
pub proof fn lemma_bytes_value_last(s: Seq<u8>)
    requires
        s.len() > 0,
    ensures
        bytes_value(s) == bytes_value(s.drop_last()) + pow256((s.len() - 1) as nat) * s.last(),
    decreases s.len(),
{
    if s.len() == 1 {
        assert(s.drop_last() =~= Seq::<u8>::empty());
        assert(s.drop_first() =~= Seq::<u8>::empty());
        assert(bytes_value(s.drop_first()) == 0);
        assert(bytes_value(s.drop_last()) == 0);
        assert(pow256(0) == 1);
        assert(s.last() == s[0]);
        assert(bytes_value(s) == s[0] as nat + 256 * bytes_value(s.drop_first()));
    } else {
        let rest = s.drop_first();
        lemma_bytes_value_last(rest);
        assert(rest.drop_last() =~= s.drop_last().drop_first());
        assert(rest.last() == s.last());
        assert(s.drop_last()[0] == s[0]);
        let p = pow256((rest.len() - 1) as nat);
        let low = bytes_value(rest.drop_last());
        let top = s.last() as nat;
        assert(bytes_value(s) == s[0] + 256 * bytes_value(rest));
        assert(bytes_value(rest) == low + p * top);
        assert(bytes_value(s.drop_last()) == s[0] + 256 * low);
        assert(pow256((s.len() - 1) as nat) == 256 * p);
        assert(256 * (low + p * top) == 256 * low + (256 * p) * top) by (nonlinear_arith);
        assert(pow256((s.len() - 1) as nat) * s.last() == (256 * p) * top);
    }
}

/// What the range check decides: the number is below the modulus exactly if
/// the most significant limb in which the two differ is the smaller one in
/// the number, and the two are the same exactly if no limb differs.
pub proof fn lemma_range_check_decides(v: Seq<u8>, m: Seq<u8>)
    requires
        v.len() == m.len(),
    ensures
        ({
            let d = top_difference(v, m, v.len() as int);
            &&& d < 0 ==> bytes_value(v) == bytes_value(m)
            &&& d >= 0 && v[d] < m[d] ==> bytes_value(v) < bytes_value(m)
            &&& d >= 0 && v[d] > m[d] ==> bytes_value(v) > bytes_value(m)
        }),
    decreases v.len(),
{
    let n = v.len() as int;
    if n > 0 {
        lemma_bytes_value_last(v);
        lemma_bytes_value_last(m);
        lemma_bytes_value_bound(v.drop_last());
        lemma_bytes_value_bound(m.drop_last());
        let p = pow256((n - 1) as nat);
        let a = v.last() as nat;
        let b = m.last() as nat;
        if v[n - 1] != m[n - 1] {
            if a < b {
                assert(p * a + p <= p * b) by (nonlinear_arith)
                    requires
                        a < b,
                ;
            } else {
                assert(p * b + p <= p * a) by (nonlinear_arith)
                    requires
                        b < a,
                ;
            }
        } else {
            lemma_range_check_decides(v.drop_last(), m.drop_last());
            lemma_top_difference_prefix(v, m, n - 1);
        }
    } else {
        assert(v =~= m);
    }
}

/// Below the most significant limb, the difference of two numbers is that of
/// the numbers without the limb.
proof fn lemma_top_difference_prefix<T>(v: Seq<T>, m: Seq<T>, n: int)
    requires
        0 <= n < v.len(),
        v.len() == m.len(),
    ensures
        top_difference(v.drop_last(), m.drop_last(), n) == top_difference(v, m, n),
        top_difference(v, m, n) >= 0 ==> v.drop_last()[top_difference(v, m, n)]
            == v[top_difference(v, m, n)] && m.drop_last()[top_difference(v, m, n)]
            == m[top_difference(v, m, n)],
    decreases n,
{
    if n > 0 {
        lemma_top_difference_prefix(v, m, n - 1);
        lemma_top_difference(v, m, n);
    }
}

} // verus!
