//! Byte lookups: how often each small-domain byte operation was looked up,
//! kept per shard so that no multiplicity grows without bound.

use std::collections::BTreeMap;
use vstd::prelude::*;
use vstd::std_specs::btree::{key_obeys_cmp_spec, spec_keys_iter};
use vstd::std_specs::iter::IteratorSpec;

verus! {

/// Byte operation: the operand `b1` lies in the range of a byte, and so does `b2`.
pub const BYTE_OP_U8_RANGE: u8 = 4;

/// Byte operation: `b1` is 1 exactly if `c1 < c2`, else 0.
pub const BYTE_OP_LTU: u8 = 6;

/// One lookup of a byte operation: the operation, its two result bytes and its
/// two operand bytes, and the shard the lookup belongs to.
#[derive(Clone, Copy, Debug, PartialEq, Eq, Structural, PartialOrd, Ord, Hash)]
pub struct ByteLookupEvent {
    pub shard: u32,
    pub opcode: u8,
    pub b1: u8,
    pub b2: u8,
    pub c1: u8,
    pub c2: u8,
}

/// A lookup as the tuple `(shard, opcode, b1, b2, c1, c2)`: the form in which
/// lookups are keyed and ordered.
pub type ByteLookupKey = (u32, u8, u8, u8, u8, u8);

/// The lookups of one shard, each with its multiplicity.
pub type ShardLookups = BTreeMap<ByteLookupKey, usize>;

/// All lookups, by shard.
pub type ByteLookups = BTreeMap<u32, ShardLookups>;

/// The mathematical content of a [`ShardLookups`].
pub type ShardCounts = Map<ByteLookupKey, nat>;

/// The mathematical content of a [`ByteLookups`].
pub type LookupCounts = Map<u32, ShardCounts>;

impl ByteLookupEvent {
    pub open spec fn spec_key(self) -> ByteLookupKey {
        (self.shard, self.opcode, self.b1, self.b2, self.c1, self.c2)
    }

    pub open spec fn spec_from_key(key: ByteLookupKey) -> ByteLookupEvent {
        ByteLookupEvent {
            shard: key.0,
            opcode: key.1,
            b1: key.2,
            b2: key.3,
            c1: key.4,
            c2: key.5,
        }
    }

    pub fn new(shard: u32, opcode: u8, b1: u8, b2: u8, c1: u8, c2: u8) -> (r: Self)
        ensures
            r == (ByteLookupEvent { shard, opcode, b1, b2, c1, c2 }),
    {
        ByteLookupEvent { shard, opcode, b1, b2, c1, c2 }
    }

    /// The tuple under which the lookup is counted.
    pub fn key(&self) -> (k: ByteLookupKey)
        ensures
            k == self.spec_key(),
            ByteLookupEvent::spec_from_key(k) == *self,
    {
        (self.shard, self.opcode, self.b1, self.b2, self.c1, self.c2)
    }

    /// The lookup that is counted under `key`.
    pub fn from_key(key: ByteLookupKey) -> (r: Self)
        ensures
            r == ByteLookupEvent::spec_from_key(key),
            r.spec_key() == key,
    {
        ByteLookupEvent {
            shard: key.0,
            opcode: key.1,
            b1: key.2,
            b2: key.3,
            c1: key.4,
            c2: key.5,
        }
    }
}

/// The multiplicities held by one shard's map.
pub open spec fn shard_counts(m: ShardLookups) -> ShardCounts {
    Map::new(|k: ByteLookupKey| m@.contains_key(k), |k: ByteLookupKey| m@[k] as nat)
}

/// The multiplicities held by the whole table.
pub open spec fn lookup_counts(t: ByteLookups) -> LookupCounts {
    Map::new(|s: u32| t@.contains_key(s), |s: u32| shard_counts(t@[s]))
}

/// How often `k` was looked up according to `m`: zero where `m` has no entry.
pub open spec fn count(m: ShardCounts, k: ByteLookupKey) -> nat {
    if m.contains_key(k) {
        m[k]
    } else {
        0
    }
}

/// The lookups of shard `s`: none where the table has no entry for `s`.
pub open spec fn counts_at(c: LookupCounts, s: u32) -> ShardCounts {
    if c.contains_key(s) {
        c[s]
    } else {
        Map::empty()
    }
}

/// One more lookup of `k` in `m`.
pub open spec fn record_in_shard(m: ShardCounts, k: ByteLookupKey) -> ShardCounts {
    m.insert(k, count(m, k) + 1)
}

/// One more lookup of `k`, counted under the shard that `k` names.
pub open spec fn record_lookup(c: LookupCounts, k: ByteLookupKey) -> LookupCounts {
    c.insert(k.0, record_in_shard(counts_at(c, k.0), k))
}

/// The lookups of `keys`, recorded one after the other.
pub open spec fn record_lookups(c: LookupCounts, keys: Seq<ByteLookupKey>) -> LookupCounts
    decreases keys.len(),
{
    if keys.len() == 0 {
        c
    } else {
        record_lookup(record_lookups(c, keys.drop_last()), keys.last())
    }
}

/// Two shards' lookups taken together: the keys of both, multiplicities added.
pub open spec fn merge_shard(a: ShardCounts, b: ShardCounts) -> ShardCounts {
    Map::new(
        |k: ByteLookupKey| a.contains_key(k) || b.contains_key(k),
        |k: ByteLookupKey| count(a, k) + count(b, k),
    )
}

/// Two tables taken together: the shards of both, each shard's lookups merged.
pub open spec fn merge_counts(a: LookupCounts, b: LookupCounts) -> LookupCounts {
    Map::new(
        |s: u32| a.contains_key(s) || b.contains_key(s),
        |s: u32| merge_shard(counts_at(a, s), counts_at(b, s)),
    )
}

/// No multiplicity of `a` and `b` together exceeds what a `usize` holds.
pub open spec fn shard_sums_fit(a: ShardCounts, b: ShardCounts) -> bool {
    forall|k: ByteLookupKey| #[trigger] count(a, k) + count(b, k) <= usize::MAX
}

/// No multiplicity of the two tables together exceeds what a `usize` holds.
pub open spec fn sums_fit(a: LookupCounts, b: LookupCounts) -> bool {
    forall|s: u32| #[trigger] shard_sums_fit(counts_at(a, s), counts_at(b, s))
}

/// Every multiplicity in the table is positive: a lookup that never happened
/// has no entry.
pub open spec fn counts_positive(c: LookupCounts) -> bool {
    forall|s: u32, k: ByteLookupKey|
        c.contains_key(s) && #[trigger] c[s].contains_key(k) ==> c[s][k] > 0
}

/// The keys of one shard's map, each once.
fn shard_lookup_keys(m: &ShardLookups) -> (r: Vec<ByteLookupKey>)
    ensures
        r@.no_duplicates(),
        r@.to_set() == m@.dom(),
{
    let mut keys: Vec<ByteLookupKey> = Vec::new();
    let ghost all = spec_keys_iter(m).remaining();
    assert(key_obeys_cmp_spec::<ByteLookupKey>());
    for k in it: m.keys()
        invariant
            it.seq() == all,
            keys@.len() == it.index(),
            forall|j: int| 0 <= j < keys@.len() ==> keys@[j] == *all[j],
    {
        keys.push(*k);
    }
    proof {
        assert(keys@ =~= all.unref());
    }
    keys
}

/// The shards of the table, each once.
fn lookup_shards(t: &ByteLookups) -> (r: Vec<u32>)
    ensures
        r@.no_duplicates(),
        r@.to_set() == t@.dom(),
{
    let mut keys: Vec<u32> = Vec::new();
    let ghost all = spec_keys_iter(t).remaining();
    for k in it: t.keys()
        invariant
            it.seq() == all,
            keys@.len() == it.index(),
            forall|j: int| 0 <= j < keys@.len() ==> keys@[j] == *all[j],
    {
        keys.push(*k);
    }
    proof {
        assert(keys@ =~= all.unref());
    }
    keys
}

/// Counts one more lookup of `key` in the map of one shard.
pub fn record_shard_lookup(m: &mut ShardLookups, key: ByteLookupKey)
    requires
        count(shard_counts(*old(m)), key) < usize::MAX,
    ensures
        shard_counts(*final(m)) == record_in_shard(shard_counts(*old(m)), key),
{
    let cur: usize = match m.get(&key) {
        Some(c) => *c,
        None => 0,
    };
    m.insert(key, cur + 1);
    assert(shard_counts(*m) =~= record_in_shard(shard_counts(*old(m)), key));
}

/// Counts one more lookup of `event`, under the shard that the event names.
/// A shard or a lookup that was absent counts from zero.
pub fn record_byte_lookup(t: &mut ByteLookups, event: ByteLookupEvent)
    requires
        count(counts_at(lookup_counts(*old(t)), event.shard), event.spec_key()) < usize::MAX,
    ensures
        lookup_counts(*final(t)) == record_lookup(lookup_counts(*old(t)), event.spec_key()),
{
    let key = event.key();
    let mut inner: ShardLookups = match t.remove(&event.shard) {
        Some(m) => m,
        None => BTreeMap::new(),
    };
    assert(shard_counts(inner) =~= counts_at(lookup_counts(*old(t)), event.shard));
    record_shard_lookup(&mut inner, key);
    t.insert(event.shard, inner);
    assert(lookup_counts(*t) =~= record_lookup(lookup_counts(*old(t)), key));
}

/// Adds the lookups of `from` to those of `into`.
pub fn merge_shard_lookups(into: &mut ShardLookups, from: ShardLookups)
    requires
        shard_sums_fit(shard_counts(*old(into)), shard_counts(from)),
    ensures
        shard_counts(*final(into)) == merge_shard(shard_counts(*old(into)), shard_counts(from)),
{
    let keys = shard_lookup_keys(&from);
    let ghost a = shard_counts(*old(into));
    let ghost b = shard_counts(from);
    let mut i: usize = 0;
    while i < keys.len()
        invariant
            0 <= i <= keys@.len(),
            keys@.no_duplicates(),
            keys@.to_set() == from@.dom(),
            a == shard_counts(*old(into)),
            b == shard_counts(from),
            shard_sums_fit(a, b),
            forall|k: ByteLookupKey|
                into@.contains_key(k) <==> (
                    a.contains_key(k) || keys@.subrange(0, i as int).contains(k)
                ),
            forall|k: ByteLookupKey|
                #![trigger into@[k]]
                into@.contains_key(k) ==> into@[k] == count(a, k) + (if keys@.subrange(
                    0,
                    i as int,
                ).contains(k) {
                    count(b, k)
                } else {
                    0
                }),
        decreases keys@.len() - i,
    {
        let k = keys[i];
        assert(keys@.to_set().contains(k));
        let add: usize = match from.get(&k) {
            Some(c) => *c,
            None => 0,
        };
        let cur: usize = match into.get(&k) {
            Some(c) => *c,
            None => 0,
        };
        let ghost before = keys@.subrange(0, i as int);
        let ghost prev = into@;
        proof {
            assert(add == count(b, k));
            assert(count(a, k) + count(b, k) <= usize::MAX);
            assert(!before.contains(k)) by {
                if before.contains(k) {
                    let j = choose|j: int| 0 <= j < before.len() && before[j] == k;
                    assert(keys@[j] == keys@[i as int]);
                }
            }
            assert(prev.contains_key(k) <==> a.contains_key(k));
            assert(cur == count(a, k));
        }
        into.insert(k, cur + add);
        i = i + 1;
        proof {
            let after = keys@.subrange(0, i as int);
            assert(after =~= before.push(k));
            assert forall|x: ByteLookupKey|
                after.contains(x) <==> (before.contains(x) || x == k) by {
                if before.contains(x) {
                    let j = choose|j: int| 0 <= j < before.len() && before[j] == x;
                    assert(after[j] == x);
                }
                if x == k {
                    assert(after[i - 1] == k);
                }
            }
            assert forall|x: ByteLookupKey|
                into@.contains_key(x) <==> (a.contains_key(x) || after.contains(x)) by {
                assert(into@.contains_key(x) <==> (prev.contains_key(x) || x == k));
                assert(prev.contains_key(x) <==> (a.contains_key(x) || before.contains(x)));
            }
        }
    }
    proof {
        assert(keys@.subrange(0, i as int) =~= keys@);
        assert forall|k: ByteLookupKey| keys@.contains(k) <==> b.contains_key(k) by {
            assert(keys@.to_set().contains(k) <==> from@.dom().contains(k));
        }
        assert(shard_counts(*into) =~= merge_shard(a, b));
    }
}

/// Adds the lookups of `from` to those of `into`: a shard that only `from`
/// has is adopted whole, and where both have a shard its multiplicities are
/// added lookup by lookup.
pub fn merge_byte_lookups(into: &mut ByteLookups, from: ByteLookups)
    requires
        sums_fit(lookup_counts(*old(into)), lookup_counts(from)),
    ensures
        lookup_counts(*final(into)) == merge_counts(
            lookup_counts(*old(into)),
            lookup_counts(from),
        ),
{
    let mut from = from;
    let shards = lookup_shards(&from);
    let ghost a = lookup_counts(*old(into));
    let ghost b = lookup_counts(from);
    let mut i: usize = 0;
    while i < shards.len()
        invariant
            0 <= i <= shards@.len(),
            shards@.no_duplicates(),
            shards@.to_set() == b.dom(),
            sums_fit(a, b),
            forall|s: u32|
                from@.contains_key(s) <==> (b.contains_key(s) && !shards@.subrange(
                    0,
                    i as int,
                ).contains(s)),
            forall|s: u32| from@.contains_key(s) ==> shard_counts(#[trigger] from@[s]) == b[s],
            forall|s: u32|
                into@.contains_key(s) <==> (a.contains_key(s) || shards@.subrange(
                    0,
                    i as int,
                ).contains(s)),
            forall|s: u32|
                into@.contains_key(s) ==> shard_counts(#[trigger] into@[s]) == (if shards@.subrange(
                    0,
                    i as int,
                ).contains(s) {
                    merge_shard(counts_at(a, s), counts_at(b, s))
                } else {
                    a[s]
                }),
        decreases shards@.len() - i,
    {
        let s = shards[i];
        let ghost before = shards@.subrange(0, i as int);
        let ghost prev_into = into@;
        let ghost prev_from = from@;
        proof {
            assert(shards@.to_set().contains(s));
            assert(!before.contains(s)) by {
                if before.contains(s) {
                    let j = choose|j: int| 0 <= j < before.len() && before[j] == s;
                    assert(shards@[j] == shards@[i as int]);
                }
            }
            assert(shard_sums_fit(counts_at(a, s), counts_at(b, s)));
        }
        let events: ShardLookups = match from.remove(&s) {
            Some(m) => m,
            None => BTreeMap::new(),
        };
        assert(shard_counts(events) == b[s]);
        match into.remove(&s) {
            Some(existing) => {
                let mut existing = existing;
                merge_shard_lookups(&mut existing, events);
                into.insert(s, existing);
            },
            None => {
                assert(shard_counts(events) =~= merge_shard(counts_at(a, s), counts_at(b, s)));
                into.insert(s, events);
            },
        }
        i = i + 1;
        proof {
            let after = shards@.subrange(0, i as int);
            assert(after =~= before.push(s));
            assert forall|x: u32| after.contains(x) <==> (before.contains(x) || x == s) by {
                if before.contains(x) {
                    let j = choose|j: int| 0 <= j < before.len() && before[j] == x;
                    assert(after[j] == x);
                }
                if x == s {
                    assert(after[i - 1] == s);
                }
            }
            assert forall|x: u32|
                from@.contains_key(x) <==> (b.contains_key(x) && !after.contains(x)) by {
                assert(from@.contains_key(x) <==> (prev_from.contains_key(x) && x != s));
                assert(prev_from.contains_key(x) <==> (b.contains_key(x) && !before.contains(x)));
            }
            assert forall|x: u32|
                into@.contains_key(x) <==> (a.contains_key(x) || after.contains(x)) by {
                assert(into@.contains_key(x) <==> (prev_into.contains_key(x) || x == s));
                assert(prev_into.contains_key(x) <==> (a.contains_key(x) || before.contains(x)));
            }
            assert forall|x: u32| into@.contains_key(x) implies shard_counts(#[trigger] into@[x]) == (
            if after.contains(x) {
                merge_shard(counts_at(a, x), counts_at(b, x))
            } else {
                a[x]
            }) by {
                if x != s {
                    assert(prev_into.contains_key(x));
                    assert(into@[x] == prev_into[x]);
                }
            }
            assert forall|x: u32| from@.contains_key(x) implies shard_counts(#[trigger] from@[x])
                == b[x] by {
                assert(prev_from.contains_key(x));
                assert(from@[x] == prev_from[x]);
            }
        }
    }
    proof {
        assert(shards@.subrange(0, i as int) =~= shards@);
        assert forall|s: u32| shards@.contains(s) <==> b.contains_key(s) by {
            assert(shards@.to_set().contains(s) <==> b.dom().contains(s));
        }
        assert forall|s: u32| a.contains_key(s) && !b.contains_key(s) implies a[s] == merge_shard(
            counts_at(a, s),
            counts_at(b, s),
        ) by {
            assert(a[s] =~= merge_shard(counts_at(a, s), counts_at(b, s)));
        }
        assert(lookup_counts(*into) =~= merge_counts(a, b));
    }
}


/// Merged, a lookup's multiplicity is the sum of its multiplicities in the
/// two tables; it is adopted as it is where only one of them has it.
pub proof fn lemma_merge_adds(a: LookupCounts, b: LookupCounts, s: u32, k: ByteLookupKey)
    ensures
        count(counts_at(merge_counts(a, b), s), k) == count(counts_at(a, s), k) + count(
            counts_at(b, s),
            k,
        ),
        merge_counts(a, b).contains_key(s) <==> (a.contains_key(s) || b.contains_key(s)),
        counts_at(merge_counts(a, b), s).contains_key(k) <==> (counts_at(a, s).contains_key(k)
            || counts_at(b, s).contains_key(k)),
{
}

/// Merging does not depend on the order of the two tables.
pub proof fn lemma_merge_commutative(a: LookupCounts, b: LookupCounts)
    ensures
        merge_counts(a, b) == merge_counts(b, a),
{
    assert forall|s: u32| merge_counts(a, b).contains_key(s) implies #[trigger] merge_counts(
        a,
        b,
    )[s] == merge_counts(b, a)[s] by {
        assert(merge_shard(counts_at(a, s), counts_at(b, s)) =~= merge_shard(
            counts_at(b, s),
            counts_at(a, s),
        ));
    }
    assert(merge_counts(a, b) =~= merge_counts(b, a));
}

/// Merging three tables does not depend on which two are merged first.
pub proof fn lemma_merge_associative(a: LookupCounts, b: LookupCounts, c: LookupCounts)
    ensures
        merge_counts(merge_counts(a, b), c) == merge_counts(a, merge_counts(b, c)),
{
    let left = merge_counts(merge_counts(a, b), c);
    let right = merge_counts(a, merge_counts(b, c));
    assert forall|s: u32| left.contains_key(s) implies #[trigger] left[s] == right[s] by {
        assert(counts_at(merge_counts(a, b), s) =~= merge_shard(counts_at(a, s), counts_at(b, s)));
        assert(counts_at(merge_counts(b, c), s) =~= merge_shard(counts_at(b, s), counts_at(c, s)));
        assert(left[s] =~= right[s]);
    }
    assert(left =~= right);
}

/// Merging with a table that holds nothing changes nothing.
pub proof fn lemma_merge_empty(a: LookupCounts)
    ensures
        merge_counts(a, Map::empty()) == a,
{
    assert forall|s: u32| a.contains_key(s) implies #[trigger] merge_counts(a, Map::empty())[s]
        == a[s] by {
        assert(merge_shard(counts_at(a, s), counts_at(Map::empty(), s)) =~= a[s]);
    }
    assert(merge_counts(a, Map::empty()) =~= a);
}

/// The sum of all multiplicities of one shard.
pub open spec fn shard_total(m: ShardCounts) -> nat
    decreases m.dom().len(),
    when m.dom().finite()
    via shard_total_decreases
{
    if m.dom().len() == 0 {
        0
    } else {
        let k = m.dom().choose();
        m[k] + shard_total(m.remove(k))
    }
}

#[via_fn]
proof fn shard_total_decreases(m: ShardCounts) {
    if m.dom().len() != 0 {
        let k = m.dom().choose();
        if m.dom().is_empty() {
            assert(m.dom() =~= Set::empty());
        }
        assert(m.dom().contains(k));
        assert(m.remove(k).dom() =~= m.dom().remove(k));
    }
}

/// The sum of all multiplicities of all shards.
pub open spec fn lookups_total(c: LookupCounts) -> nat
    decreases c.dom().len(),
    when c.dom().finite()
    via lookups_total_decreases
{
    if c.dom().len() == 0 {
        0
    } else {
        let s = c.dom().choose();
        shard_total(c[s]) + lookups_total(c.remove(s))
    }
}

#[via_fn]
proof fn lookups_total_decreases(c: LookupCounts) {
    if c.dom().len() != 0 {
        let s = c.dom().choose();
        if c.dom().is_empty() {
            assert(c.dom() =~= Set::empty());
        }
        assert(c.dom().contains(s));
        assert(c.remove(s).dom() =~= c.dom().remove(s));
    }
}

/// The total of a table is the total of any one of its shards plus the total
/// of the table without that shard.
pub proof fn lemma_lookups_total_remove(c: LookupCounts, s: u32)
    requires
        c.dom().finite(),
        c.contains_key(s),
    ensures
        lookups_total(c) == shard_total(c[s]) + lookups_total(c.remove(s)),
    decreases c.dom().len(),
{
    assert(c.dom().len() != 0) by {
        if c.dom().len() == 0 {
            assert(c.dom() =~= Set::empty());
        }
    }
    let t = c.dom().choose();
    assert(c.dom().contains(t));
    assert(c.remove(t).dom() =~= c.dom().remove(t));
    if t != s {
        assert(c.remove(s).dom() =~= c.dom().remove(s));
        lemma_lookups_total_remove(c.remove(t), s);
        lemma_lookups_total_remove(c.remove(s), t);
        assert(c.remove(t).remove(s) =~= c.remove(s).remove(t));
    }
}

/// A table that holds one shard has that shard's total.
pub proof fn lemma_lookups_total_single(s: u32, m: ShardCounts)
    ensures
        lookups_total(map![s => m]) == shard_total(m),
{
    let c = map![s => m];
    assert(c.dom() =~= set![s]);
    lemma_lookups_total_remove(c, s);
    assert(c.remove(s).dom() =~= Set::empty());
    assert(c.remove(s).dom().len() == 0);
}

/// A shard that holds nothing has total zero.
pub proof fn lemma_shard_total_empty()
    ensures
        shard_total(Map::empty()) == 0,
{
    assert(Map::<ByteLookupKey, nat>::empty().dom() =~= Set::empty());
}

/// What a table holds is finite, shard by shard and as a whole.
pub proof fn lemma_lookup_counts_finite(t: ByteLookups)
    ensures
        lookup_counts(t).dom().finite(),
        forall|s: u32|
            lookup_counts(t).contains_key(s) ==> (#[trigger] lookup_counts(t)[s]).dom().finite(),
{
    assert(lookup_counts(t).dom() =~= t@.dom());
    assert forall|s: u32| lookup_counts(t).contains_key(s) implies (#[trigger] lookup_counts(
        t,
    )[s]).dom().finite() by {
        assert(shard_counts(t@[s]).dom() =~= t@[s]@.dom());
    }
}


/// Counting a lookup keeps every multiplicity positive.
pub proof fn lemma_record_lookup_positive(c: LookupCounts, k: ByteLookupKey)
    requires
        counts_positive(c),
    ensures
        counts_positive(record_lookup(c, k)),
{
    let after = record_lookup(c, k);
    assert forall|s: u32, x: ByteLookupKey|
        after.contains_key(s) && #[trigger] after[s].contains_key(x) implies after[s][x] > 0 by {
        if s == k.0 {
            if x != k {
                assert(c.contains_key(s) && c[s].contains_key(x));
            }
        } else {
            assert(c.contains_key(s) && c[s].contains_key(x));
        }
    }
}

/// Counting lookups keeps every multiplicity positive.
pub proof fn lemma_record_lookups_positive(c: LookupCounts, keys: Seq<ByteLookupKey>)
    requires
        counts_positive(c),
    ensures
        counts_positive(record_lookups(c, keys)),
    decreases keys.len(),
{
    if keys.len() > 0 {
        lemma_record_lookups_positive(c, keys.drop_last());
        lemma_record_lookup_positive(record_lookups(c, keys.drop_last()), keys.last());
    }
}

/// Merging keeps every multiplicity positive.
pub proof fn lemma_merge_positive(a: LookupCounts, b: LookupCounts)
    requires
        counts_positive(a),
        counts_positive(b),
    ensures
        counts_positive(merge_counts(a, b)),
{
    let merged = merge_counts(a, b);
    assert forall|s: u32, x: ByteLookupKey|
        merged.contains_key(s) && #[trigger] merged[s].contains_key(x) implies merged[s][x]
        > 0 by {
        if counts_at(a, s).contains_key(x) {
            assert(a.contains_key(s) && a[s].contains_key(x));
        } else {
            assert(b.contains_key(s) && b[s].contains_key(x));
        }
    }
}

} // verus!
