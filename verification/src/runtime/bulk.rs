//! Handing events over to a record in bulk.

use itertools::Itertools;
use std::collections::HashMap;
use vstd::prelude::*;

use crate::bytes::{
    count, counts_at, counts_positive, lemma_record_lookups_positive, record_byte_lookup,
    record_lookup, record_lookups, ByteLookupEvent, ByteLookupKey, LookupCounts,
};
use crate::runtime::events::AluEvent;
use crate::runtime::opcode::{AluFamily, Opcode};
use crate::runtime::record::ExecutionRecord;

verus! {

/// The events handed over for `opcode`: none where the map has no entry for
/// the opcode's code.
pub open spec fn events_for(alu_events: Map<u8, Vec<AluEvent>>, opcode: Opcode) -> Seq<AluEvent> {
    if alu_events.contains_key(opcode.spec_code()) {
        alu_events[opcode.spec_code()]@
    } else {
        Seq::empty()
    }
}

/// Every key is the code of an opcode whose events may be handed over in
/// bulk.
pub open spec fn all_bulk_opcodes(alu_events: Map<u8, Vec<AluEvent>>) -> bool {
    forall|code: u8| #[trigger]
        alu_events.contains_key(code) ==> (Opcode::spec_from_code(code) matches Some(op)
            && op.spec_alu_family() is Some)
}

/// The events for `opcode`, once its code is among the codes already dealt
/// with.
spec fn dealt(alu_events: Map<u8, Vec<AluEvent>>, done: Seq<u8>, opcode: Opcode) -> Seq<AluEvent> {
    if done.contains(opcode.spec_code()) {
        events_for(alu_events, opcode)
    } else {
        Seq::empty()
    }
}

/// The keys of the map in ascending order, each once.
///
/// Calls `itertools::Itertools::sorted` on the keys, which collects them and
/// sorts them ascending with the sort of slices. The keys of a map are
/// distinct, so what comes back ascends strictly, and it holds the keys and
/// nothing else.
#[verifier::external_body]
fn sorted_codes(alu_events: &HashMap<u8, Vec<AluEvent>>) -> (codes: Vec<u8>)
    ensures
        codes@.to_set() == alu_events@.dom(),
        forall|i: int, j: int| 0 <= i < j < codes@.len() ==> codes@[i] < codes@[j],
{
    alu_events.keys().copied().sorted().collect()
}

/// Appends a copy of every event of `from` to `into`.
fn extend_events(into: &mut Vec<AluEvent>, from: &Vec<AluEvent>)
    ensures
        final(into)@ == old(into)@ + from@,
{
    let mut i: usize = 0;
    while i < from.len()
        invariant
            0 <= i <= from@.len(),
            into@ == old(into)@ + from@.subrange(0, i as int),
        decreases from@.len() - i,
    {
        into.push(from[i]);
        i = i + 1;
        assert(into@ =~= old(into)@ + from@.subrange(0, i as int));
    }
    assert(from@.subrange(0, i as int) =~= from@);
}

/// What the streams hold once the codes in `done` are dealt with.
spec fn bulk_added(
    now: ExecutionRecord,
    before: ExecutionRecord,
    m: Map<u8, Vec<AluEvent>>,
    done: Seq<u8>,
) -> bool {
    &&& now.add_events@ == before.add_events@ + dealt(m, done, Opcode::ADD)
    &&& now.mul_events@ == before.mul_events@ + dealt(m, done, Opcode::MUL) + dealt(
        m,
        done,
        Opcode::MULH,
    ) + dealt(m, done, Opcode::MULHU) + dealt(m, done, Opcode::MULHSU)
    &&& now.sub_events@ == before.sub_events@ + dealt(m, done, Opcode::SUB)
    &&& now.bitwise_events@ == before.bitwise_events@ + dealt(m, done, Opcode::XOR) + dealt(
        m,
        done,
        Opcode::OR,
    ) + dealt(m, done, Opcode::AND)
    &&& now.shift_left_events@ == before.shift_left_events@ + dealt(m, done, Opcode::SLL)
    &&& now.shift_right_events@ == before.shift_right_events@ + dealt(m, done, Opcode::SRL)
        + dealt(m, done, Opcode::SRA)
    &&& now.lt_events@ == before.lt_events@ + dealt(m, done, Opcode::SLT) + dealt(
        m,
        done,
        Opcode::SLTU,
    )
}

/// Whether `now` is `before` but for the streams that events are handed over
/// to in bulk.
pub open spec fn only_alu_streams_differ(now: ExecutionRecord, before: ExecutionRecord) -> bool {
    now == (ExecutionRecord {
        add_events: now.add_events,
        mul_events: now.mul_events,
        sub_events: now.sub_events,
        bitwise_events: now.bitwise_events,
        shift_left_events: now.shift_left_events,
        shift_right_events: now.shift_right_events,
        lt_events: now.lt_events,
        ..before
    })
}

/// Before any code is dealt with, the streams are as they were.
proof fn lemma_bulk_start(now: ExecutionRecord, m: Map<u8, Vec<AluEvent>>)
    ensures
        bulk_added(now, now, m, Seq::empty()),
        only_alu_streams_differ(now, now),
{
    let none = Seq::<AluEvent>::empty();
    assert(now.add_events@ + none =~= now.add_events@);
    assert(now.mul_events@ + none + none + none + none =~= now.mul_events@);
    assert(now.sub_events@ + none =~= now.sub_events@);
    assert(now.bitwise_events@ + none + none + none =~= now.bitwise_events@);
    assert(now.shift_left_events@ + none =~= now.shift_left_events@);
    assert(now.shift_right_events@ + none + none =~= now.shift_right_events@);
    assert(now.lt_events@ + none + none =~= now.lt_events@);
}

/// Whether `after` is `now` with `events` behind the stream of `family`.
spec fn family_extended(
    after: ExecutionRecord,
    now: ExecutionRecord,
    family: AluFamily,
    events: Seq<AluEvent>,
) -> bool {
    &&& after.add_events@ == if family == AluFamily::Add {
        now.add_events@ + events
    } else {
        now.add_events@
    }
    &&& after.mul_events@ == if family == AluFamily::Mul {
        now.mul_events@ + events
    } else {
        now.mul_events@
    }
    &&& after.sub_events@ == if family == AluFamily::Sub {
        now.sub_events@ + events
    } else {
        now.sub_events@
    }
    &&& after.bitwise_events@ == if family == AluFamily::Bitwise {
        now.bitwise_events@ + events
    } else {
        now.bitwise_events@
    }
    &&& after.shift_left_events@ == if family == AluFamily::ShiftLeft {
        now.shift_left_events@ + events
    } else {
        now.shift_left_events@
    }
    &&& after.shift_right_events@ == if family == AluFamily::ShiftRight {
        now.shift_right_events@ + events
    } else {
        now.shift_right_events@
    }
    &&& after.lt_events@ == if family == AluFamily::Lt {
        now.lt_events@ + events
    } else {
        now.lt_events@
    }
}

/// Dealing with the next code in ascending order keeps the streams as
/// `bulk_added` says.
proof fn lemma_bulk_step(
    after: ExecutionRecord,
    now: ExecutionRecord,
    before: ExecutionRecord,
    m: Map<u8, Vec<AluEvent>>,
    done: Seq<u8>,
    code: u8,
)
    requires
        bulk_added(now, before, m, done),
        forall|c: u8| done.contains(c) ==> c < code,
        m.contains_key(code),
        Opcode::spec_from_code(code) matches Some(op) && op.spec_alu_family() is Some,
        family_extended(
            after,
            now,
            Opcode::spec_from_code(code)->0.spec_alu_family()->0,
            m[code]@,
        ),
    ensures
        bulk_added(after, before, m, done.push(code)),
{
    let next = done.push(code);
    assert forall|c: u8| next.contains(c) <==> (done.contains(c) || c == code) by {
        if done.contains(c) {
            let k = choose|k: int| 0 <= k < done.len() && done[k] == c;
            assert(next[k] == c);
        }
        if c == code {
            assert(next[done.len() as int] == code);
        }
    }
    let empty = Seq::<AluEvent>::empty();
    assert(after.add_events@ =~= before.add_events@ + dealt(m, next, Opcode::ADD));
    assert(after.mul_events@ =~= before.mul_events@ + dealt(m, next, Opcode::MUL) + dealt(
        m,
        next,
        Opcode::MULH,
    ) + dealt(m, next, Opcode::MULHU) + dealt(m, next, Opcode::MULHSU));
    assert(after.sub_events@ =~= before.sub_events@ + dealt(m, next, Opcode::SUB));
    assert(after.bitwise_events@ =~= before.bitwise_events@ + dealt(m, next, Opcode::XOR) + dealt(
        m,
        next,
        Opcode::OR,
    ) + dealt(m, next, Opcode::AND));
    assert(after.shift_left_events@ =~= before.shift_left_events@ + dealt(m, next, Opcode::SLL));
    assert(after.shift_right_events@ =~= before.shift_right_events@ + dealt(
        m,
        next,
        Opcode::SRL,
    ) + dealt(m, next, Opcode::SRA));
    assert(after.lt_events@ =~= before.lt_events@ + dealt(m, next, Opcode::SLT) + dealt(
        m,
        next,
        Opcode::SLTU,
    ));
}

impl ExecutionRecord {
    /// Whether `self` is `before` with the events of `alu_events` added: each
    /// opcode's events behind the stream of the opcode's family, and where a
    /// family has several opcodes, in the order of their codes.
    pub open spec fn has_alu_events_added(
        self,
        before: ExecutionRecord,
        alu_events: Map<u8, Vec<AluEvent>>,
    ) -> bool {
        &&& self.add_events@ == before.add_events@ + events_for(alu_events, Opcode::ADD)
        &&& self.mul_events@ == before.mul_events@ + events_for(alu_events, Opcode::MUL)
            + events_for(alu_events, Opcode::MULH) + events_for(alu_events, Opcode::MULHU)
            + events_for(alu_events, Opcode::MULHSU)
        &&& self.sub_events@ == before.sub_events@ + events_for(alu_events, Opcode::SUB)
        &&& self.bitwise_events@ == before.bitwise_events@ + events_for(alu_events, Opcode::XOR)
            + events_for(alu_events, Opcode::OR) + events_for(alu_events, Opcode::AND)
        &&& self.shift_left_events@ == before.shift_left_events@ + events_for(
            alu_events,
            Opcode::SLL,
        )
        &&& self.shift_right_events@ == before.shift_right_events@ + events_for(
            alu_events,
            Opcode::SRL,
        ) + events_for(alu_events, Opcode::SRA)
        &&& self.lt_events@ == before.lt_events@ + events_for(alu_events, Opcode::SLT)
            + events_for(alu_events, Opcode::SLTU)
        &&& only_alu_streams_differ(self, before)
    }

    /// Appends a copy of `events` to the stream of the family of `opcode`.
    fn add_opcode_events(&mut self, opcode: Opcode, events: &Vec<AluEvent>)
        requires
            opcode.spec_alu_family() is Some,
        ensures
            family_extended(*final(self), *old(self), opcode.spec_alu_family()->0, events@),
            only_alu_streams_differ(*final(self), *old(self)),
    {
        match opcode.alu_family() {
            Some(AluFamily::Add) => {
                extend_events(&mut self.add_events, events);
            },
            Some(AluFamily::Mul) => {
                extend_events(&mut self.mul_events, events);
            },
            Some(AluFamily::Sub) => {
                extend_events(&mut self.sub_events, events);
            },
            Some(AluFamily::Bitwise) => {
                extend_events(&mut self.bitwise_events, events);
            },
            Some(AluFamily::ShiftLeft) => {
                extend_events(&mut self.shift_left_events, events);
            },
            Some(AluFamily::ShiftRight) => {
                extend_events(&mut self.shift_right_events, events);
            },
            Some(AluFamily::Lt) => {
                extend_events(&mut self.lt_events, events);
            },
            None => {},
        }
    }

    /// Appends the events handed over for `code`, the next code in ascending
    /// order after those in `done`.
    fn add_code_events(
        &mut self,
        alu_events: &HashMap<u8, Vec<AluEvent>>,
        code: u8,
        Ghost(before): Ghost<ExecutionRecord>,
        Ghost(done): Ghost<Seq<u8>>,
    )
        requires
            all_bulk_opcodes(alu_events@),
            alu_events@.contains_key(code),
            forall|c: u8| done.contains(c) ==> c < code,
            bulk_added(*old(self), before, alu_events@, done),
            only_alu_streams_differ(*old(self), before),
        ensures
            bulk_added(*final(self), before, alu_events@, done.push(code)),
            only_alu_streams_differ(*final(self), before),
    {
        let ghost now = *self;
        match (alu_events.get(&code), Opcode::from_code(code)) {
            (Some(events), Some(opcode)) => {
                self.add_opcode_events(opcode, events);
            },
            _ => {},
        }
        proof {
            lemma_bulk_step(*self, now, before, alu_events@, done, code);
        }
    }

    /// Records the events of `alu_events`, which maps the code of an opcode to
    /// the events of that opcode. The opcodes are gone through in ascending
    /// order of their codes, so that the outcome does not depend on the order
    /// in which the map holds them.
    pub fn add_alu_events(&mut self, alu_events: &HashMap<u8, Vec<AluEvent>>)
        requires
            all_bulk_opcodes(alu_events@),
        ensures
            final(self).has_alu_events_added(*old(self), alu_events@),
    {
        let codes = sorted_codes(alu_events);
        let ghost m = alu_events@;
        let mut i: usize = 0;
        proof {
            lemma_bulk_start(*self, m);
            assert(codes@.subrange(0, 0) =~= Seq::<u8>::empty());
        }
        while i < codes.len()
            invariant
                0 <= i <= codes@.len(),
                m == alu_events@,
                all_bulk_opcodes(m),
                codes@.to_set() == m.dom(),
                forall|a: int, b: int| 0 <= a < b < codes@.len() ==> codes@[a] < codes@[b],
                bulk_added(*self, *old(self), m, codes@.subrange(0, i as int)),
                only_alu_streams_differ(*self, *old(self)),
            decreases codes@.len() - i,
        {
            let code = codes[i];
            let ghost done = codes@.subrange(0, i as int);
            proof {
                assert(codes@.to_set().contains(code));
                assert forall|c: u8| done.contains(c) implies c < code by {
                    let k = choose|k: int| 0 <= k < done.len() && done[k] == c;
                    assert(codes@[k] < codes@[i as int]);
                }
                assert(codes@.subrange(0, i + 1) =~= done.push(code));
            }
            self.add_code_events(alu_events, code, Ghost(*old(self)), Ghost(done));
            i = i + 1;
        }
        proof {
            let done = codes@.subrange(0, i as int);
            assert(done =~= codes@);
            assert forall|c: u8| done.contains(c) <==> m.contains_key(c) by {
                assert(codes@.to_set().contains(c) <==> m.dom().contains(c));
            }
        }
    }
}


/// Every multiplicity can grow by `n` and still be held by a `usize`.
pub open spec fn has_room(c: LookupCounts, n: nat) -> bool {
    forall|s: u32, k: ByteLookupKey| #[trigger] count(counts_at(c, s), k) + n <= usize::MAX
}

/// The keys of the events, in their order.
pub open spec fn keys_of(events: Seq<ByteLookupEvent>) -> Seq<ByteLookupKey> {
    events.map_values(|e: ByteLookupEvent| e.spec_key())
}

/// One lookup takes one unit of room, and no more.
proof fn lemma_room_after_lookup(c: LookupCounts, key: ByteLookupKey, n: nat)
    requires
        has_room(c, n + 1),
    ensures
        has_room(record_lookup(c, key), n),
{
    let after = record_lookup(c, key);
    assert forall|s: u32, k: ByteLookupKey| #[trigger]
        count(counts_at(after, s), k) + n <= usize::MAX by {
        assert(count(counts_at(c, s), k) + (n + 1) <= usize::MAX);
    }
}

impl ExecutionRecord {
    /// Counts one more lookup of each of `blu_events`, in their order.
    pub fn add_byte_lookup_events(&mut self, blu_events: Vec<ByteLookupEvent>)
        requires
            has_room(old(self).lookups(), blu_events@.len()),
        ensures
            final(self).lookups() == record_lookups(old(self).lookups(), keys_of(blu_events@)),
            counts_positive(old(self).lookups()) ==> counts_positive(final(self).lookups()),
            *final(self) == (ExecutionRecord {
                byte_lookups: final(self).byte_lookups,
                ..*old(self)
            }),
    {
        let ghost keys = keys_of(blu_events@);
        let mut i: usize = 0;
        assert(keys.subrange(0, 0) =~= Seq::<ByteLookupKey>::empty());
        while i < blu_events.len()
            invariant
                0 <= i <= blu_events@.len(),
                keys == keys_of(blu_events@),
                self.lookups() == record_lookups(old(self).lookups(), keys.subrange(0, i as int)),
                has_room(self.lookups(), (blu_events@.len() - i) as nat),
                *self == (ExecutionRecord { byte_lookups: self.byte_lookups, ..*old(self) }),
            decreases blu_events@.len() - i,
        {
            let event = blu_events[i];
            proof {
                let room = (blu_events@.len() - i) as nat;
                assert(count(counts_at(self.lookups(), event.shard), event.spec_key()) + room
                    <= usize::MAX);
                lemma_room_after_lookup(
                    self.lookups(),
                    event.spec_key(),
                    (blu_events@.len() - i - 1) as nat,
                );
                let next = keys.subrange(0, i + 1);
                assert(next.drop_last() =~= keys.subrange(0, i as int));
                assert(next.last() == event.spec_key());
            }
            record_byte_lookup(&mut self.byte_lookups, event);
            i = i + 1;
        }
        assert(keys.subrange(0, i as int) =~= keys);
        proof {
            if counts_positive(old(self).lookups()) {
                lemma_record_lookups_positive(old(self).lookups(), keys);
            }
        }
    }
}

} // verus!
