//! The execution record: the event log one execution produces, and the rule
//! that splits it into shards.

use std::collections::BTreeMap;
use std::sync::Arc;
use vstd::prelude::*;

use crate::air::public_values::PublicValues;
use crate::bytes::{
    count, counts_at, counts_positive, lemma_lookup_counts_finite, lemma_lookups_total_remove,
    lemma_lookups_total_single, lemma_merge_positive, lemma_record_lookup_positive,
    lemma_shard_total_empty, lookup_counts, lookups_total, merge_byte_lookups, merge_counts,
    record_byte_lookup, record_lookup, shard_counts, sums_fit, ByteLookupEvent, ByteLookupKey,
    ByteLookups, LookupCounts, ShardCounts, ShardLookups,
};
use crate::runtime::chunks::{
    chunk, chunks_before, find_run_starts, keep_chunks, lemma_run_bounds, lemma_run_constant,
    lemma_run_starts, lemma_runs_tile, num_runs, run_end, run_events, run_shard, run_start,
    run_starts, starts_run, take_chunk,
};
use crate::runtime::events::{
    AluEvent, Blake3CompressInnerEvent, Bls12381G2AffineAddEvent, Bls12381G2AffineDoubleEvent,
    CpuEvent, ECAddEvent, ECDoubleEvent, FieldAddEvent, FieldMulEvent, KeccakPermuteEvent,
    MemoryInitializeFinalizeEvent, QuadFieldAddEvent, QuadFieldMulEvent, QuadFieldSubEvent,
    ShaCompressEvent, ShaExtendEvent,
};
use crate::runtime::memory::MemoryRecordEnum;
use crate::runtime::program::Program;
use crate::syscall::precompiles::edwards::ed_decompress::EdDecompressEvent;
use crate::syscall::precompiles::field::sub::FieldSubEvent;
use crate::syscall::precompiles::weierstrass::weierstrass_decompress::{
    Bls12381G1DecompressEvent, Secp256k1DecompressEvent,
};

verus! {

/// A record of the execution of a program: event data for everything that
/// happened during the execution, or during one shard of it.
#[derive(Clone, Debug)]
pub struct ExecutionRecord {
    /// The index of the shard.
    pub index: u32,
    /// The program.
    pub program: Arc<Program>,
    /// The CPU events, one per executed instruction.
    pub cpu_events: Vec<CpuEvent>,
    /// The ADD events.
    pub add_events: Vec<AluEvent>,
    /// The MUL events, those of the high-half variants among them.
    pub mul_events: Vec<AluEvent>,
    /// The SUB events.
    pub sub_events: Vec<AluEvent>,
    /// The XOR, OR and AND events.
    pub bitwise_events: Vec<AluEvent>,
    /// The SLL events.
    pub shift_left_events: Vec<AluEvent>,
    /// The SRL and SRA events.
    pub shift_right_events: Vec<AluEvent>,
    /// The DIV, DIVU, REM and REMU events.
    pub divrem_events: Vec<AluEvent>,
    /// The SLT and SLTU events.
    pub lt_events: Vec<AluEvent>,
    /// The byte lookups: shard, then lookup, then multiplicity. They are kept
    /// by shard so that no multiplicity overflows.
    pub byte_lookups: ByteLookups,
    pub sha_extend_events: Vec<ShaExtendEvent>,
    pub sha_compress_events: Vec<ShaCompressEvent>,
    pub keccak_permute_events: Vec<KeccakPermuteEvent>,
    pub ed_add_events: Vec<ECAddEvent>,
    pub ed_decompress_events: Vec<EdDecompressEvent>,
    pub secp256k1_add_events: Vec<ECAddEvent>,
    pub secp256k1_double_events: Vec<ECDoubleEvent>,
    pub bn254_add_events: Vec<ECAddEvent>,
    pub bn254_double_events: Vec<ECDoubleEvent>,
    pub bls12381_g1_add_events: Vec<ECAddEvent>,
    pub bls12381_g1_double_events: Vec<ECDoubleEvent>,
    pub secp256k1_decompress_events: Vec<Secp256k1DecompressEvent>,
    pub blake3_compress_inner_events: Vec<Blake3CompressInnerEvent>,
    pub bls12381_fp_add_events: Vec<FieldAddEvent>,
    pub bls12381_fp_sub_events: Vec<FieldSubEvent>,
    pub bls12381_fp_mul_events: Vec<FieldMulEvent>,
    pub bls12381_fp2_add_events: Vec<QuadFieldAddEvent>,
    pub bls12381_fp2_sub_events: Vec<QuadFieldSubEvent>,
    pub bls12381_fp2_mul_events: Vec<QuadFieldMulEvent>,
    pub bls12381_g1_decompress_events: Vec<Bls12381G1DecompressEvent>,
    pub bls12381_g2_add_events: Vec<Bls12381G2AffineAddEvent>,
    pub bls12381_g2_double_events: Vec<Bls12381G2AffineDoubleEvent>,
    /// The first state of every memory word the execution touched.
    pub memory_initialize_events: Vec<MemoryInitializeFinalizeEvent>,
    /// The last state of every memory word the execution touched.
    pub memory_finalize_events: Vec<MemoryInitializeFinalizeEvent>,
    /// The public values.
    pub public_values: PublicValues,
}

/// How many events of each kind one shard takes.
#[derive(Clone, Copy, Debug)]
pub struct ShardingConfig {
    pub shard_size: usize,
    pub add_len: usize,
    pub mul_len: usize,
    pub sub_len: usize,
    pub bitwise_len: usize,
    pub shift_left_len: usize,
    pub shift_right_len: usize,
    pub divrem_len: usize,
    pub lt_len: usize,
    pub field_len: usize,
    pub keccak_len: usize,
    pub secp256k1_add_len: usize,
    pub secp256k1_double_len: usize,
    pub bn254_add_len: usize,
    pub bn254_double_len: usize,
    pub bls12381_g1_add_len: usize,
    pub bls12381_g1_double_len: usize,
    pub bls12381_fp_add_len: usize,
    pub bls12381_fp_sub_len: usize,
    pub bls12381_fp_mul_len: usize,
    pub bls12381_fp2_add_len: usize,
    pub bls12381_fp2_sub_len: usize,
    pub bls12381_fp2_mul_len: usize,
}

/// The memory accesses of one instruction.
#[derive(Clone, Copy, Debug)]
pub struct MemoryAccessRecord {
    pub a: Option<MemoryRecordEnum>,
    pub b: Option<MemoryRecordEnum>,
    pub c: Option<MemoryRecordEnum>,
    pub memory: Option<MemoryRecordEnum>,
}

impl Default for MemoryAccessRecord {
    fn default() -> (r: Self)
        ensures
            r.a is None,
            r.b is None,
            r.c is None,
            r.memory is None,
    {
        MemoryAccessRecord { a: None, b: None, c: None, memory: None }
    }
}

impl ShardingConfig {
    /// Every capacity that a stream is cut by is positive.
    pub open spec fn wf(self) -> bool {
        &&& self.add_len > 0
        &&& self.mul_len > 0
        &&& self.sub_len > 0
        &&& self.bitwise_len > 0
        &&& self.shift_left_len > 0
        &&& self.shift_right_len > 0
        &&& self.divrem_len > 0
        &&& self.lt_len > 0
        &&& self.keccak_len > 0
        &&& self.secp256k1_add_len > 0
        &&& self.secp256k1_double_len > 0
        &&& self.bn254_add_len > 0
        &&& self.bn254_double_len > 0
        &&& self.bls12381_g1_add_len > 0
        &&& self.bls12381_g1_double_len > 0
        &&& self.bls12381_fp_add_len > 0
        &&& self.bls12381_fp_sub_len > 0
        &&& self.bls12381_fp_mul_len > 0
        &&& self.bls12381_fp2_add_len > 0
        &&& self.bls12381_fp2_sub_len > 0
        &&& self.bls12381_fp2_mul_len > 0
    }

    /// The rule for capacities that follows from one shard size: every kind
    /// of event gets the shard size, except the field events, which get four
    /// times as much.
    pub open spec fn spec_with_shard_size(shard_size: usize) -> ShardingConfig {
        ShardingConfig {
            shard_size,
            add_len: shard_size,
            mul_len: shard_size,
            sub_len: shard_size,
            bitwise_len: shard_size,
            shift_left_len: shard_size,
            shift_right_len: shard_size,
            divrem_len: shard_size,
            lt_len: shard_size,
            field_len: (shard_size * 4) as usize,
            keccak_len: shard_size,
            secp256k1_add_len: shard_size,
            secp256k1_double_len: shard_size,
            bn254_add_len: shard_size,
            bn254_double_len: shard_size,
            bls12381_g1_add_len: shard_size,
            bls12381_g1_double_len: shard_size,
            bls12381_fp_add_len: shard_size,
            bls12381_fp_sub_len: shard_size,
            bls12381_fp_mul_len: shard_size,
            bls12381_fp2_add_len: shard_size,
            bls12381_fp2_sub_len: shard_size,
            bls12381_fp2_mul_len: shard_size,
        }
    }

    /// The global shard size.
    pub fn shard_size(&self) -> (r: usize)
        ensures
            r == self.shard_size,
    {
        self.shard_size
    }

    /// The configuration that follows from one shard size.
    pub fn with_shard_size(shard_size: usize) -> (r: Self)
        requires
            shard_size * 4 <= usize::MAX,
        ensures
            r == ShardingConfig::spec_with_shard_size(shard_size),
            shard_size > 0 ==> r.wf(),
    {
        ShardingConfig {
            shard_size,
            add_len: shard_size,
            mul_len: shard_size,
            sub_len: shard_size,
            bitwise_len: shard_size,
            shift_left_len: shard_size,
            shift_right_len: shard_size,
            divrem_len: shard_size,
            lt_len: shard_size,
            field_len: shard_size * 4,
            keccak_len: shard_size,
            secp256k1_add_len: shard_size,
            secp256k1_double_len: shard_size,
            bn254_add_len: shard_size,
            bn254_double_len: shard_size,
            bls12381_g1_add_len: shard_size,
            bls12381_g1_double_len: shard_size,
            bls12381_fp_add_len: shard_size,
            bls12381_fp_sub_len: shard_size,
            bls12381_fp_mul_len: shard_size,
            bls12381_fp2_add_len: shard_size,
            bls12381_fp2_sub_len: shard_size,
            bls12381_fp2_mul_len: shard_size,
        }
    }
}

/// A second handle on the shared program.
///
/// Calls `Arc::clone`, which makes another pointer to the same allocation:
/// the program behind the new handle is the program behind `program`.
#[verifier::external_body]
fn share_program(program: &Arc<Program>) -> (r: Arc<Program>)
    ensures
        r == *program,
{
    Arc::clone(program)
}

/// Moves the items out of `v` and leaves it empty.
fn take_events<T>(v: &mut Vec<T>) -> (r: Vec<T>)
    ensures
        r@ == old(v)@,
        final(v)@ == Seq::<T>::empty(),
{
    let mut out: Vec<T> = Vec::new();
    core::mem::swap(v, &mut out);
    out
}

/// The names under which `stats` reports the streams, in its order.
pub open spec fn stat_names() -> Seq<Seq<char>> {
    seq![
        "cpu_events"@,
        "add_events"@,
        "mul_events"@,
        "sub_events"@,
        "bitwise_events"@,
        "shift_left_events"@,
        "shift_right_events"@,
        "divrem_events"@,
        "lt_events"@,
        "sha_extend_events"@,
        "sha_compress_events"@,
        "keccak_permute_events"@,
        "ed_add_events"@,
        "ed_decompress_events"@,
        "secp256k1_add_events"@,
        "secp256k1_double_events"@,
        "bn254_add_events"@,
        "bn254_double_events"@,
        "bls12381_g1_add_events"@,
        "bls12381_g1_double_events"@,
        "k256_decompress_events"@,
        "blake3_compress_inner_events"@,
        "bls12381_g1_decompress_events"@,
        "bls12381_fp_add_events"@,
        "bls12381_fp_sub_events"@,
        "bls12381_fp_mul_events"@,
        "bls12381_fp2_add_events"@,
        "bls12381_fp2_sub_events"@,
        "bls12381_fp2_mul_events"@,
        "bls12381_g2_add_events"@,
        "bls12381_g2_double_events"@,
    ]
}

impl ExecutionRecord {
    /// Every stream of events is empty.
    pub open spec fn streams_empty(self) -> bool {
        &&& self.cpu_events@.len() == 0
        &&& self.add_events@.len() == 0
        &&& self.mul_events@.len() == 0
        &&& self.sub_events@.len() == 0
        &&& self.bitwise_events@.len() == 0
        &&& self.shift_left_events@.len() == 0
        &&& self.shift_right_events@.len() == 0
        &&& self.divrem_events@.len() == 0
        &&& self.lt_events@.len() == 0
        &&& self.sha_extend_events@.len() == 0
        &&& self.sha_compress_events@.len() == 0
        &&& self.keccak_permute_events@.len() == 0
        &&& self.ed_add_events@.len() == 0
        &&& self.ed_decompress_events@.len() == 0
        &&& self.secp256k1_add_events@.len() == 0
        &&& self.secp256k1_double_events@.len() == 0
        &&& self.bn254_add_events@.len() == 0
        &&& self.bn254_double_events@.len() == 0
        &&& self.bls12381_g1_add_events@.len() == 0
        &&& self.bls12381_g1_double_events@.len() == 0
        &&& self.secp256k1_decompress_events@.len() == 0
        &&& self.blake3_compress_inner_events@.len() == 0
        &&& self.bls12381_fp_add_events@.len() == 0
        &&& self.bls12381_fp_sub_events@.len() == 0
        &&& self.bls12381_fp_mul_events@.len() == 0
        &&& self.bls12381_fp2_add_events@.len() == 0
        &&& self.bls12381_fp2_sub_events@.len() == 0
        &&& self.bls12381_fp2_mul_events@.len() == 0
        &&& self.bls12381_g1_decompress_events@.len() == 0
        &&& self.bls12381_g2_add_events@.len() == 0
        &&& self.bls12381_g2_double_events@.len() == 0
        &&& self.memory_initialize_events@.len() == 0
        &&& self.memory_finalize_events@.len() == 0
    }

    /// Every stream of `self` is the stream of `before` followed by that of
    /// `other`.
    pub open spec fn streams_appended(
        self,
        before: ExecutionRecord,
        other: ExecutionRecord,
    ) -> bool {
        &&& self.cpu_events@ == before.cpu_events@ + other.cpu_events@
        &&& self.add_events@ == before.add_events@ + other.add_events@
        &&& self.mul_events@ == before.mul_events@ + other.mul_events@
        &&& self.sub_events@ == before.sub_events@ + other.sub_events@
        &&& self.bitwise_events@ == before.bitwise_events@ + other.bitwise_events@
        &&& self.shift_left_events@ == before.shift_left_events@ + other.shift_left_events@
        &&& self.shift_right_events@ == before.shift_right_events@ + other.shift_right_events@
        &&& self.divrem_events@ == before.divrem_events@ + other.divrem_events@
        &&& self.lt_events@ == before.lt_events@ + other.lt_events@
        &&& self.sha_extend_events@ == before.sha_extend_events@ + other.sha_extend_events@
        &&& self.sha_compress_events@ == before.sha_compress_events@ + other.sha_compress_events@
        &&& self.keccak_permute_events@ == before.keccak_permute_events@
            + other.keccak_permute_events@
        &&& self.ed_add_events@ == before.ed_add_events@ + other.ed_add_events@
        &&& self.ed_decompress_events@ == before.ed_decompress_events@ + other.ed_decompress_events@
        &&& self.secp256k1_add_events@ == before.secp256k1_add_events@ + other.secp256k1_add_events@
        &&& self.secp256k1_double_events@ == before.secp256k1_double_events@
            + other.secp256k1_double_events@
        &&& self.bn254_add_events@ == before.bn254_add_events@ + other.bn254_add_events@
        &&& self.bn254_double_events@ == before.bn254_double_events@ + other.bn254_double_events@
        &&& self.bls12381_g1_add_events@ == before.bls12381_g1_add_events@
            + other.bls12381_g1_add_events@
        &&& self.bls12381_g1_double_events@ == before.bls12381_g1_double_events@
            + other.bls12381_g1_double_events@
        &&& self.secp256k1_decompress_events@ == before.secp256k1_decompress_events@
            + other.secp256k1_decompress_events@
        &&& self.blake3_compress_inner_events@ == before.blake3_compress_inner_events@
            + other.blake3_compress_inner_events@
        &&& self.bls12381_fp_add_events@ == before.bls12381_fp_add_events@
            + other.bls12381_fp_add_events@
        &&& self.bls12381_fp_sub_events@ == before.bls12381_fp_sub_events@
            + other.bls12381_fp_sub_events@
        &&& self.bls12381_fp_mul_events@ == before.bls12381_fp_mul_events@
            + other.bls12381_fp_mul_events@
        &&& self.bls12381_fp2_add_events@ == before.bls12381_fp2_add_events@
            + other.bls12381_fp2_add_events@
        &&& self.bls12381_fp2_sub_events@ == before.bls12381_fp2_sub_events@
            + other.bls12381_fp2_sub_events@
        &&& self.bls12381_fp2_mul_events@ == before.bls12381_fp2_mul_events@
            + other.bls12381_fp2_mul_events@
        &&& self.bls12381_g1_decompress_events@ == before.bls12381_g1_decompress_events@
            + other.bls12381_g1_decompress_events@
        &&& self.bls12381_g2_add_events@ == before.bls12381_g2_add_events@
            + other.bls12381_g2_add_events@
        &&& self.bls12381_g2_double_events@ == before.bls12381_g2_double_events@
            + other.bls12381_g2_double_events@
        &&& self.memory_initialize_events@ == before.memory_initialize_events@
            + other.memory_initialize_events@
        &&& self.memory_finalize_events@ == before.memory_finalize_events@
            + other.memory_finalize_events@
    }

    /// The length of each stream that `stats` reports, in its order.
    pub open spec fn stat_values(self) -> Seq<nat> {
        seq![
            self.cpu_events@.len(),
            self.add_events@.len(),
            self.mul_events@.len(),
            self.sub_events@.len(),
            self.bitwise_events@.len(),
            self.shift_left_events@.len(),
            self.shift_right_events@.len(),
            self.divrem_events@.len(),
            self.lt_events@.len(),
            self.sha_extend_events@.len(),
            self.sha_compress_events@.len(),
            self.keccak_permute_events@.len(),
            self.ed_add_events@.len(),
            self.ed_decompress_events@.len(),
            self.secp256k1_add_events@.len(),
            self.secp256k1_double_events@.len(),
            self.bn254_add_events@.len(),
            self.bn254_double_events@.len(),
            self.bls12381_g1_add_events@.len(),
            self.bls12381_g1_double_events@.len(),
            self.secp256k1_decompress_events@.len(),
            self.blake3_compress_inner_events@.len(),
            self.bls12381_g1_decompress_events@.len(),
            self.bls12381_fp_add_events@.len(),
            self.bls12381_fp_sub_events@.len(),
            self.bls12381_fp_mul_events@.len(),
            self.bls12381_fp2_add_events@.len(),
            self.bls12381_fp2_sub_events@.len(),
            self.bls12381_fp2_mul_events@.len(),
            self.bls12381_g2_add_events@.len(),
            self.bls12381_g2_double_events@.len(),
        ]
    }

    /// The byte lookups as multiplicities.
    pub open spec fn lookups(self) -> LookupCounts {
        lookup_counts(self.byte_lookups)
    }

    /// An empty record for shard `index` of `program`.
    pub fn new(index: u32, program: Arc<Program>) -> (r: Self)
        ensures
            r.index == index,
            r.program == program,
            r.streams_empty(),
            r.lookups() == Map::<u32, ShardCounts>::empty(),
            r.public_values == PublicValues::new_spec(),
    {
        let r = ExecutionRecord {
            index,
            program,
            cpu_events: Vec::new(),
            add_events: Vec::new(),
            mul_events: Vec::new(),
            sub_events: Vec::new(),
            bitwise_events: Vec::new(),
            shift_left_events: Vec::new(),
            shift_right_events: Vec::new(),
            divrem_events: Vec::new(),
            lt_events: Vec::new(),
            byte_lookups: BTreeMap::new(),
            sha_extend_events: Vec::new(),
            sha_compress_events: Vec::new(),
            keccak_permute_events: Vec::new(),
            ed_add_events: Vec::new(),
            ed_decompress_events: Vec::new(),
            secp256k1_add_events: Vec::new(),
            secp256k1_double_events: Vec::new(),
            bn254_add_events: Vec::new(),
            bn254_double_events: Vec::new(),
            bls12381_g1_add_events: Vec::new(),
            bls12381_g1_double_events: Vec::new(),
            secp256k1_decompress_events: Vec::new(),
            blake3_compress_inner_events: Vec::new(),
            bls12381_fp_add_events: Vec::new(),
            bls12381_fp_sub_events: Vec::new(),
            bls12381_fp_mul_events: Vec::new(),
            bls12381_fp2_add_events: Vec::new(),
            bls12381_fp2_sub_events: Vec::new(),
            bls12381_fp2_mul_events: Vec::new(),
            bls12381_g1_decompress_events: Vec::new(),
            bls12381_g2_add_events: Vec::new(),
            bls12381_g2_double_events: Vec::new(),
            memory_initialize_events: Vec::new(),
            memory_finalize_events: Vec::new(),
            public_values: PublicValues::new(),
        };
        assert(r.lookups() =~= Map::<u32, ShardCounts>::empty());
        r
    }

    /// The index of the shard.
    pub fn index(&self) -> (r: u32)
        ensures
            r == self.index,
    {
        self.index
    }

    /// Sets the index of the shard.
    pub fn set_index(&mut self, index: u32)
        ensures
            *final(self) == (ExecutionRecord { index, ..*old(self) }),
    {
        self.index = index;
    }

    /// The public values, flattened for the prover.
    pub fn public_values(&self) -> (r: Vec<u32>)
        ensures
            r@ == self.public_values.spec_flatten(),
    {
        self.public_values.to_vec()
    }

    /// Records one MUL event.
    pub fn add_mul_event(&mut self, mul_event: AluEvent)
        ensures
            *final(self) == (ExecutionRecord { mul_events: final(self).mul_events, ..*old(self) }),
            final(self).mul_events@ == old(self).mul_events@.push(mul_event),
    {
        self.mul_events.push(mul_event);
    }

    /// Records one LT event.
    pub fn add_lt_event(&mut self, lt_event: AluEvent)
        ensures
            *final(self) == (ExecutionRecord { lt_events: final(self).lt_events, ..*old(self) }),
            final(self).lt_events@ == old(self).lt_events@.push(lt_event),
    {
        self.lt_events.push(lt_event);
    }

    /// Counts one more lookup of `blu_event`, under the shard the event names.
    pub fn add_byte_lookup_event(&mut self, blu_event: ByteLookupEvent)
        requires
            count(counts_at(old(self).lookups(), blu_event.shard), blu_event.spec_key())
                < usize::MAX,
        ensures
            final(self).lookups() == record_lookup(old(self).lookups(), blu_event.spec_key()),
            counts_positive(old(self).lookups()) ==> counts_positive(final(self).lookups()),
            *final(self) == (ExecutionRecord {
                byte_lookups: final(self).byte_lookups,
                ..*old(self)
            }),
    {
        proof {
            if counts_positive(self.lookups()) {
                lemma_record_lookup_positive(self.lookups(), blu_event.spec_key());
            }
        }
        record_byte_lookup(&mut self.byte_lookups, blu_event);
    }

    /// The length of each stream, under the stream's name.
    pub fn stats(&self) -> (r: Vec<(String, usize)>)
        ensures
            r@.len() == stat_names().len(),
            forall|i: int|
                0 <= i < r@.len() ==> (#[trigger] r@[i]).0@ == stat_names()[i] && r@[i].1
                    == self.stat_values()[i],
    {
        let mut stats: Vec<(String, usize)> = Vec::new();
        stats.push(("cpu_events".to_string(), self.cpu_events.len()));
        stats.push(("add_events".to_string(), self.add_events.len()));
        stats.push(("mul_events".to_string(), self.mul_events.len()));
        stats.push(("sub_events".to_string(), self.sub_events.len()));
        stats.push(("bitwise_events".to_string(), self.bitwise_events.len()));
        stats.push(("shift_left_events".to_string(), self.shift_left_events.len()));
        stats.push(("shift_right_events".to_string(), self.shift_right_events.len()));
        stats.push(("divrem_events".to_string(), self.divrem_events.len()));
        stats.push(("lt_events".to_string(), self.lt_events.len()));
        stats.push(("sha_extend_events".to_string(), self.sha_extend_events.len()));
        stats.push(("sha_compress_events".to_string(), self.sha_compress_events.len()));
        stats.push(("keccak_permute_events".to_string(), self.keccak_permute_events.len()));
        stats.push(("ed_add_events".to_string(), self.ed_add_events.len()));
        stats.push(("ed_decompress_events".to_string(), self.ed_decompress_events.len()));
        stats.push(("secp256k1_add_events".to_string(), self.secp256k1_add_events.len()));
        stats.push(("secp256k1_double_events".to_string(), self.secp256k1_double_events.len()));
        stats.push(("bn254_add_events".to_string(), self.bn254_add_events.len()));
        stats.push(("bn254_double_events".to_string(), self.bn254_double_events.len()));
        stats.push(("bls12381_g1_add_events".to_string(), self.bls12381_g1_add_events.len()));
        stats.push(
            ("bls12381_g1_double_events".to_string(), self.bls12381_g1_double_events.len()),
        );
        stats.push(("k256_decompress_events".to_string(), self.secp256k1_decompress_events.len()));
        stats.push(
            ("blake3_compress_inner_events".to_string(), self.blake3_compress_inner_events.len()),
        );
        stats.push(
            ("bls12381_g1_decompress_events".to_string(), self.bls12381_g1_decompress_events.len()),
        );
        stats.push(("bls12381_fp_add_events".to_string(), self.bls12381_fp_add_events.len()));
        stats.push(("bls12381_fp_sub_events".to_string(), self.bls12381_fp_sub_events.len()));
        stats.push(("bls12381_fp_mul_events".to_string(), self.bls12381_fp_mul_events.len()));
        stats.push(("bls12381_fp2_add_events".to_string(), self.bls12381_fp2_add_events.len()));
        stats.push(("bls12381_fp2_sub_events".to_string(), self.bls12381_fp2_sub_events.len()));
        stats.push(("bls12381_fp2_mul_events".to_string(), self.bls12381_fp2_mul_events.len()));
        stats.push(("bls12381_g2_add_events".to_string(), self.bls12381_g2_add_events.len()));
        stats.push(
            ("bls12381_g2_double_events".to_string(), self.bls12381_g2_double_events.len()),
        );
        stats
    }

    /// Moves every stream of `other` behind the stream of the same kind in
    /// `self`, and merges the byte lookups of `other` into those of `self`:
    /// a shard or a lookup that only `other` has is adopted, and where both
    /// have a lookup its multiplicities are added. `other` keeps its index,
    /// program and public values, and nothing else.
    pub fn append(&mut self, other: &mut ExecutionRecord)
        requires
            sums_fit(old(self).lookups(), old(other).lookups()),
        ensures
            final(self).streams_appended(*old(self), *old(other)),
            final(self).lookups() == merge_counts(old(self).lookups(), old(other).lookups()),
            counts_positive(old(self).lookups()) && counts_positive(old(other).lookups())
                ==> counts_positive(final(self).lookups()),
            final(self).index == old(self).index,
            final(self).program == old(self).program,
            final(self).public_values == old(self).public_values,
            final(other).streams_empty(),
            final(other).lookups() == Map::<u32, ShardCounts>::empty(),
            final(other).index == old(other).index,
            final(other).program == old(other).program,
            final(other).public_values == old(other).public_values,
    {
        self.cpu_events.append(&mut other.cpu_events);
        self.add_events.append(&mut other.add_events);
        self.sub_events.append(&mut other.sub_events);
        self.mul_events.append(&mut other.mul_events);
        self.bitwise_events.append(&mut other.bitwise_events);
        self.shift_left_events.append(&mut other.shift_left_events);
        self.shift_right_events.append(&mut other.shift_right_events);
        self.divrem_events.append(&mut other.divrem_events);
        self.lt_events.append(&mut other.lt_events);
        self.sha_extend_events.append(&mut other.sha_extend_events);
        self.sha_compress_events.append(&mut other.sha_compress_events);
        self.keccak_permute_events.append(&mut other.keccak_permute_events);
        self.ed_add_events.append(&mut other.ed_add_events);
        self.ed_decompress_events.append(&mut other.ed_decompress_events);
        self.secp256k1_add_events.append(&mut other.secp256k1_add_events);
        self.secp256k1_double_events.append(&mut other.secp256k1_double_events);
        self.bn254_add_events.append(&mut other.bn254_add_events);
        self.bn254_double_events.append(&mut other.bn254_double_events);
        self.bls12381_g1_add_events.append(&mut other.bls12381_g1_add_events);
        self.bls12381_g1_double_events.append(&mut other.bls12381_g1_double_events);
        self.secp256k1_decompress_events.append(&mut other.secp256k1_decompress_events);
        self.blake3_compress_inner_events.append(&mut other.blake3_compress_inner_events);
        self.bls12381_fp_add_events.append(&mut other.bls12381_fp_add_events);
        self.bls12381_fp_sub_events.append(&mut other.bls12381_fp_sub_events);
        self.bls12381_fp_mul_events.append(&mut other.bls12381_fp_mul_events);
        self.bls12381_fp2_add_events.append(&mut other.bls12381_fp2_add_events);
        self.bls12381_fp2_sub_events.append(&mut other.bls12381_fp2_sub_events);
        self.bls12381_fp2_mul_events.append(&mut other.bls12381_fp2_mul_events);
        self.bls12381_g1_decompress_events.append(&mut other.bls12381_g1_decompress_events);
        self.bls12381_g2_add_events.append(&mut other.bls12381_g2_add_events);
        self.bls12381_g2_double_events.append(&mut other.bls12381_g2_double_events);

        // Merge the byte lookups.
        let mut incoming: ByteLookups = BTreeMap::new();
        core::mem::swap(&mut other.byte_lookups, &mut incoming);
        merge_byte_lookups(&mut self.byte_lookups, incoming);

        self.memory_initialize_events.append(&mut other.memory_initialize_events);
        self.memory_finalize_events.append(&mut other.memory_finalize_events);
        assert(other.lookups() =~= Map::<u32, ShardCounts>::empty());
        proof {
            if counts_positive(old(self).lookups()) && counts_positive(old(other).lookups()) {
                lemma_merge_positive(old(self).lookups(), old(other).lookups());
            }
        }
    }
}


/// Whether a run before run `j` has the shard id `s`.
pub open spec fn earlier_run_has(cpu: Seq<CpuEvent>, j: int, s: u32) -> bool {
    exists|i: int| 0 <= i < j && #[trigger] run_shard(cpu, i) == s
}

/// The lookups that the shard of run `j` takes out of `all`: those counted
/// under the run's shard id, unless an earlier run had the same id and took
/// them already.
pub open spec fn run_lookups(all: LookupCounts, cpu: Seq<CpuEvent>, j: int) -> ShardCounts {
    if earlier_run_has(cpu, j, run_shard(cpu, j)) {
        Map::empty()
    } else {
        counts_at(all, run_shard(cpu, j))
    }
}

/// A stream that only the first shard receives.
pub open spec fn first_only<T>(s: Seq<T>, j: int) -> Seq<T> {
    if j == 0 {
        s
    } else {
        Seq::empty()
    }
}

/// A stream that only the last of `n` shards receives.
pub open spec fn last_only<T>(s: Seq<T>, j: int, n: int) -> Seq<T> {
    if j == n - 1 {
        s
    } else {
        Seq::empty()
    }
}

/// The public values of the shard of run `j`: the digests of the whole
/// record, the run's shard id, the program counter at its first event, and
/// the next program counter and the exit code at its last.
pub open spec fn run_public_values(src: ExecutionRecord, j: int) -> PublicValues {
    let cpu = src.cpu_events@;
    PublicValues {
        committed_value_digest: src.public_values.committed_value_digest,
        deferred_proofs_digest: src.public_values.deferred_proofs_digest,
        shard: run_shard(cpu, j),
        start_pc: cpu[run_start(cpu, j)].pc,
        next_pc: cpu[run_end(cpu, j) - 1].next_pc,
        exit_code: cpu[run_end(cpu, j) - 1].exit_code,
    }
}

impl ExecutionRecord {
    /// Whether `self` is shard `j` of `src` under `config`.
    ///
    /// The shard holds the `j`-th run of CPU events of equal shard id, and is
    /// indexed by that id. Of every stream that is cut by a capacity it holds
    /// the `j`-th chunk. The first shard also holds the streams that are not
    /// cut at all, and the last one the memory boundary events.
    pub open spec fn is_shard_of(
        self,
        src: ExecutionRecord,
        config: ShardingConfig,
        j: int,
    ) -> bool {
        let cpu = src.cpu_events@;
        &&& self.index == run_shard(cpu, j)
        &&& self.program == src.program
        &&& self.cpu_events@ == run_events(cpu, j)
        &&& self.lookups() == map![run_shard(cpu, j) => run_lookups(src.lookups(), cpu, j)]
        &&& self.public_values == run_public_values(src, j)
        &&& self.add_events@ == chunk(src.add_events@, config.add_len as int, j)
        &&& self.mul_events@ == chunk(src.mul_events@, config.mul_len as int, j)
        &&& self.sub_events@ == chunk(src.sub_events@, config.sub_len as int, j)
        &&& self.bitwise_events@ == chunk(src.bitwise_events@, config.bitwise_len as int, j)
        &&& self.shift_left_events@ == chunk(
            src.shift_left_events@,
            config.shift_left_len as int,
            j,
        )
        &&& self.shift_right_events@ == chunk(
            src.shift_right_events@,
            config.shift_right_len as int,
            j,
        )
        &&& self.divrem_events@ == chunk(src.divrem_events@, config.divrem_len as int, j)
        &&& self.lt_events@ == chunk(src.lt_events@, config.lt_len as int, j)
        &&& self.keccak_permute_events@ == chunk(
            src.keccak_permute_events@,
            config.keccak_len as int,
            j,
        )
        &&& self.secp256k1_add_events@ == chunk(
            src.secp256k1_add_events@,
            config.secp256k1_add_len as int,
            j,
        )
        &&& self.secp256k1_double_events@ == chunk(
            src.secp256k1_double_events@,
            config.secp256k1_double_len as int,
            j,
        )
        &&& self.bn254_add_events@ == chunk(src.bn254_add_events@, config.bn254_add_len as int, j)
        &&& self.bn254_double_events@ == chunk(
            src.bn254_double_events@,
            config.bn254_double_len as int,
            j,
        )
        &&& self.bls12381_g1_add_events@ == chunk(
            src.bls12381_g1_add_events@,
            config.bls12381_g1_add_len as int,
            j,
        )
        &&& self.bls12381_g1_double_events@ == chunk(
            src.bls12381_g1_double_events@,
            config.bls12381_g1_double_len as int,
            j,
        )
        &&& self.bls12381_fp_add_events@ == chunk(
            src.bls12381_fp_add_events@,
            config.bls12381_fp_add_len as int,
            j,
        )
        &&& self.bls12381_fp_sub_events@ == chunk(
            src.bls12381_fp_sub_events@,
            config.bls12381_fp_sub_len as int,
            j,
        )
        &&& self.bls12381_fp_mul_events@ == chunk(
            src.bls12381_fp_mul_events@,
            config.bls12381_fp_mul_len as int,
            j,
        )
        &&& self.bls12381_fp2_add_events@ == chunk(
            src.bls12381_fp2_add_events@,
            config.bls12381_fp2_add_len as int,
            j,
        )
        &&& self.bls12381_fp2_sub_events@ == chunk(
            src.bls12381_fp2_sub_events@,
            config.bls12381_fp2_sub_len as int,
            j,
        )
        &&& self.bls12381_fp2_mul_events@ == chunk(
            src.bls12381_fp2_mul_events@,
            config.bls12381_fp2_mul_len as int,
            j,
        )
        &&& self.bls12381_g2_add_events@ == first_only(src.bls12381_g2_add_events@, j)
        &&& self.bls12381_g2_double_events@ == first_only(src.bls12381_g2_double_events@, j)
        &&& self.bls12381_g1_decompress_events@ == first_only(
            src.bls12381_g1_decompress_events@,
            j,
        )
        &&& self.sha_extend_events@ == first_only(src.sha_extend_events@, j)
        &&& self.sha_compress_events@ == first_only(src.sha_compress_events@, j)
        &&& self.ed_add_events@ == first_only(src.ed_add_events@, j)
        &&& self.ed_decompress_events@ == first_only(src.ed_decompress_events@, j)
        &&& self.secp256k1_decompress_events@ == first_only(src.secp256k1_decompress_events@, j)
        &&& self.blake3_compress_inner_events@ == first_only(src.blake3_compress_inner_events@, j)
        &&& self.memory_initialize_events@ == last_only(
            src.memory_initialize_events@,
            j,
            num_runs(cpu),
        )
        &&& self.memory_finalize_events@ == last_only(
            src.memory_finalize_events@,
            j,
            num_runs(cpu),
        )
    }

    /// What is left in `self` of `src` once the shards from `c` on are taken
    /// out of it.
    spec fn shards_from_taken(self, src: ExecutionRecord, config: ShardingConfig, c: int) -> bool {
        let cpu = src.cpu_events@;
        &&& self.program == src.program
        &&& self.public_values == src.public_values
        &&& self.cpu_events@ == cpu.subrange(
            0,
            if c < num_runs(cpu) {
                run_start(cpu, c)
            } else {
                cpu.len() as int
            },
        )
        &&& self.add_events@ == chunks_before(src.add_events@, config.add_len as int, c)
        &&& self.mul_events@ == chunks_before(src.mul_events@, config.mul_len as int, c)
        &&& self.sub_events@ == chunks_before(src.sub_events@, config.sub_len as int, c)
        &&& self.bitwise_events@ == chunks_before(
            src.bitwise_events@,
            config.bitwise_len as int,
            c,
        )
        &&& self.shift_left_events@ == chunks_before(
            src.shift_left_events@,
            config.shift_left_len as int,
            c,
        )
        &&& self.shift_right_events@ == chunks_before(
            src.shift_right_events@,
            config.shift_right_len as int,
            c,
        )
        &&& self.divrem_events@ == chunks_before(src.divrem_events@, config.divrem_len as int, c)
        &&& self.lt_events@ == chunks_before(src.lt_events@, config.lt_len as int, c)
        &&& self.keccak_permute_events@ == chunks_before(
            src.keccak_permute_events@,
            config.keccak_len as int,
            c,
        )
        &&& self.secp256k1_add_events@ == chunks_before(
            src.secp256k1_add_events@,
            config.secp256k1_add_len as int,
            c,
        )
        &&& self.secp256k1_double_events@ == chunks_before(
            src.secp256k1_double_events@,
            config.secp256k1_double_len as int,
            c,
        )
        &&& self.bn254_add_events@ == chunks_before(
            src.bn254_add_events@,
            config.bn254_add_len as int,
            c,
        )
        &&& self.bn254_double_events@ == chunks_before(
            src.bn254_double_events@,
            config.bn254_double_len as int,
            c,
        )
        &&& self.bls12381_g1_add_events@ == chunks_before(
            src.bls12381_g1_add_events@,
            config.bls12381_g1_add_len as int,
            c,
        )
        &&& self.bls12381_g1_double_events@ == chunks_before(
            src.bls12381_g1_double_events@,
            config.bls12381_g1_double_len as int,
            c,
        )
        &&& self.bls12381_fp_add_events@ == chunks_before(
            src.bls12381_fp_add_events@,
            config.bls12381_fp_add_len as int,
            c,
        )
        &&& self.bls12381_fp_sub_events@ == chunks_before(
            src.bls12381_fp_sub_events@,
            config.bls12381_fp_sub_len as int,
            c,
        )
        &&& self.bls12381_fp_mul_events@ == chunks_before(
            src.bls12381_fp_mul_events@,
            config.bls12381_fp_mul_len as int,
            c,
        )
        &&& self.bls12381_fp2_add_events@ == chunks_before(
            src.bls12381_fp2_add_events@,
            config.bls12381_fp2_add_len as int,
            c,
        )
        &&& self.bls12381_fp2_sub_events@ == chunks_before(
            src.bls12381_fp2_sub_events@,
            config.bls12381_fp2_sub_len as int,
            c,
        )
        &&& self.bls12381_fp2_mul_events@ == chunks_before(
            src.bls12381_fp2_mul_events@,
            config.bls12381_fp2_mul_len as int,
            c,
        )
        &&& c > 0 ==> self.bls12381_g2_add_events@ == src.bls12381_g2_add_events@
        &&& c > 0 ==> self.bls12381_g2_double_events@ == src.bls12381_g2_double_events@
        &&& c > 0 ==> self.bls12381_g1_decompress_events@ == src.bls12381_g1_decompress_events@
        &&& c > 0 ==> self.sha_extend_events@ == src.sha_extend_events@
        &&& c > 0 ==> self.sha_compress_events@ == src.sha_compress_events@
        &&& c > 0 ==> self.ed_add_events@ == src.ed_add_events@
        &&& c > 0 ==> self.ed_decompress_events@ == src.ed_decompress_events@
        &&& c > 0 ==> self.secp256k1_decompress_events@ == src.secp256k1_decompress_events@
        &&& c > 0 ==> self.blake3_compress_inner_events@ == src.blake3_compress_inner_events@
        &&& self.memory_initialize_events@ == last_only(
            src.memory_initialize_events@,
            c - 1,
            num_runs(cpu),
        )
        &&& self.memory_finalize_events@ == last_only(
            src.memory_finalize_events@,
            c - 1,
            num_runs(cpu),
        )
    }

    /// Takes shard `j` out of what is left of `src`.
    fn take_shard(
        &mut self,
        config: &ShardingConfig,
        j: usize,
        start: usize,
        lookups: ShardLookups,
        Ghost(src): Ghost<ExecutionRecord>,
    ) -> (shard: ExecutionRecord)
        requires
            config.wf(),
            src.cpu_events@.len() > 0,
            0 <= j < num_runs(src.cpu_events@),
            start == run_start(src.cpu_events@, j as int),
            old(self).shards_from_taken(src, *config, j + 1),
            shard_counts(lookups) == run_lookups(src.lookups(), src.cpu_events@, j as int),
        ensures
            final(self).shards_from_taken(src, *config, j as int),
            shard.is_shard_of(src, *config, j as int),
    {
        let ghost cpu = src.cpu_events@;
        proof {
            lemma_run_bounds(cpu, j as int);
            if j + 1 < num_runs(cpu) {
                lemma_run_bounds(cpu, j + 1);
            }
        }
        let cpu_events = self.cpu_events.split_off(start);
        assert(cpu_events@ =~= run_events(cpu, j as int));
        assert(self.cpu_events@ =~= cpu.subrange(0, start as int));
        let first = cpu_events[0];
        let last = cpu_events[cpu_events.len() - 1];
        let index = first.shard;
        let mut byte_lookups: ByteLookups = BTreeMap::new();
        byte_lookups.insert(index, lookups);
        assert(lookup_counts(byte_lookups) =~= map![index => shard_counts(lookups)]);
        let public_values = PublicValues {
            committed_value_digest: self.public_values.committed_value_digest,
            deferred_proofs_digest: self.public_values.deferred_proofs_digest,
            shard: index,
            start_pc: first.pc,
            next_pc: last.next_pc,
            exit_code: last.exit_code,
        };
        let is_first = j == 0;
        let add_events = take_chunk(
            &mut self.add_events,
            config.add_len,
            j,
            Ghost(src.add_events@),
        );
        let mul_events = take_chunk(
            &mut self.mul_events,
            config.mul_len,
            j,
            Ghost(src.mul_events@),
        );
        let sub_events = take_chunk(
            &mut self.sub_events,
            config.sub_len,
            j,
            Ghost(src.sub_events@),
        );
        let bitwise_events = take_chunk(
            &mut self.bitwise_events,
            config.bitwise_len,
            j,
            Ghost(src.bitwise_events@),
        );
        let shift_left_events = take_chunk(
            &mut self.shift_left_events,
            config.shift_left_len,
            j,
            Ghost(src.shift_left_events@),
        );
        let shift_right_events = take_chunk(
            &mut self.shift_right_events,
            config.shift_right_len,
            j,
            Ghost(src.shift_right_events@),
        );
        let divrem_events = take_chunk(
            &mut self.divrem_events,
            config.divrem_len,
            j,
            Ghost(src.divrem_events@),
        );
        let lt_events = take_chunk(&mut self.lt_events, config.lt_len, j, Ghost(src.lt_events@));
        let keccak_permute_events = take_chunk(
            &mut self.keccak_permute_events,
            config.keccak_len,
            j,
            Ghost(src.keccak_permute_events@),
        );
        let secp256k1_add_events = take_chunk(
            &mut self.secp256k1_add_events,
            config.secp256k1_add_len,
            j,
            Ghost(src.secp256k1_add_events@),
        );
        let secp256k1_double_events = take_chunk(
            &mut self.secp256k1_double_events,
            config.secp256k1_double_len,
            j,
            Ghost(src.secp256k1_double_events@),
        );
        let bn254_add_events = take_chunk(
            &mut self.bn254_add_events,
            config.bn254_add_len,
            j,
            Ghost(src.bn254_add_events@),
        );
        let bn254_double_events = take_chunk(
            &mut self.bn254_double_events,
            config.bn254_double_len,
            j,
            Ghost(src.bn254_double_events@),
        );
        let bls12381_g1_add_events = take_chunk(
            &mut self.bls12381_g1_add_events,
            config.bls12381_g1_add_len,
            j,
            Ghost(src.bls12381_g1_add_events@),
        );
        let bls12381_g1_double_events = take_chunk(
            &mut self.bls12381_g1_double_events,
            config.bls12381_g1_double_len,
            j,
            Ghost(src.bls12381_g1_double_events@),
        );
        let bls12381_fp_add_events = take_chunk(
            &mut self.bls12381_fp_add_events,
            config.bls12381_fp_add_len,
            j,
            Ghost(src.bls12381_fp_add_events@),
        );
        let bls12381_fp_sub_events = take_chunk(
            &mut self.bls12381_fp_sub_events,
            config.bls12381_fp_sub_len,
            j,
            Ghost(src.bls12381_fp_sub_events@),
        );
        let bls12381_fp_mul_events = take_chunk(
            &mut self.bls12381_fp_mul_events,
            config.bls12381_fp_mul_len,
            j,
            Ghost(src.bls12381_fp_mul_events@),
        );
        let bls12381_fp2_add_events = take_chunk(
            &mut self.bls12381_fp2_add_events,
            config.bls12381_fp2_add_len,
            j,
            Ghost(src.bls12381_fp2_add_events@),
        );
        let bls12381_fp2_sub_events = take_chunk(
            &mut self.bls12381_fp2_sub_events,
            config.bls12381_fp2_sub_len,
            j,
            Ghost(src.bls12381_fp2_sub_events@),
        );
        let bls12381_fp2_mul_events = take_chunk(
            &mut self.bls12381_fp2_mul_events,
            config.bls12381_fp2_mul_len,
            j,
            Ghost(src.bls12381_fp2_mul_events@),
        );
        let bls12381_g2_add_events = if is_first {
            take_events(&mut self.bls12381_g2_add_events)
        } else {
            Vec::new()
        };
        let bls12381_g2_double_events = if is_first {
            take_events(&mut self.bls12381_g2_double_events)
        } else {
            Vec::new()
        };
        let bls12381_g1_decompress_events = if is_first {
            take_events(&mut self.bls12381_g1_decompress_events)
        } else {
            Vec::new()
        };
        let sha_extend_events = if is_first {
            take_events(&mut self.sha_extend_events)
        } else {
            Vec::new()
        };
        let sha_compress_events = if is_first {
            take_events(&mut self.sha_compress_events)
        } else {
            Vec::new()
        };
        let ed_add_events = if is_first {
            take_events(&mut self.ed_add_events)
        } else {
            Vec::new()
        };
        let ed_decompress_events = if is_first {
            take_events(&mut self.ed_decompress_events)
        } else {
            Vec::new()
        };
        let secp256k1_decompress_events = if is_first {
            take_events(&mut self.secp256k1_decompress_events)
        } else {
            Vec::new()
        };
        let blake3_compress_inner_events = if is_first {
            take_events(&mut self.blake3_compress_inner_events)
        } else {
            Vec::new()
        };
        let memory_initialize_events = take_events(&mut self.memory_initialize_events);
        let memory_finalize_events = take_events(&mut self.memory_finalize_events);
        ExecutionRecord {
            index,
            program: share_program(&self.program),
            cpu_events,
            add_events,
            mul_events,
            sub_events,
            bitwise_events,
            shift_left_events,
            shift_right_events,
            divrem_events,
            lt_events,
            byte_lookups,
            sha_extend_events,
            sha_compress_events,
            keccak_permute_events,
            ed_add_events,
            ed_decompress_events,
            secp256k1_add_events,
            secp256k1_double_events,
            bn254_add_events,
            bn254_double_events,
            bls12381_g1_add_events,
            bls12381_g1_double_events,
            secp256k1_decompress_events,
            blake3_compress_inner_events,
            bls12381_fp_add_events,
            bls12381_fp_sub_events,
            bls12381_fp_mul_events,
            bls12381_fp2_add_events,
            bls12381_fp2_sub_events,
            bls12381_fp2_mul_events,
            bls12381_g1_decompress_events,
            bls12381_g2_add_events,
            bls12381_g2_double_events,
            memory_initialize_events,
            memory_finalize_events,
            public_values,
        }
    }
}


/// One run further, the earlier runs are those before it and itself.
proof fn lemma_earlier_run_step(cpu: Seq<CpuEvent>, j: int, s: u32)
    requires
        j >= 0,
    ensures
        earlier_run_has(cpu, j + 1, s) <==> (earlier_run_has(cpu, j, s) || run_shard(cpu, j) == s),
{
    if earlier_run_has(cpu, j + 1, s) {
        let i = choose|i: int| 0 <= i < j + 1 && #[trigger] run_shard(cpu, i) == s;
        if i < j {
            assert(earlier_run_has(cpu, j, s));
        }
    }
    if earlier_run_has(cpu, j, s) {
        let i = choose|i: int| 0 <= i < j && #[trigger] run_shard(cpu, i) == s;
        assert(0 <= i < j + 1 && run_shard(cpu, i) == s);
    }
    if run_shard(cpu, j) == s {
        assert(0 <= j < j + 1 && run_shard(cpu, j) == s);
    }
}

/// Takes out of `table`, run by run, the lookups of each run's shard id. A
/// run whose id an earlier run had, or whose id the table does not hold, gets
/// none.
fn take_run_lookups(table: &mut ByteLookups, cpu: &Vec<CpuEvent>, starts: &Vec<usize>) -> (taken:
    Vec<ShardLookups>)
    requires
        cpu@.len() > 0,
        starts@.len() == num_runs(cpu@),
        forall|j: int| 0 <= j < starts@.len() ==> #[trigger] starts@[j] as int == run_start(
            cpu@,
            j,
        ),
    ensures
        taken@.len() == num_runs(cpu@),
        forall|j: int|
            0 <= j < taken@.len() ==> shard_counts(#[trigger] taken@[j]) == run_lookups(
                lookup_counts(*old(table)),
                cpu@,
                j,
            ),
{
    let ghost all = lookup_counts(*old(table));
    let mut taken: Vec<ShardLookups> = Vec::new();
    let mut j: usize = 0;
    proof {
        lemma_runs_tile(cpu@);
    }
    while j < starts.len()
        invariant
            0 <= j <= starts@.len(),
            cpu@.len() > 0,
            starts@.len() == num_runs(cpu@),
            forall|k: int|
                0 <= k < starts@.len() ==> #[trigger] starts@[k] as int == run_start(cpu@, k),
            forall|k: int|
                0 <= k < num_runs(cpu@) ==> 0 <= #[trigger] run_start(cpu@, k) < cpu@.len(),
            all == lookup_counts(*old(table)),
            taken@.len() == j,
            forall|k: int|
                0 <= k < j ==> shard_counts(#[trigger] taken@[k]) == run_lookups(all, cpu@, k),
            forall|s: u32|
                table@.contains_key(s) <==> (all.contains_key(s) && !earlier_run_has(
                    cpu@,
                    j as int,
                    s,
                )),
            forall|s: u32| table@.contains_key(s) ==> shard_counts(#[trigger] table@[s]) == all[s],
        decreases starts@.len() - j,
    {
        let start = starts[j];
        assert(start as int == run_start(cpu@, j as int));
        let shard = cpu[start].shard;
        let ghost prev = table@;
        let ghost run = j as int;
        let lookups: ShardLookups = match table.remove(&shard) {
            Some(m) => m,
            None => {
                let empty: ShardLookups = BTreeMap::new();
                assert(shard_counts(empty) =~= Map::<ByteLookupKey, nat>::empty());
                empty
            },
        };
        assert(shard_counts(lookups) == run_lookups(all, cpu@, j as int));
        taken.push(lookups);
        j = j + 1;
        proof {
            assert forall|s: u32|
                table@.contains_key(s) <==> (all.contains_key(s) && !earlier_run_has(
                    cpu@,
                    j as int,
                    s,
                )) by {
                lemma_earlier_run_step(cpu@, run, s);
                assert(shard == run_shard(cpu@, run));
                assert(prev.contains_key(s) <==> (all.contains_key(s) && !earlier_run_has(
                    cpu@,
                    run,
                    s,
                )));
                assert(table@.contains_key(s) <==> (prev.contains_key(s) && s != shard));
            }
            assert forall|s: u32| table@.contains_key(s) implies shard_counts(
                #[trigger] table@[s],
            ) == all[s] by {
                assert(prev.contains_key(s));
                assert(table@[s] == prev[s]);
            }
        }
    }
    taken
}

/// The records in the opposite order.
fn reverse_records(records: Vec<ExecutionRecord>) -> (r: Vec<ExecutionRecord>)
    ensures
        r@.len() == records@.len(),
        forall|i: int| 0 <= i < r@.len() ==> #[trigger] r@[i] == records@[records@.len() - 1 - i],
{
    let mut records = records;
    let ghost whole = records@;
    let mut out: Vec<ExecutionRecord> = Vec::new();
    while records.len() > 0
        invariant
            records@.len() + out@.len() == whole.len(),
            records@ == whole.subrange(0, records@.len() as int),
            forall|i: int| 0 <= i < out@.len() ==> #[trigger] out@[i] == whole[whole.len() - 1 - i],
        decreases records@.len(),
    {
        match records.pop() {
            Some(record) => {
                out.push(record);
            },
            None => {},
        }
    }
    out
}

impl ExecutionRecord {
    /// Splits the record into shards, one for each run of CPU events of equal
    /// shard id, in the order of the runs.
    ///
    /// What each shard holds is said by [`ExecutionRecord::is_shard_of`]. A
    /// stream that is cut by a capacity is handed out chunk by chunk, one
    /// chunk to a shard: chunks beyond the last shard are dropped, and shards
    /// beyond the last chunk receive nothing.
    pub fn shard(self, config: &ShardingConfig) -> (shards: Vec<ExecutionRecord>)
        requires
            self.cpu_events@.len() > 0,
            config.wf(),
        ensures
            shards@.len() == num_runs(self.cpu_events@),
            forall|j: int|
                0 <= j < shards@.len() ==> (#[trigger] shards@[j]).is_shard_of(self, *config, j),
    {
        let ghost src = self;
        let ghost cpu = self.cpu_events@;
        let mut rest = self;
        let starts = find_run_starts(&rest.cpu_events);
        let count = starts.len();
        let mut lookups = take_run_lookups(&mut rest.byte_lookups, &rest.cpu_events, &starts);

        // What lies beyond the last shard's chunk goes to no shard.
        keep_chunks(&mut rest.add_events, config.add_len, count);
        keep_chunks(&mut rest.mul_events, config.mul_len, count);
        keep_chunks(&mut rest.sub_events, config.sub_len, count);
        keep_chunks(&mut rest.bitwise_events, config.bitwise_len, count);
        keep_chunks(&mut rest.shift_left_events, config.shift_left_len, count);
        keep_chunks(&mut rest.shift_right_events, config.shift_right_len, count);
        keep_chunks(&mut rest.divrem_events, config.divrem_len, count);
        keep_chunks(&mut rest.lt_events, config.lt_len, count);
        keep_chunks(&mut rest.keccak_permute_events, config.keccak_len, count);
        keep_chunks(&mut rest.secp256k1_add_events, config.secp256k1_add_len, count);
        keep_chunks(&mut rest.secp256k1_double_events, config.secp256k1_double_len, count);
        keep_chunks(&mut rest.bn254_add_events, config.bn254_add_len, count);
        keep_chunks(&mut rest.bn254_double_events, config.bn254_double_len, count);
        keep_chunks(&mut rest.bls12381_g1_add_events, config.bls12381_g1_add_len, count);
        keep_chunks(&mut rest.bls12381_g1_double_events, config.bls12381_g1_double_len, count);
        keep_chunks(&mut rest.bls12381_fp_add_events, config.bls12381_fp_add_len, count);
        keep_chunks(&mut rest.bls12381_fp_sub_events, config.bls12381_fp_sub_len, count);
        keep_chunks(&mut rest.bls12381_fp_mul_events, config.bls12381_fp_mul_len, count);
        keep_chunks(&mut rest.bls12381_fp2_add_events, config.bls12381_fp2_add_len, count);
        keep_chunks(&mut rest.bls12381_fp2_sub_events, config.bls12381_fp2_sub_len, count);
        keep_chunks(&mut rest.bls12381_fp2_mul_events, config.bls12381_fp2_mul_len, count);

        // Take the shards off the end, the last one first.
        let mut reversed: Vec<ExecutionRecord> = Vec::new();
        let mut left: usize = count;
        proof {
            assert(rest.cpu_events@ =~= cpu.subrange(0, cpu.len() as int));
        }
        while left > 0
            invariant
                0 <= left <= count,
                count == num_runs(cpu),
                cpu == src.cpu_events@,
                cpu.len() > 0,
                config.wf(),
                starts@.len() == count,
                forall|j: int|
                    0 <= j < starts@.len() ==> #[trigger] starts@[j] as int == run_start(cpu, j),
                rest.shards_from_taken(src, *config, left as int),
                lookups@.len() == left,
                forall|j: int|
                    0 <= j < left ==> shard_counts(#[trigger] lookups@[j]) == run_lookups(
                        src.lookups(),
                        cpu,
                        j,
                    ),
                reversed@.len() == count - left,
                forall|k: int|
                    0 <= k < reversed@.len() ==> (#[trigger] reversed@[k]).is_shard_of(
                        src,
                        *config,
                        count - 1 - k,
                    ),
            decreases left,
        {
            let j = left - 1;
            let shard_lookups: ShardLookups = match lookups.pop() {
                Some(m) => m,
                None => BTreeMap::new(),
            };
            let shard = rest.take_shard(config, j, starts[j], shard_lookups, Ghost(src));
            reversed.push(shard);
            left = j;
        }
        reverse_records(reversed)
    }
}


/// Whether `shards` are the shards of `src` under `config`, as `shard`
/// returns them.
pub open spec fn are_shards_of(
    shards: Seq<ExecutionRecord>,
    src: ExecutionRecord,
    config: ShardingConfig,
) -> bool {
    &&& src.cpu_events@.len() > 0
    &&& shards.len() == num_runs(src.cpu_events@)
    &&& forall|j: int| 0 <= j < shards.len() ==> (#[trigger] shards[j]).is_shard_of(src, config, j)
}

/// The CPU events of the first `n` records, one record after the other.
pub open spec fn cpu_events_of(records: Seq<ExecutionRecord>, n: int) -> Seq<CpuEvent>
    decreases n,
{
    if n <= 0 {
        Seq::empty()
    } else {
        cpu_events_of(records, n - 1) + records[n - 1].cpu_events@
    }
}

/// The sum of all byte-lookup multiplicities of the first `n` records.
pub open spec fn lookups_total_of(records: Seq<ExecutionRecord>, n: int) -> nat
    decreases n,
{
    if n <= 0 {
        0
    } else {
        lookups_total_of(records, n - 1) + lookups_total(records[n - 1].lookups())
    }
}

/// The lookups that no shard takes: those counted under a shard id that no
/// run of CPU events has.
pub open spec fn unclaimed_lookups(all: LookupCounts, cpu: Seq<CpuEvent>, n: int) -> LookupCounts {
    all.remove_keys(Set::new(|s: u32| earlier_run_has(cpu, n, s)))
}

/// The CPU events never go back to a smaller shard id.
pub open spec fn shard_ids_ascend(cpu: Seq<CpuEvent>) -> bool {
    forall|i: int, j: int|
        0 <= i <= j < cpu.len() ==> (#[trigger] cpu[i]).shard <= (#[trigger] cpu[j]).shard
}

/// The CPU events of the shards, taken in order, are the CPU events of the
/// record that was split, in their order.
pub proof fn lemma_shards_keep_cpu_events(
    shards: Seq<ExecutionRecord>,
    src: ExecutionRecord,
    config: ShardingConfig,
)
    requires
        are_shards_of(shards, src, config),
    ensures
        cpu_events_of(shards, shards.len() as int) == src.cpu_events@,
{
    let cpu = src.cpu_events@;
    lemma_runs_tile(cpu);
    lemma_cpu_events_prefix(shards, src, config, shards.len() as int);
    lemma_run_bounds(cpu, shards.len() - 1);
    assert(cpu.subrange(0, cpu.len() as int) =~= cpu);
}

/// The CPU events of the first `n` shards are the events before the end of
/// run `n - 1`.
proof fn lemma_cpu_events_prefix(
    shards: Seq<ExecutionRecord>,
    src: ExecutionRecord,
    config: ShardingConfig,
    n: int,
)
    requires
        are_shards_of(shards, src, config),
        0 <= n <= shards.len(),
    ensures
        cpu_events_of(shards, n) == src.cpu_events@.subrange(
            0,
            if n == 0 {
                0
            } else {
                run_end(src.cpu_events@, n - 1)
            },
        ),
    decreases n,
{
    let cpu = src.cpu_events@;
    if n == 0 {
        assert(cpu_events_of(shards, n) =~= cpu.subrange(0, 0));
    } else {
        lemma_cpu_events_prefix(shards, src, config, n - 1);
        lemma_run_bounds(cpu, n - 1);
        let last = shards[n - 1];
        assert(last.is_shard_of(src, config, n - 1));
        let before = cpu.subrange(0, run_start(cpu, n - 1));
        assert(cpu_events_of(shards, n - 1) == before);
        assert(last.cpu_events@ == cpu.subrange(run_start(cpu, n - 1), run_end(cpu, n - 1)));
        assert(before + last.cpu_events@ =~= cpu.subrange(0, run_end(cpu, n - 1)));
    }
}

/// Where the CPU events of the record never go back to a smaller shard id,
/// the shard ids in the public values of the shards increase strictly.
pub proof fn lemma_shard_ids_increase(
    shards: Seq<ExecutionRecord>,
    src: ExecutionRecord,
    config: ShardingConfig,
)
    requires
        are_shards_of(shards, src, config),
        shard_ids_ascend(src.cpu_events@),
    ensures
        forall|i: int, j: int|
            0 <= i < j < shards.len() ==> (#[trigger] shards[i]).public_values.shard < (
            #[trigger] shards[j]).public_values.shard,
{
    assert forall|i: int, j: int| 0 <= i < j < shards.len() implies (
    #[trigger] shards[i]).public_values.shard < (#[trigger] shards[j]).public_values.shard by {
        lemma_run_shards_increase(src.cpu_events@, i, j);
        assert(shards[i].is_shard_of(src, config, i));
        assert(shards[j].is_shard_of(src, config, j));
    }
}

/// The event before a run that is not the first belongs to the run before,
/// and has another shard id than the run.
proof fn lemma_run_boundary(cpu: Seq<CpuEvent>, j: int)
    requires
        cpu.len() > 0,
        0 < j < num_runs(cpu),
    ensures
        0 < run_start(cpu, j) < cpu.len(),
        cpu[run_start(cpu, j) - 1].shard == run_shard(cpu, j - 1),
        cpu[run_start(cpu, j) - 1].shard != run_shard(cpu, j),
        cpu[run_start(cpu, j)].shard == run_shard(cpu, j),
{
    lemma_runs_tile(cpu);
    let b = run_start(cpu, j);
    assert(0 <= run_start(cpu, j - 1) < run_end(cpu, j - 1));
    assert(run_end(cpu, j - 1) == b);
    assert(0 <= b < run_end(cpu, j));
}

/// Over CPU events that never go back to a smaller shard id, a later run has
/// the greater shard id.
proof fn lemma_run_shards_increase(cpu: Seq<CpuEvent>, i: int, j: int)
    requires
        cpu.len() > 0,
        0 <= i < j < num_runs(cpu),
        shard_ids_ascend(cpu),
    ensures
        run_shard(cpu, i) < run_shard(cpu, j),
    decreases j - i,
{
    lemma_run_boundary(cpu, j);
    let b = run_start(cpu, j);
    assert(cpu[b - 1].shard <= cpu[b].shard);
    if i < j - 1 {
        lemma_run_shards_increase(cpu, i, j - 1);
    }
}

/// Where every CPU event that opens a run starts at the program counter the
/// event before it leads to, every shard starts where the shard before it
/// ends.
pub proof fn lemma_shard_pcs_continue(
    shards: Seq<ExecutionRecord>,
    src: ExecutionRecord,
    config: ShardingConfig,
)
    requires
        are_shards_of(shards, src, config),
        forall|i: int|
            0 < i && #[trigger] starts_run(src.cpu_events@, i) ==> src.cpu_events@[i].pc
                == src.cpu_events@[i - 1].next_pc,
    ensures
        forall|j: int|
            0 < j < shards.len() ==> (#[trigger] shards[j]).public_values.start_pc == shards[j
                - 1].public_values.next_pc,
{
    let cpu = src.cpu_events@;
    lemma_runs_tile(cpu);
    lemma_run_starts(cpu, cpu.len() as int);
    assert forall|j: int| 0 < j < shards.len() implies (
    #[trigger] shards[j]).public_values.start_pc == shards[j - 1].public_values.next_pc by {
        assert(shards[j].is_shard_of(src, config, j));
        assert(shards[j - 1].is_shard_of(src, config, j - 1));
        assert(run_end(cpu, j - 1) == run_start(cpu, j));
        assert(0 <= run_start(cpu, j - 1) < run_end(cpu, j - 1));
        let b = run_starts(cpu, cpu.len() as int)[j];
        assert(starts_run(cpu, b));
    }
}

/// Splitting a record neither makes nor loses a byte lookup: the
/// multiplicities of the record add up to those of all shards and those that
/// no shard took.
pub proof fn lemma_shards_keep_lookup_total(
    shards: Seq<ExecutionRecord>,
    src: ExecutionRecord,
    config: ShardingConfig,
)
    requires
        are_shards_of(shards, src, config),
    ensures
        lookups_total(src.lookups()) == lookups_total_of(shards, shards.len() as int)
            + lookups_total(
            unclaimed_lookups(src.lookups(), src.cpu_events@, shards.len() as int),
        ),
{
    lemma_lookup_total_prefix(shards, src, config, shards.len() as int);
}

/// After the first `n` shards, what they took and what is still there add up
/// to the whole.
proof fn lemma_lookup_total_prefix(
    shards: Seq<ExecutionRecord>,
    src: ExecutionRecord,
    config: ShardingConfig,
    n: int,
)
    requires
        are_shards_of(shards, src, config),
        0 <= n <= shards.len(),
    ensures
        lookups_total(src.lookups()) == lookups_total_of(shards, n) + lookups_total(
            unclaimed_lookups(src.lookups(), src.cpu_events@, n),
        ),
    decreases n,
{
    let cpu = src.cpu_events@;
    let all = src.lookups();
    lemma_lookup_counts_finite(src.byte_lookups);
    if n == 0 {
        assert(unclaimed_lookups(all, cpu, 0) =~= all);
    } else {
        lemma_lookup_total_prefix(shards, src, config, n - 1);
        let s = run_shard(cpu, n - 1);
        let before = unclaimed_lookups(all, cpu, n - 1);
        let after = unclaimed_lookups(all, cpu, n);
        assert(shards[n - 1].is_shard_of(src, config, n - 1));
        lemma_lookups_total_single(s, run_lookups(all, cpu, n - 1));
        assert forall|x: u32| earlier_run_has(cpu, n, x) <==> (earlier_run_has(cpu, n - 1, x) || x
            == s) by {
            lemma_earlier_run_step(cpu, n - 1, x);
        }
        assert(after =~= before.remove(s));
        assert(before.dom().finite()) by {
            assert(before.dom().subset_of(all.dom()));
            vstd::set_lib::lemma_len_subset(before.dom(), all.dom());
        }
        if before.contains_key(s) {
            lemma_lookups_total_remove(before, s);
            assert(run_lookups(all, cpu, n - 1) == all[s]);
        } else {
            assert(before.remove(s) =~= before);
            if earlier_run_has(cpu, n - 1, s) {
            } else {
                assert(!all.contains_key(s));
            }
            lemma_shard_total_empty();
        }
    }
}


/// Every CPU event of a shard has the shard's index as its shard id, and so
/// have the shard's public values and its byte lookups.
pub proof fn lemma_shard_events_share_index(
    shards: Seq<ExecutionRecord>,
    src: ExecutionRecord,
    config: ShardingConfig,
)
    requires
        are_shards_of(shards, src, config),
    ensures
        forall|j: int, k: int|
            0 <= j < shards.len() && 0 <= k < shards[j].cpu_events@.len() ==> (
            #[trigger] shards[j].cpu_events@[k]).shard == shards[j].index,
        forall|j: int|
            0 <= j < shards.len() ==> (#[trigger] shards[j]).public_values.shard
                == shards[j].index,
        forall|j: int, s: u32|
            0 <= j < shards.len() && #[trigger] shards[j].lookups().contains_key(s) ==> s
                == shards[j].index,
{
    let cpu = src.cpu_events@;
    assert forall|j: int, k: int|
        0 <= j < shards.len() && 0 <= k < shards[j].cpu_events@.len() implies (
    #[trigger] shards[j].cpu_events@[k]).shard == shards[j].index by {
        assert(shards[j].is_shard_of(src, config, j));
        lemma_run_bounds(cpu, j);
        lemma_run_constant(cpu, j, run_start(cpu, j) + k);
        assert(shards[j].cpu_events@[k] == cpu[run_start(cpu, j) + k]);
    }
    assert forall|j: int| 0 <= j < shards.len() implies (#[trigger] shards[j]).public_values.shard
        == shards[j].index by {
        assert(shards[j].is_shard_of(src, config, j));
    }
    assert forall|j: int, s: u32|
        0 <= j < shards.len() && #[trigger] shards[j].lookups().contains_key(s) implies s
        == shards[j].index by {
        assert(shards[j].is_shard_of(src, config, j));
    }
}

/// The byte lookups of the shards have positive multiplicities if those of
/// the record have.
pub proof fn lemma_shard_lookups_positive(
    shards: Seq<ExecutionRecord>,
    src: ExecutionRecord,
    config: ShardingConfig,
)
    requires
        are_shards_of(shards, src, config),
        counts_positive(src.lookups()),
    ensures
        forall|j: int| 0 <= j < shards.len() ==> counts_positive((#[trigger] shards[j]).lookups()),
{
    let cpu = src.cpu_events@;
    assert forall|j: int| 0 <= j < shards.len() implies counts_positive(
        (#[trigger] shards[j]).lookups()
    ) by {
        assert(shards[j].is_shard_of(src, config, j));
        let mine = shards[j].lookups();
        let all = src.lookups();
        assert forall|s: u32, x: ByteLookupKey|
            mine.contains_key(s) && #[trigger] mine[s].contains_key(x) implies mine[s][x] > 0 by {
            assert(s == run_shard(cpu, j));
            assert(all.contains_key(s) && all[s].contains_key(x));
        }
    }
}

impl Default for ExecutionRecord {
    /// An empty record for shard 0 of the empty program.
    fn default() -> (r: Self)
        ensures
            r.index == 0,
            r.streams_empty(),
            r.lookups() == Map::<u32, ShardCounts>::empty(),
            r.public_values == PublicValues::new_spec(),
    {
        ExecutionRecord::new(0, Arc::new(Program::default()))
    }
}

} // verus!
