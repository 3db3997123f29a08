//! The values a shard exposes outside its proof.

use vstd::prelude::*;

verus! {

/// Number of bytes in the flattened public values: two digests of 32 bytes
/// and four words of 4 bytes.
pub const PUBLIC_VALUES_BYTES: usize = 80;

/// The public values of one shard.
#[derive(Clone, Copy, Debug)]
pub struct PublicValues {
    /// Digest of the values the guest committed to.
    pub committed_value_digest: [u32; 8],
    /// Digest of the proofs whose verification the guest deferred.
    pub deferred_proofs_digest: [u32; 8],
    /// The shard these values belong to.
    pub shard: u32,
    /// The program counter at the shard's first instruction.
    pub start_pc: u32,
    /// The program counter after the shard's last instruction.
    pub next_pc: u32,
    /// The exit code after the shard's last instruction.
    pub exit_code: u32,
}

/// Byte `i` of `w`, the least significant being byte 0.
pub open spec fn word_byte(w: u32, i: int) -> u32 {
    if i == 0 {
        w % 256
    } else if i == 1 {
        (w / 256) % 256
    } else if i == 2 {
        (w / 65536) % 256
    } else {
        (w / 16777216) % 256
    }
}

/// The four bytes of `w`, least significant first.
pub open spec fn word_bytes(w: u32) -> Seq<u32> {
    seq![word_byte(w, 0), word_byte(w, 1), word_byte(w, 2), word_byte(w, 3)]
}

/// The bytes of all words of `words`, in order, each word least significant
/// byte first.
pub open spec fn words_bytes(words: Seq<u32>) -> Seq<u32>
    decreases words.len(),
{
    if words.len() == 0 {
        Seq::empty()
    } else {
        words_bytes(words.drop_last()) + word_bytes(words.last())
    }
}

impl PublicValues {
    /// The flattened encoding: the committed digest, the deferred-proofs
    /// digest, the shard, the first and the next program counter and the exit
    /// code, each word as four bytes, least significant first, and each byte
    /// as one element.
    pub open spec fn spec_flatten(self) -> Seq<u32> {
        words_bytes(self.committed_value_digest@) + words_bytes(self.deferred_proofs_digest@)
            + word_bytes(self.shard) + word_bytes(self.start_pc) + word_bytes(self.next_pc)
            + word_bytes(self.exit_code)
    }

    /// The public values of a record that nothing has happened in.
    pub open spec fn new_spec() -> PublicValues {
        PublicValues {
            committed_value_digest: [0u32, 0u32, 0u32, 0u32, 0u32, 0u32, 0u32, 0u32],
            deferred_proofs_digest: [0u32, 0u32, 0u32, 0u32, 0u32, 0u32, 0u32, 0u32],
            shard: 0,
            start_pc: 0,
            next_pc: 0,
            exit_code: 0,
        }
    }

    /// Public values with every word zero.
    pub fn new() -> (r: Self)
        ensures
            r == PublicValues::new_spec(),
    {
        PublicValues {
            committed_value_digest: [0u32, 0u32, 0u32, 0u32, 0u32, 0u32, 0u32, 0u32],
            deferred_proofs_digest: [0u32, 0u32, 0u32, 0u32, 0u32, 0u32, 0u32, 0u32],
            shard: 0,
            start_pc: 0,
            next_pc: 0,
            exit_code: 0,
        }
    }

    /// The flattened encoding handed to the prover: 80 elements, each a byte.
    pub fn to_vec(&self) -> (r: Vec<u32>)
        ensures
            r@ == self.spec_flatten(),
            r@.len() == PUBLIC_VALUES_BYTES,
            forall|i: int| 0 <= i < r@.len() ==> r@[i] < 256,
    {
        let mut out: Vec<u32> = Vec::new();
        push_words(&mut out, &self.committed_value_digest);
        push_words(&mut out, &self.deferred_proofs_digest);
        push_word(&mut out, self.shard);
        push_word(&mut out, self.start_pc);
        push_word(&mut out, self.next_pc);
        push_word(&mut out, self.exit_code);
        proof {
            lemma_words_bytes_len(self.committed_value_digest@);
            lemma_words_bytes_len(self.deferred_proofs_digest@);
        }
        out
    }
}

/// `words_bytes` yields four bytes for each word.
pub proof fn lemma_words_bytes_len(words: Seq<u32>)
    ensures
        words_bytes(words).len() == 4 * words.len(),
        forall|i: int| 0 <= i < words_bytes(words).len() ==> words_bytes(words)[i] < 256,
    decreases words.len(),
{
    if words.len() > 0 {
        lemma_words_bytes_len(words.drop_last());
    }
}

/// Appends the four bytes of `w`.
fn push_word(out: &mut Vec<u32>, w: u32)
    requires
        forall|i: int| 0 <= i < old(out)@.len() ==> old(out)@[i] < 256,
    ensures
        final(out)@ == old(out)@ + word_bytes(w),
        forall|i: int| 0 <= i < final(out)@.len() ==> final(out)@[i] < 256,
{
    out.push(w % 256);
    out.push((w / 256) % 256);
    out.push((w / 65536) % 256);
    out.push((w / 16777216) % 256);
    assert(out@ =~= old(out)@ + word_bytes(w));
}

/// Appends the bytes of the eight words of a digest.
fn push_words(out: &mut Vec<u32>, words: &[u32; 8])
    requires
        forall|i: int| 0 <= i < old(out)@.len() ==> old(out)@[i] < 256,
    ensures
        final(out)@ == old(out)@ + words_bytes(words@),
        forall|i: int| 0 <= i < final(out)@.len() ==> final(out)@[i] < 256,
{
    let mut i: usize = 0;
    assert(words@.subrange(0, 0) =~= Seq::<u32>::empty());
    assert(out@ =~= old(out)@ + words_bytes(words@.subrange(0, 0)));
    while i < 8
        invariant
            0 <= i <= 8,
            words@.len() == 8,
            out@ == old(out)@ + words_bytes(words@.subrange(0, i as int)),
            forall|k: int| 0 <= k < out@.len() ==> out@[k] < 256,
        decreases 8 - i,
    {
        let ghost before = words@.subrange(0, i as int);
        let w = words[i];
        push_word(out, w);
        i = i + 1;
        proof {
            let after = words@.subrange(0, i as int);
            assert(after.drop_last() =~= before);
            assert(after.last() == w);
            assert(out@ =~= old(out)@ + words_bytes(after));
        }
    }
    assert(words@.subrange(0, 8) =~= words@);
}

} // verus!
