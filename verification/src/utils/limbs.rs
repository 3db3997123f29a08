//! Conversions between numbers, their little-endian bytes (limbs) and 32-bit
//! words, and what is true of them.

use num::BigUint;
use vstd::prelude::*;

use crate::utils::bigint::{biguint_value, bytes_value, limbs_of, to_bytes_le, words_value};

verus! {

/// 256 to the power `n`.
pub open spec fn pow256(n: nat) -> nat
    decreases n,
{
    if n == 0 {
        1
    } else {
        256 * pow256((n - 1) as nat)
    }
}

/// `n` zero bytes.
pub open spec fn zero_limbs(n: nat) -> Seq<u8> {
    Seq::new(n, |i: int| 0u8)
}

/// The four bytes of each word, in the order of the words, each word least
/// significant byte first.
pub open spec fn words_to_bytes(words: Seq<u32>) -> Seq<u8> {
    Seq::new(
        4 * words.len(),
        |i: int|
            if i % 4 == 0 {
                (words[i / 4] % 256) as u8
            } else if i % 4 == 1 {
                ((words[i / 4] / 256) % 256) as u8
            } else if i % 4 == 2 {
                ((words[i / 4] / 65536) % 256) as u8
            } else {
                ((words[i / 4] / 16777216) % 256) as u8
            },
    )
}

/// The word of four bytes, the least significant first.
pub open spec fn word_of(b0: u8, b1: u8, b2: u8, b3: u8) -> u32 {
    (b0 as u32 + 256 * (b1 as u32) + 65536 * (b2 as u32) + 16777216 * (b3 as u32)) as u32
}

/// The words of `bytes` taken four at a time, least significant byte first.
pub open spec fn bytes_to_words(bytes: Seq<u8>) -> Seq<u32> {
    Seq::new(
        bytes.len() / 4,
        |i: int| word_of(bytes[4 * i], bytes[4 * i + 1], bytes[4 * i + 2], bytes[4 * i + 3]),
    )
}

/// Bytes stand for a number below 256 to the power of their count.
pub proof fn lemma_bytes_value_bound(s: Seq<u8>)
    ensures
        bytes_value(s) < pow256(s.len()),
    decreases s.len(),
{
    if s.len() > 0 {
        lemma_bytes_value_bound(s.drop_first());
    }
}

/// A number is odd exactly if its least significant byte is.
pub proof fn lemma_bytes_value_parity(s: Seq<u8>)
    requires
        s.len() > 0,
    ensures
        bytes_value(s) % 2 == (s[0] % 2) as nat,
{
    let rest = bytes_value(s.drop_first());
    assert((s[0] as nat + 256 * rest) % 2 == (s[0] as nat) % 2) by (nonlinear_arith);
}

/// Zero bytes stand for zero.
pub proof fn lemma_zero_limbs_value(n: nat)
    ensures
        bytes_value(zero_limbs(n)) == 0,
        limbs_of(0, n) == zero_limbs(n),
    decreases n,
{
    if n > 0 {
        lemma_zero_limbs_value((n - 1) as nat);
        assert(zero_limbs(n).drop_first() =~= zero_limbs((n - 1) as nat));
        assert(limbs_of(0, n) =~= zero_limbs(n));
    } else {
        assert(limbs_of(0, n) =~= zero_limbs(n));
    }
}

/// The limbs of the number that `s` stands for are the bytes of `s`: cut off
/// where fewer are asked for, and filled up with zeros where more are.
pub proof fn lemma_limbs_of_bytes(s: Seq<u8>, n: nat)
    ensures
        n <= s.len() ==> limbs_of(bytes_value(s), n) == s.subrange(0, n as int),
        n >= s.len() ==> limbs_of(bytes_value(s), n) == s + zero_limbs((n - s.len()) as nat),
    decreases n,
{
    if n == 0 {
        assert(limbs_of(bytes_value(s), n) =~= s.subrange(0, 0));
        if s.len() == 0 {
            assert(limbs_of(bytes_value(s), n) =~= s + zero_limbs(0));
        }
    } else if s.len() == 0 {
        lemma_zero_limbs_value(n);
        assert(limbs_of(bytes_value(s), n) =~= s + zero_limbs(n));
    } else {
        let rest = s.drop_first();
        let v = bytes_value(s);
        assert(v == s[0] as nat + 256 * bytes_value(rest));
        assert(v % 256 == s[0] as nat && v / 256 == bytes_value(rest)) by (nonlinear_arith)
            requires
                v == s[0] as nat + 256 * bytes_value(rest),
                s[0] < 256,
        ;
        lemma_limbs_of_bytes(rest, (n - 1) as nat);
        if n <= s.len() {
            assert(limbs_of(v, n) =~= s.subrange(0, n as int));
        }
        if n >= s.len() {
            assert(limbs_of(v, n) =~= s + zero_limbs((n - s.len()) as nat));
        }
    }
}

/// The limbs of a number stand for the number, as far as they reach.
pub proof fn lemma_limbs_value(v: nat, n: nat)
    ensures
        limbs_of(v, n).len() == n,
        bytes_value(limbs_of(v, n)) == v % pow256(n),
        v < pow256(n) ==> bytes_value(limbs_of(v, n)) == v,
    decreases n,
{
    if n == 0 {
    } else {
        lemma_limbs_value(v / 256, (n - 1) as nat);
        let l = limbs_of(v, n);
        assert(l.drop_first() =~= limbs_of(v / 256, (n - 1) as nat));
        let p = pow256((n - 1) as nat);
        lemma_pow256_positive((n - 1) as nat);
        vstd::arithmetic::div_mod::lemma_breakdown(v as int, 256, p as int);
        if v < pow256(n) {
            vstd::arithmetic::div_mod::lemma_small_mod(v, pow256(n));
        }
    }
}

/// A power of 256 is positive.
pub proof fn lemma_pow256_positive(n: nat)
    ensures
        pow256(n) > 0,
    decreases n,
{
    if n > 0 {
        lemma_pow256_positive((n - 1) as nat);
    }
}

/// The number of at least four bytes, with the first four taken together.
pub proof fn lemma_bytes_value_four(s: Seq<u8>)
    requires
        s.len() >= 4,
    ensures
        bytes_value(s) == s[0] as nat + 256 * (s[1] as nat) + 65536 * (s[2] as nat) + 16777216 * (
        s[3] as nat) + 0x1_0000_0000 * bytes_value(s.skip(4)),
{
    let s1 = s.drop_first();
    let s2 = s1.drop_first();
    let s3 = s2.drop_first();
    let s4 = s3.drop_first();
    assert(s4 =~= s.skip(4));
    assert(bytes_value(s) == s[0] as nat + 256 * bytes_value(s1));
    assert(bytes_value(s1) == s[1] as nat + 256 * bytes_value(s2));
    assert(bytes_value(s2) == s[2] as nat + 256 * bytes_value(s3));
    assert(bytes_value(s3) == s[3] as nat + 256 * bytes_value(s4));
}

/// A word is made of its four bytes.
pub proof fn lemma_word_split(w: u32)
    ensures
        w as nat == (w % 256) + 256 * ((w / 256) % 256) + 65536 * ((w / 65536) % 256) + 16777216
            * ((w / 16777216) % 256),
{
    assert(w == (w % 256) + 256 * ((w / 256) % 256) + 65536 * ((w / 65536) % 256) + 16777216 * ((w
        / 16777216) % 256)) by (bit_vector);
}

/// The bytes of words stand for the number the words stand for.
pub proof fn lemma_words_to_bytes_value(words: Seq<u32>)
    ensures
        bytes_value(words_to_bytes(words)) == words_value(words),
    decreases words.len(),
{
    if words.len() > 0 {
        let rest = words.drop_first();
        lemma_words_to_bytes_value(rest);
        let b = words_to_bytes(words);
        assert(b.skip(4) =~= words_to_bytes(rest)) by {
            assert forall|i: int| 0 <= i < b.skip(4).len() implies b.skip(4)[i] == words_to_bytes(
                rest,
            )[i] by {
                assert(b.skip(4)[i] == b[i + 4]);
                assert((i + 4) / 4 == i / 4 + 1);
                assert((i + 4) % 4 == i % 4);
                assert(words[(i + 4) / 4] == rest[i / 4]);
            }
        }
        lemma_bytes_value_four(b);
        lemma_word_split(words[0]);
    } else {
        assert(words_to_bytes(words) =~= Seq::<u8>::empty());
    }
}

/// A word made of four bytes has those bytes.
pub proof fn lemma_word_of_bytes(b0: u8, b1: u8, b2: u8, b3: u8)
    ensures
        word_of(b0, b1, b2, b3) == b0 + 256 * b1 + 65536 * b2 + 16777216 * b3,
        word_of(b0, b1, b2, b3) % 256 == b0,
        (word_of(b0, b1, b2, b3) / 256) % 256 == b1,
        (word_of(b0, b1, b2, b3) / 65536) % 256 == b2,
        (word_of(b0, b1, b2, b3) / 16777216) % 256 == b3,
{
    let w: u32 = word_of(b0, b1, b2, b3);
    assert(w == b0 as u32 + 256 * (b1 as u32) + 65536 * (b2 as u32) + 16777216 * (b3 as u32));
    assert(w % 256 == b0 as u32 && (w / 256) % 256 == b1 as u32 && (w / 65536) % 256 == b2 as u32
        && (w / 16777216) % 256 == b3 as u32) by (bit_vector)
        requires
            w == b0 as u32 + 256 * (b1 as u32) + 65536 * (b2 as u32) + 16777216 * (b3 as u32),
    ;
}

/// Words made of bytes give the bytes back.
pub proof fn lemma_bytes_to_words_round_trip(bytes: Seq<u8>)
    requires
        bytes.len() % 4 == 0,
    ensures
        words_to_bytes(bytes_to_words(bytes)) == bytes,
{
    let words = bytes_to_words(bytes);
    assert forall|i: int| 0 <= i < bytes.len() implies words_to_bytes(words)[i] == bytes[i] by {
        let k = i / 4;
        lemma_word_of_bytes(bytes[4 * k], bytes[4 * k + 1], bytes[4 * k + 2], bytes[4 * k + 3]);
        assert(words[k] == word_of(
            bytes[4 * k],
            bytes[4 * k + 1],
            bytes[4 * k + 2],
            bytes[4 * k + 3]
        ));
        assert(i == 4 * k + i % 4);
    }
    assert(words_to_bytes(words) =~= bytes);
}

/// The first `num_limbs` bytes of the number, least significant first, filled
/// up with zeros where the number has fewer.
pub fn to_limbs(n: &BigUint, num_limbs: usize) -> (r: Vec<u8>)
    ensures
        r@ == limbs_of(biguint_value(*n), num_limbs as nat),
        r@.len() == num_limbs,
{
    let mut bytes = to_bytes_le(n);
    let ghost all = bytes@;
    proof {
        lemma_limbs_of_bytes(all, num_limbs as nat);
        lemma_limbs_value(biguint_value(*n), num_limbs as nat);
    }
    if bytes.len() > num_limbs {
        bytes.truncate(num_limbs);
    } else {
        while bytes.len() < num_limbs
            invariant
                all.len() <= bytes@.len() <= num_limbs,
                bytes@ == all + zero_limbs((bytes@.len() - all.len()) as nat),
            decreases num_limbs - bytes@.len(),
        {
            bytes.push(0u8);
            assert(bytes@ =~= all + zero_limbs((bytes@.len() - all.len()) as nat));
        }
    }
    bytes
}

/// The bytes of the words, each word least significant byte first.
pub fn words_to_bytes_le(words: &Vec<u32>) -> (r: Vec<u8>)
    requires
        4 * words@.len() <= usize::MAX,
    ensures
        r@ == words_to_bytes(words@),
        bytes_value(r@) == words_value(words@),
{
    let mut bytes: Vec<u8> = Vec::new();
    let mut i: usize = 0;
    while i < words.len()
        invariant
            0 <= i <= words@.len(),
            bytes@.len() == 4 * i,
            forall|k: int| 0 <= k < bytes@.len() ==> bytes@[k] == words_to_bytes(words@)[k],
        decreases words@.len() - i,
    {
        let w = words[i];
        bytes.push((w % 256) as u8);
        bytes.push(((w / 256) % 256) as u8);
        bytes.push(((w / 65536) % 256) as u8);
        bytes.push(((w / 16777216) % 256) as u8);
        i = i + 1;
    }
    proof {
        assert(bytes@ =~= words_to_bytes(words@));
        lemma_words_to_bytes_value(words@);
    }
    bytes
}

/// The words of the bytes, taken four at a time, least significant byte
/// first.
pub fn bytes_to_words_le(bytes: &Vec<u8>) -> (r: Vec<u32>)
    requires
        bytes@.len() % 4 == 0,
    ensures
        r@ == bytes_to_words(bytes@),
        words_to_bytes(r@) == bytes@,
        words_value(r@) == bytes_value(bytes@),
{
    let mut words: Vec<u32> = Vec::new();
    let mut i: usize = 0;
    let n = bytes.len() / 4;
    while i < n
        invariant
            0 <= i <= n,
            n == bytes@.len() / 4,
            bytes@.len() % 4 == 0,
            words@.len() == i,
            forall|k: int| 0 <= k < words@.len() ==> words@[k] == bytes_to_words(bytes@)[k],
        decreases n - i,
    {
        assert(4 * i + 3 < bytes@.len() <= usize::MAX) by {
            assert(bytes@.len() == bytes.len());
        }
        let b0 = bytes[4 * i] as u32;
        let b1 = bytes[4 * i + 1] as u32;
        let b2 = bytes[4 * i + 2] as u32;
        let b3 = bytes[4 * i + 3] as u32;
        words.push(b0 + 256 * b1 + 65536 * b2 + 16777216 * b3);
        i = i + 1;
    }
    proof {
        assert(words@ =~= bytes_to_words(bytes@));
        lemma_bytes_to_words_round_trip(bytes@);
        lemma_words_to_bytes_value(words@);
    }
    words
}

} // verus!
