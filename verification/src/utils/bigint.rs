//! Natural numbers of any size, as `num::BigUint` computes with them, and the
//! little-endian bytes and words they are read from and written to.

use num::BigUint;
use vstd::arithmetic::power::pow;
use vstd::prelude::*;

verus! {

/// `num::BigUint`: a natural number of any size. What a value holds is not
/// visible here; [`biguint_bytes`] names it.
#[verifier::external_type_specification]
#[verifier::external_body]
pub struct ExBigUint(BigUint);

/// The bytes of the number, least significant first and without a zero at the
/// most significant end; zero is the one byte 0. This is what
/// `BigUint::to_bytes_le` returns.
pub uninterp spec fn biguint_bytes(n: BigUint) -> Seq<u8>;

/// The number that the bytes `s` stand for, the least significant byte first.
pub open spec fn bytes_value(s: Seq<u8>) -> nat
    decreases s.len(),
{
    if s.len() == 0 {
        0
    } else {
        s[0] as nat + 256 * bytes_value(s.drop_first())
    }
}

/// The number that the 32-bit words `s` stand for, the least significant word
/// first.
pub open spec fn words_value(s: Seq<u32>) -> nat
    decreases s.len(),
{
    if s.len() == 0 {
        0
    } else {
        s[0] as nat + 0x1_0000_0000 * words_value(s.drop_first())
    }
}

/// The number a `BigUint` stands for.
pub open spec fn biguint_value(n: BigUint) -> nat {
    bytes_value(biguint_bytes(n))
}

/// The `n` least significant bytes of `v`, least significant first.
pub open spec fn limbs_of(v: nat, n: nat) -> Seq<u8>
    decreases n,
{
    if n == 0 {
        Seq::empty()
    } else {
        seq![(v % 256) as u8] + limbs_of(v / 256, (n - 1) as nat)
    }
}

/// The number with the given bytes, least significant first.
///
/// Calls `BigUint::from_bytes_le`, which reads the bytes as the digits of the
/// number to base 256 and gives zero for no bytes at all.
#[verifier::external_body]
pub(crate) fn from_bytes_le(bytes: &[u8]) -> (r: BigUint)
    ensures
        biguint_value(r) == bytes_value(bytes@),
{
    BigUint::from_bytes_le(bytes)
}

/// The number with the given 32-bit words, least significant first.
///
/// Calls `BigUint::from_slice`, which reads the words as the digits of the
/// number to base 2^32.
#[verifier::external_body]
pub(crate) fn from_words_le(words: &[u32]) -> (r: BigUint)
    ensures
        biguint_value(r) == words_value(words@),
{
    BigUint::from_slice(words)
}

/// The bytes of the number, least significant first.
///
/// Calls `BigUint::to_bytes_le`, which gives the one byte 0 for zero and else
/// the digits to base 256 up to the most significant one that is not zero:
/// at least one byte in either case.
#[verifier::external_body]
pub(crate) fn to_bytes_le(n: &BigUint) -> (r: Vec<u8>)
    ensures
        r@ == biguint_bytes(*n),
        r@.len() >= 1,
{
    n.to_bytes_le()
}

/// The sum of two numbers, by the `+` of `BigUint`.
#[verifier::external_body]
pub(crate) fn big_add(a: &BigUint, b: &BigUint) -> (r: BigUint)
    ensures
        biguint_value(r) == biguint_value(*a) + biguint_value(*b),
{
    a + b
}

/// The difference of two numbers, by the `-` of `BigUint`, which panics where
/// the difference would be negative.
#[verifier::external_body]
pub(crate) fn big_sub(a: &BigUint, b: &BigUint) -> (r: BigUint)
    requires
        biguint_value(*a) >= biguint_value(*b),
    ensures
        biguint_value(r) == biguint_value(*a) - biguint_value(*b),
{
    a - b
}

/// The product of two numbers, by the `*` of `BigUint`.
#[verifier::external_body]
pub(crate) fn big_mul(a: &BigUint, b: &BigUint) -> (r: BigUint)
    ensures
        biguint_value(r) == biguint_value(*a) * biguint_value(*b),
{
    a * b
}

/// The remainder of `a` divided by `m`, by the `%` of `BigUint`, which panics
/// where `m` is zero.
#[verifier::external_body]
pub(crate) fn big_rem(a: &BigUint, m: &BigUint) -> (r: BigUint)
    requires
        biguint_value(*m) > 0,
    ensures
        biguint_value(r) == biguint_value(*a) % biguint_value(*m),
{
    a % m
}

/// `base` to the power `exponent`, modulo `modulus`.
///
/// Calls `BigUint::modpow`, which returns `(self ^ exponent) % modulus` and
/// panics where the modulus is zero.
#[verifier::external_body]
pub(crate) fn big_modpow(base: &BigUint, exponent: &BigUint, modulus: &BigUint) -> (r: BigUint)
    requires
        biguint_value(*modulus) > 0,
    ensures
        biguint_value(r) == pow(biguint_value(*base) as int, biguint_value(*exponent))
            % (biguint_value(*modulus) as int),
{
    base.modpow(exponent, modulus)
}

/// Whether two numbers are the same, by the `==` of `BigUint`.
#[verifier::external_body]
pub(crate) fn big_eq(a: &BigUint, b: &BigUint) -> (r: bool)
    ensures
        r == (biguint_value(*a) == biguint_value(*b)),
{
    a == b
}

} // verus!
