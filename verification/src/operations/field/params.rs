//! The prime fields the precompiles compute in, and the curves over them.
//!
//! Numbers are given as bytes, the least significant first.

use num::BigUint;
use vstd::prelude::*;

use crate::utils::bigint::{biguint_value, bytes_value, from_bytes_le};
use crate::utils::limbs::{
    lemma_bytes_value_bound, lemma_bytes_value_four, lemma_bytes_value_parity, pow256,
};

verus! {

/// The prime 2^255 - 19, the modulus of the base field of Ed25519.
pub const ED25519_MODULUS: [u8; 32] = [
    0xed, 0xff, 0xff, 0xff, 0xff, 0xff, 0xff, 0xff,
    0xff, 0xff, 0xff, 0xff, 0xff, 0xff, 0xff, 0xff,
    0xff, 0xff, 0xff, 0xff, 0xff, 0xff, 0xff, 0xff,
    0xff, 0xff, 0xff, 0xff, 0xff, 0xff, 0xff, 0x7f,
];

/// The constant `d` of the curve equation of Ed25519: -121665 / 121666.
pub const ED25519_D: [u8; 32] = [
    0xa3, 0x78, 0x59, 0x13, 0xca, 0x4d, 0xeb, 0x75,
    0xab, 0xd8, 0x41, 0x41, 0x4d, 0x0a, 0x70, 0x00,
    0x98, 0xe8, 0x79, 0x77, 0x79, 0x40, 0xc7, 0x8c,
    0x73, 0xfe, 0x6f, 0x2b, 0xee, 0x6c, 0x03, 0x52,
];

/// A square root of -1 in the base field of Ed25519.
pub const ED25519_SQRT_M1: [u8; 32] = [
    0xb0, 0xa0, 0x0e, 0x4a, 0x27, 0x1b, 0xee, 0xc4,
    0x78, 0xe4, 0x2f, 0xad, 0x06, 0x18, 0x43, 0x2f,
    0xa7, 0xd7, 0xfb, 0x3d, 0x99, 0x00, 0x4d, 0x2b,
    0x0b, 0xdf, 0xc1, 0x4f, 0x80, 0x24, 0x83, 0x2b,
];

/// The exponent (p + 3) / 8 for the base field of Ed25519.
pub const ED25519_SQRT_EXPONENT: [u8; 32] = [
    0xfe, 0xff, 0xff, 0xff, 0xff, 0xff, 0xff, 0xff,
    0xff, 0xff, 0xff, 0xff, 0xff, 0xff, 0xff, 0xff,
    0xff, 0xff, 0xff, 0xff, 0xff, 0xff, 0xff, 0xff,
    0xff, 0xff, 0xff, 0xff, 0xff, 0xff, 0xff, 0x0f,
];

/// The prime 2^256 - 2^32 - 977, the modulus of the base field of secp256k1.
pub const SECP256K1_MODULUS: [u8; 32] = [
    0x2f, 0xfc, 0xff, 0xff, 0xfe, 0xff, 0xff, 0xff,
    0xff, 0xff, 0xff, 0xff, 0xff, 0xff, 0xff, 0xff,
    0xff, 0xff, 0xff, 0xff, 0xff, 0xff, 0xff, 0xff,
    0xff, 0xff, 0xff, 0xff, 0xff, 0xff, 0xff, 0xff,
];

/// The exponent (p + 1) / 4 for the base field of secp256k1.
pub const SECP256K1_SQRT_EXPONENT: [u8; 32] = [
    0x0c, 0xff, 0xff, 0xbf, 0xff, 0xff, 0xff, 0xff,
    0xff, 0xff, 0xff, 0xff, 0xff, 0xff, 0xff, 0xff,
    0xff, 0xff, 0xff, 0xff, 0xff, 0xff, 0xff, 0xff,
    0xff, 0xff, 0xff, 0xff, 0xff, 0xff, 0xff, 0x3f,
];

/// The `x` of the generator of secp256k1.
pub const SECP256K1_GENERATOR_X: [u8; 32] = [
    0x98, 0x17, 0xf8, 0x16, 0x5b, 0x81, 0xf2, 0x59,
    0xd9, 0x28, 0xce, 0x2d, 0xdb, 0xfc, 0x9b, 0x02,
    0x07, 0x0b, 0x87, 0xce, 0x95, 0x62, 0xa0, 0x55,
    0xac, 0xbb, 0xdc, 0xf9, 0x7e, 0x66, 0xbe, 0x79,
];

/// The prime of 381 bits that is the modulus of the base field of BLS12-381.
pub const BLS12381_MODULUS: [u8; 48] = [
    0xab, 0xaa, 0xff, 0xff, 0xff, 0xff, 0xfe, 0xb9,
    0xff, 0xff, 0x53, 0xb1, 0xfe, 0xff, 0xab, 0x1e,
    0x24, 0xf6, 0xb0, 0xf6, 0xa0, 0xd2, 0x30, 0x67,
    0xbf, 0x12, 0x85, 0xf3, 0x84, 0x4b, 0x77, 0x64,
    0xd7, 0xac, 0x4b, 0x43, 0xb6, 0xa7, 0x1b, 0x4b,
    0x9a, 0xe6, 0x7f, 0x39, 0xea, 0x11, 0x01, 0x1a,
];

/// The exponent (p + 1) / 4 for the base field of BLS12-381.
pub const BLS12381_SQRT_EXPONENT: [u8; 48] = [
    0xab, 0xea, 0xff, 0xff, 0xff, 0xbf, 0x7f, 0xee,
    0xff, 0xff, 0x54, 0xac, 0xff, 0xff, 0xaa, 0x07,
    0x89, 0x3d, 0xac, 0x3d, 0xa8, 0x34, 0xcc, 0xd9,
    0xaf, 0x44, 0xe1, 0x3c, 0xe1, 0xd2, 0x1d, 0xd9,
    0x35, 0xeb, 0xd2, 0x90, 0xed, 0xe9, 0xc6, 0x92,
    0xa6, 0xf9, 0x5f, 0x8e, 0x7a, 0x44, 0x80, 0x06,
];

/// The `x` of the generator of the group G1 of BLS12-381.
pub const BLS12381_GENERATOR_X: [u8; 48] = [
    0xbb, 0xc6, 0x22, 0xdb, 0x0a, 0xf0, 0x3a, 0xfb,
    0xef, 0x1a, 0x7a, 0xf9, 0x3f, 0xe8, 0x55, 0x6c,
    0x58, 0xac, 0x1b, 0x17, 0x3f, 0x3a, 0x4e, 0xa1,
    0x05, 0xb9, 0x74, 0x97, 0x4f, 0x8c, 0x68, 0xc3,
    0x0f, 0xac, 0xa9, 0x4f, 0x8c, 0x63, 0x95, 0x26,
    0x94, 0xd7, 0x97, 0x31, 0xa7, 0xd3, 0xf1, 0x17,
];

/// The number `v` as a `BigUint`.
pub fn small_biguint(v: u8) -> (r: BigUint)
    ensures
        biguint_value(r) == v,
{
    let mut bytes: Vec<u8> = Vec::new();
    bytes.push(v);
    assert(bytes_value(bytes@) == v) by {
        reveal_with_fuel(bytes_value, 2);
    }
    from_bytes_le(bytes.as_slice())
}

/// A prime field that a precompile computes in.
#[derive(Clone, Copy, Debug, PartialEq, Eq, Structural)]
pub enum FieldType {
    /// The base field of Ed25519.
    Ed25519,
    /// The base field of secp256k1.
    Secp256k1,
    /// The base field of BLS12-381.
    Bls12381,
}

/// A curve that a precompile computes on.
#[derive(Clone, Copy, Debug, PartialEq, Eq, Structural)]
pub enum CurveType {
    Secp256k1,
    Bn254,
    Ed25519,
    Bls12381,
}

impl FieldType {
    /// The number of bytes an element of the field is written in.
    pub open spec fn spec_nb_limbs(self) -> nat {
        match self {
            FieldType::Ed25519 => 32,
            FieldType::Secp256k1 => 32,
            FieldType::Bls12381 => 48,
        }
    }

    /// The bytes of the modulus.
    pub open spec fn spec_modulus_bytes(self) -> Seq<u8> {
        match self {
            FieldType::Ed25519 => ED25519_MODULUS@,
            FieldType::Secp256k1 => SECP256K1_MODULUS@,
            FieldType::Bls12381 => BLS12381_MODULUS@,
        }
    }

    /// The modulus.
    pub open spec fn spec_modulus(self) -> nat {
        bytes_value(self.spec_modulus_bytes())
    }

    /// The number of bytes an element of the field is written in.
    pub fn nb_limbs(self) -> (r: usize)
        ensures
            r == self.spec_nb_limbs(),
            r % 4 == 0,
            0 < r <= 48,
    {
        match self {
            FieldType::Ed25519 => 32,
            FieldType::Secp256k1 => 32,
            FieldType::Bls12381 => 48,
        }
    }

    /// The number of 32-bit words an element of the field is written in.
    pub fn nb_words(self) -> (r: usize)
        ensures
            r * 4 == self.spec_nb_limbs(),
            0 < r <= 12,
    {
        self.nb_limbs() / 4
    }

    /// The modulus.
    pub fn modulus(self) -> (r: BigUint)
        ensures
            biguint_value(r) == self.spec_modulus(),
    {
        match self {
            FieldType::Ed25519 => from_bytes_le(ED25519_MODULUS.as_slice()),
            FieldType::Secp256k1 => from_bytes_le(SECP256K1_MODULUS.as_slice()),
            FieldType::Bls12381 => from_bytes_le(BLS12381_MODULUS.as_slice()),
        }
    }

    /// The bytes of the modulus.
    pub fn modulus_limbs(self) -> (r: Vec<u8>)
        ensures
            r@ == self.spec_modulus_bytes(),
            r@.len() == self.spec_nb_limbs(),
    {
        let mut out: Vec<u8> = Vec::new();
        let n = self.nb_limbs();
        let mut i: usize = 0;
        while i < n
            invariant
                0 <= i <= n,
                n == self.spec_nb_limbs(),
                n == self.spec_modulus_bytes().len(),
                out@ == self.spec_modulus_bytes().subrange(0, i as int),
            decreases n - i,
        {
            let b = match self {
                FieldType::Ed25519 => ED25519_MODULUS[i],
                FieldType::Secp256k1 => SECP256K1_MODULUS[i],
                FieldType::Bls12381 => BLS12381_MODULUS[i],
            };
            out.push(b);
            i = i + 1;
            assert(out@ =~= self.spec_modulus_bytes().subrange(0, i as int));
        }
        assert(out@ =~= self.spec_modulus_bytes());
        out
    }

    /// The modulus is odd, greater than 2, and fits the limbs of the field.
    pub proof fn lemma_modulus(self)
        ensures
            self.spec_modulus() > 2,
            self.spec_modulus() % 2 == 1,
            self.spec_modulus() < pow256(self.spec_nb_limbs()),
            self.spec_modulus_bytes().len() == self.spec_nb_limbs(),
    {
        let bytes = self.spec_modulus_bytes();
        lemma_bytes_value_parity(bytes);
        lemma_bytes_value_bound(bytes);
        assert(bytes[0] > 2);
    }
}

impl CurveType {
    /// The field over which a curve that can be decompressed is defined.
    pub open spec fn spec_base_field(self) -> FieldType {
        match self {
            CurveType::Secp256k1 => FieldType::Secp256k1,
            CurveType::Bls12381 => FieldType::Bls12381,
            _ => FieldType::Ed25519,
        }
    }

    /// Whether the curve is a short Weierstrass curve `y^2 = x^3 + b` over a
    /// field with modulus 3 modulo 4: the curves whose points the Weierstrass
    /// chip decompresses.
    pub open spec fn spec_weierstrass(self) -> bool {
        self == CurveType::Secp256k1 || self == CurveType::Bls12381
    }

    /// The constant `b` of the curve equation `y^2 = x^3 + b`.
    pub open spec fn spec_b(self) -> nat {
        match self {
            CurveType::Secp256k1 => 7,
            CurveType::Bls12381 => 4,
            _ => 0,
        }
    }

    /// The bytes of the `x` of the generator.
    pub open spec fn spec_generator_x_bytes(self) -> Seq<u8> {
        match self {
            CurveType::Secp256k1 => SECP256K1_GENERATOR_X@,
            CurveType::Bls12381 => BLS12381_GENERATOR_X@,
            _ => Seq::empty(),
        }
    }

    /// The bytes of the exponent (p + 1) / 4, by which a square root is
    /// taken.
    pub open spec fn spec_sqrt_exponent_bytes(self) -> Seq<u8> {
        match self {
            CurveType::Secp256k1 => SECP256K1_SQRT_EXPONENT@,
            CurveType::Bls12381 => BLS12381_SQRT_EXPONENT@,
            _ => Seq::empty(),
        }
    }

    /// Whether the Weierstrass chip decompresses points of this curve.
    pub fn is_weierstrass(self) -> (r: bool)
        ensures
            r == self.spec_weierstrass(),
    {
        match self {
            CurveType::Secp256k1 => true,
            CurveType::Bls12381 => true,
            _ => false,
        }
    }

    /// The field over which the curve is defined.
    pub fn base_field(self) -> (r: FieldType)
        requires
            self.spec_weierstrass(),
        ensures
            r == self.spec_base_field(),
    {
        match self {
            CurveType::Secp256k1 => FieldType::Secp256k1,
            _ => FieldType::Bls12381,
        }
    }

    /// The constant `b` of the curve equation.
    pub fn b(self) -> (r: BigUint)
        requires
            self.spec_weierstrass(),
        ensures
            biguint_value(r) == self.spec_b(),
    {
        match self {
            CurveType::Secp256k1 => small_biguint(7),
            _ => small_biguint(4),
        }
    }

    /// The `x` of the generator.
    pub fn generator_x(self) -> (r: BigUint)
        requires
            self.spec_weierstrass(),
        ensures
            biguint_value(r) == bytes_value(self.spec_generator_x_bytes()),
    {
        match self {
            CurveType::Secp256k1 => from_bytes_le(SECP256K1_GENERATOR_X.as_slice()),
            _ => from_bytes_le(BLS12381_GENERATOR_X.as_slice()),
        }
    }

    /// The bytes of the `x` of the generator.
    pub fn generator_x_limbs(self) -> (r: Vec<u8>)
        requires
            self.spec_weierstrass(),
        ensures
            r@ == self.spec_generator_x_bytes(),
            r@.len() == self.spec_base_field().spec_nb_limbs(),
    {
        let mut out: Vec<u8> = Vec::new();
        let n = self.base_field().nb_limbs();
        let mut i: usize = 0;
        while i < n
            invariant
                0 <= i <= n,
                self.spec_weierstrass(),
                n == self.spec_generator_x_bytes().len(),
                out@ == self.spec_generator_x_bytes().subrange(0, i as int),
            decreases n - i,
        {
            let b = match self {
                CurveType::Secp256k1 => SECP256K1_GENERATOR_X[i],
                _ => BLS12381_GENERATOR_X[i],
            };
            out.push(b);
            i = i + 1;
            assert(out@ =~= self.spec_generator_x_bytes().subrange(0, i as int));
        }
        assert(out@ =~= self.spec_generator_x_bytes());
        out
    }

    /// The exponent (p + 1) / 4.
    pub fn sqrt_exponent(self) -> (r: BigUint)
        requires
            self.spec_weierstrass(),
        ensures
            biguint_value(r) == bytes_value(self.spec_sqrt_exponent_bytes()),
    {
        match self {
            CurveType::Secp256k1 => from_bytes_le(SECP256K1_SQRT_EXPONENT.as_slice()),
            _ => from_bytes_le(BLS12381_SQRT_EXPONENT.as_slice()),
        }
    }
}

/// The number of the four bytes from position `4 k` on.
pub open spec fn word_value(s: Seq<u8>, k: int) -> nat {
    s[4 * k] as nat + 256 * (s[4 * k + 1] as nat) + 65536 * (s[4 * k + 2] as nat) + 16777216 * (
    s[4 * k + 3] as nat)
}

/// The number of 32 bytes, four bytes at a time.
proof fn lemma_bytes_value_32(s: Seq<u8>)
    requires
        s.len() == 32,
    ensures
        bytes_value(s) == word_value(s, 0) + 0x1_0000_0000 * (word_value(s, 1) + 0x1_0000_0000 * (word_value(s, 2) + 0x1_0000_0000 * (word_value(s, 3) + 0x1_0000_0000 * (word_value(s, 4) + 0x1_0000_0000 * (word_value(s, 5) + 0x1_0000_0000 * (word_value(s, 6) + 0x1_0000_0000 * (word_value(s, 7)))))))),
{
    lemma_bytes_value_four(s);
    lemma_bytes_value_four(s.skip(4));
    lemma_bytes_value_four(s.skip(4).skip(4));
    lemma_bytes_value_four(s.skip(4).skip(4).skip(4));
    lemma_bytes_value_four(s.skip(4).skip(4).skip(4).skip(4));
    lemma_bytes_value_four(s.skip(4).skip(4).skip(4).skip(4).skip(4));
    lemma_bytes_value_four(s.skip(4).skip(4).skip(4).skip(4).skip(4).skip(4));
    lemma_bytes_value_four(s.skip(4).skip(4).skip(4).skip(4).skip(4).skip(4).skip(4));
    let rest = s.skip(4).skip(4).skip(4).skip(4).skip(4).skip(4).skip(4).skip(4);
    assert(rest.len() == 0);
    assert(bytes_value(rest) == 0);
}

/// The number of 48 bytes, four bytes at a time.
proof fn lemma_bytes_value_48(s: Seq<u8>)
    requires
        s.len() == 48,
    ensures
        bytes_value(s) == word_value(s, 0) + 0x1_0000_0000 * (word_value(s, 1) + 0x1_0000_0000 * (word_value(s, 2) + 0x1_0000_0000 * (word_value(s, 3) + 0x1_0000_0000 * (word_value(s, 4) + 0x1_0000_0000 * (word_value(s, 5) + 0x1_0000_0000 * (word_value(s, 6) + 0x1_0000_0000 * (word_value(s, 7) + 0x1_0000_0000 * (word_value(s, 8) + 0x1_0000_0000 * (word_value(s, 9) + 0x1_0000_0000 * (word_value(s, 10) + 0x1_0000_0000 * (word_value(s, 11)))))))))))),
{
    lemma_bytes_value_four(s);
    lemma_bytes_value_four(s.skip(4));
    lemma_bytes_value_four(s.skip(4).skip(4));
    lemma_bytes_value_four(s.skip(4).skip(4).skip(4));
    lemma_bytes_value_four(s.skip(4).skip(4).skip(4).skip(4));
    lemma_bytes_value_four(s.skip(4).skip(4).skip(4).skip(4).skip(4));
    lemma_bytes_value_four(s.skip(4).skip(4).skip(4).skip(4).skip(4).skip(4));
    lemma_bytes_value_four(s.skip(4).skip(4).skip(4).skip(4).skip(4).skip(4).skip(4));
    lemma_bytes_value_four(s.skip(4).skip(4).skip(4).skip(4).skip(4).skip(4).skip(4).skip(4));
    lemma_bytes_value_four(s.skip(4).skip(4).skip(4).skip(4).skip(4).skip(4).skip(4).skip(4).skip(4));
    lemma_bytes_value_four(s.skip(4).skip(4).skip(4).skip(4).skip(4).skip(4).skip(4).skip(4).skip(4).skip(4));
    lemma_bytes_value_four(s.skip(4).skip(4).skip(4).skip(4).skip(4).skip(4).skip(4).skip(4).skip(4).skip(4).skip(4));
    let rest = s.skip(4).skip(4).skip(4).skip(4).skip(4).skip(4).skip(4).skip(4).skip(4).skip(4).skip(4).skip(4);
    assert(rest.len() == 0);
    assert(bytes_value(rest) == 0);
}

/// The modulus of the base field of Ed25519 is 2^255 - 19; the constant `d`
/// of the curve is -121665 / 121666; the square root of -1 squares to -1; and
/// eight times the exponent of the square root is the modulus plus 3.
pub proof fn lemma_ed25519_constants()
    ensures
        FieldType::Ed25519.spec_modulus()
            == 0x7fffffff_ffffffff_ffffffff_ffffffff_ffffffff_ffffffff_ffffffff_ffffffedint,
        bytes_value(ED25519_D@)
            == 0x52036cee_2b6ffe73_8cc74079_7779e898_00700a4d_4141d8ab_75eb4dca_135978a3int,
        (bytes_value(ED25519_D@) * 121666 + 121665) % FieldType::Ed25519.spec_modulus() == 0,
        bytes_value(ED25519_SQRT_M1@)
            == 0x2b832480_4fc1df0b_2b4d0099_3dfbd7a7_2f431806_ad2fe478_c4ee1b27_4a0ea0b0int,
        (bytes_value(ED25519_SQRT_M1@) * bytes_value(ED25519_SQRT_M1@) + 1)
            % FieldType::Ed25519.spec_modulus() == 0,
        8 * bytes_value(ED25519_SQRT_EXPONENT@) == FieldType::Ed25519.spec_modulus() + 3,
{
    lemma_bytes_value_32(ED25519_MODULUS@);
    lemma_bytes_value_32(ED25519_D@);
    lemma_bytes_value_32(ED25519_SQRT_M1@);
    lemma_bytes_value_32(ED25519_SQRT_EXPONENT@);
    let p: int = 0x7fffffff_ffffffff_ffffffff_ffffffff_ffffffff_ffffffff_ffffffff_ffffffedint;
    let d: int = 0x52036cee_2b6ffe73_8cc74079_7779e898_00700a4d_4141d8ab_75eb4dca_135978a3int;
    let i: int = 0x2b832480_4fc1df0b_2b4d0099_3dfbd7a7_2f431806_ad2fe478_c4ee1b27_4a0ea0b0int;
    assert((d * 121666 + 121665) % p == 0);
    assert((i * i + 1) % p == 0);
}

/// The modulus of the base field of secp256k1 is 2^256 - 2^32 - 977; four
/// times the exponent of the square root is the modulus plus 1; and the `x`
/// of the generator is the one of the standard.
pub proof fn lemma_secp256k1_constants()
    ensures
        FieldType::Secp256k1.spec_modulus()
            == 0xffffffff_ffffffff_ffffffff_ffffffff_ffffffff_ffffffff_fffffffe_fffffc2fint,
        FieldType::Secp256k1.spec_modulus() % 4 == 3,
        4 * bytes_value(SECP256K1_SQRT_EXPONENT@) == FieldType::Secp256k1.spec_modulus() + 1,
        bytes_value(SECP256K1_GENERATOR_X@)
            == 0x79be667e_f9dcbbac_55a06295_ce870b07_029bfcdb_2dce28d9_59f2815b_16f81798int,
{
    lemma_bytes_value_32(SECP256K1_MODULUS@);
    lemma_bytes_value_32(SECP256K1_SQRT_EXPONENT@);
    lemma_bytes_value_32(SECP256K1_GENERATOR_X@);
}

/// The modulus of the base field of BLS12-381 is the prime of the standard,
/// which is 3 modulo 4.
pub proof fn lemma_bls12381_modulus()
    ensures
        FieldType::Bls12381.spec_modulus()
            == 0x1a0111ea_397fe69a_4b1ba7b6_434bacd7_64774b84_f38512bf_6730d2a0_f6b0f624_1eabfffe_b153ffff_b9feffff_ffffaaabint,
        FieldType::Bls12381.spec_modulus() % 4 == 3,
{
    lemma_bytes_value_48(BLS12381_MODULUS@);
}

/// Four times the exponent of the square root in the base field of
/// BLS12-381 is the modulus plus 1.
pub proof fn lemma_bls12381_sqrt_exponent()
    ensures
        4 * bytes_value(BLS12381_SQRT_EXPONENT@) == FieldType::Bls12381.spec_modulus() + 1,
{
    lemma_bls12381_modulus();
    lemma_bytes_value_48(BLS12381_SQRT_EXPONENT@);
}

/// The `x` of the generator of the group G1 of BLS12-381 is the one of the
/// standard.
pub proof fn lemma_bls12381_generator_x()
    ensures
        bytes_value(BLS12381_GENERATOR_X@)
            == 0x17f1d3a7_3197d794_2695638c_4fa9ac0f_c3688c4f_9774b905_a14e3a3f_171bac58_6c55e83f_f97a1aef_fb3af00a_db22c6bbint,
{
    lemma_bytes_value_48(BLS12381_GENERATOR_X@);
}

} // verus!
