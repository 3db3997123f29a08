//! Square roots in the base fields of the curves, and the coordinate that
//! decompression recovers.

use num::BigUint;
use vstd::arithmetic::power::pow;
use vstd::prelude::*;

use crate::operations::field::field_op::{field_inverse, field_op, field_op_value, FieldOperation};
use crate::operations::field::params::{
    small_biguint, CurveType, FieldType, ED25519_D, ED25519_SQRT_EXPONENT, ED25519_SQRT_M1,
};
use crate::utils::bigint::{
    big_eq, big_modpow, big_mul, big_rem, big_sub, biguint_value, bytes_value, from_bytes_le,
    to_bytes_le,
};
use crate::utils::limbs::lemma_bytes_value_parity;

verus! {

/// `b` to the power `e`, modulo `m`.
pub open spec fn mod_pow(b: nat, e: nat, m: nat) -> nat {
    (pow(b as int, e) % (m as int)) as nat
}

/// Of the two roots `r` and `m - r`, the even one. `m` is odd and `r < m`.
pub open spec fn even_root(r: nat, m: nat) -> nat {
    if r % 2 == 1 {
        (m - r) as nat
    } else {
        r
    }
}

/// The modulus of the base field of Ed25519.
pub open spec fn ed25519_modulus() -> nat {
    FieldType::Ed25519.spec_modulus()
}

/// The number that is tried as a square root of `a` in the base field of
/// Ed25519: the power `a^((p + 3) / 8)`, times a square root of -1 where the
/// power squares to `-a`.
pub open spec fn ed25519_sqrt_candidate(a: nat) -> nat {
    let m = ed25519_modulus();
    let beta = mod_pow(a, bytes_value(ED25519_SQRT_EXPONENT@), m);
    if (beta * beta) % m == ((m - a % m) % (m as int)) as nat {
        (beta * bytes_value(ED25519_SQRT_M1@)) % m
    } else {
        beta
    }
}

/// The even square root of `a` in the base field of Ed25519, where the
/// candidate is a root.
pub open spec fn ed25519_sqrt_spec(a: nat) -> Option<nat> {
    let m = ed25519_modulus();
    let r = even_root(ed25519_sqrt_candidate(a), m);
    if (r * r) % m == a % m {
        Some(r)
    } else {
        None
    }
}

/// The square root of `a` that is tried in the base field of a Weierstrass
/// curve: the power `a^((p + 1) / 4)`, where it is a root.
pub open spec fn weierstrass_sqrt_spec(curve: CurveType, a: nat) -> Option<nat> {
    let m = curve.spec_base_field().spec_modulus();
    let y = mod_pow(a, bytes_value(curve.spec_sqrt_exponent_bytes()), m);
    if (y * y) % m == a % m {
        Some(y)
    } else {
        None
    }
}

/// `y^2`, reduced.
pub open spec fn ed_yy(y: nat) -> nat {
    field_op_value(FieldOperation::Mul, y, y, ed25519_modulus())
}

/// `u = y^2 - 1`.
pub open spec fn ed_u(y: nat) -> nat {
    field_op_value(FieldOperation::Sub, ed_yy(y), 1, ed25519_modulus())
}

/// `d * y^2`.
pub open spec fn ed_dyy(y: nat) -> nat {
    field_op_value(FieldOperation::Mul, bytes_value(ED25519_D@), ed_yy(y), ed25519_modulus())
}

/// `v = 1 + d * y^2`.
pub open spec fn ed_v(y: nat) -> nat {
    field_op_value(FieldOperation::Add, 1, ed_dyy(y), ed25519_modulus())
}

/// `u / v`: the square of the `x` of a point with the given `y`.
pub open spec fn ed_u_div_v(y: nat) -> nat {
    field_op_value(FieldOperation::Div, ed_u(y), ed_v(y), ed25519_modulus())
}

/// The `x` of the point of Ed25519 with the given `y`: of the two roots of
/// `(y^2 - 1) / (d * y^2 + 1)` the even one, negated where `sign` is set.
pub open spec fn ed_decompress_x(y: nat, sign: bool) -> Option<nat> {
    match ed25519_sqrt_spec(ed_u_div_v(y)) {
        Some(x) => Some(
            if sign {
                field_op_value(FieldOperation::Sub, 0, x, ed25519_modulus())
            } else {
                x
            },
        ),
        None => None,
    }
}

/// `x^3 + b`, reduced: the square of the `y` of a point with the given `x`.
pub open spec fn weierstrass_rhs(curve: CurveType, x: nat) -> nat {
    let m = curve.spec_base_field().spec_modulus();
    let x_2 = field_op_value(FieldOperation::Mul, x, x, m);
    let x_3 = field_op_value(FieldOperation::Mul, x_2, x, m);
    field_op_value(FieldOperation::Add, x_3, curve.spec_b(), m)
}

/// The `y` of the point of the curve with the given `x`: the root of
/// `x^3 + b` that is odd exactly if `is_odd` is set.
pub open spec fn weierstrass_decompress_y(curve: CurveType, x: nat, is_odd: bool) -> Option<nat> {
    let m = curve.spec_base_field().spec_modulus();
    match weierstrass_sqrt_spec(curve, weierstrass_rhs(curve, x)) {
        Some(y) => Some(
            if (y % 2 == 1) == is_odd {
                y
            } else {
                field_op_value(FieldOperation::Sub, 0, y, m)
            },
        ),
        None => None,
    }
}

/// Whether the number is odd.
pub fn is_odd(n: &BigUint) -> (r: bool)
    ensures
        r == (biguint_value(*n) % 2 == 1),
{
    let bytes = to_bytes_le(n);
    proof {
        lemma_bytes_value_parity(bytes@);
    }
    bytes[0] % 2 == 1
}

/// The square of `r` in the field.
fn field_square(field: FieldType, r: &BigUint) -> (s: BigUint)
    ensures
        biguint_value(s) == (biguint_value(*r) * biguint_value(*r)) % field.spec_modulus(),
{
    field_op(field, r, r, FieldOperation::Mul)
}

/// The even square root of `a` in the base field of Ed25519; `None` where
/// `a` has no square root.
pub fn ed25519_sqrt(a: &BigUint) -> (r: Option<BigUint>)
    ensures
        match r {
            Some(x) => ed25519_sqrt_spec(biguint_value(*a)) == Some(biguint_value(x)),
            None => ed25519_sqrt_spec(biguint_value(*a)) is None,
        },
{
    let field = FieldType::Ed25519;
    let modulus = field.modulus();
    proof {
        field.lemma_modulus();
    }
    let exponent = from_bytes_le(ED25519_SQRT_EXPONENT.as_slice());
    let beta = big_modpow(a, &exponent, &modulus);
    let beta_squared = field_square(field, &beta);
    let reduced = big_rem(a, &modulus);
    let neg_a = big_rem(&big_sub(&modulus, &reduced), &modulus);
    let candidate = if big_eq(&beta_squared, &neg_a) {
        let sqrt_m1 = from_bytes_le(ED25519_SQRT_M1.as_slice());
        big_rem(&big_mul(&beta, &sqrt_m1), &modulus)
    } else {
        beta
    };
    assert(biguint_value(candidate) == ed25519_sqrt_candidate(biguint_value(*a)));
    assert(biguint_value(candidate) < biguint_value(modulus));
    let root = if is_odd(&candidate) {
        big_sub(&modulus, &candidate)
    } else {
        candidate
    };
    let square = field_square(field, &root);
    if big_eq(&square, &reduced) {
        Some(root)
    } else {
        None
    }
}

/// The square root of `a` in the base field of `curve` that the power
/// `a^((p + 1) / 4)` gives; `None` where `a` has no square root.
pub fn weierstrass_sqrt(curve: CurveType, a: &BigUint) -> (r: Option<BigUint>)
    requires
        curve.spec_weierstrass(),
    ensures
        match r {
            Some(y) => weierstrass_sqrt_spec(curve, biguint_value(*a)) == Some(biguint_value(y)),
            None => weierstrass_sqrt_spec(curve, biguint_value(*a)) is None,
        },
{
    let field = curve.base_field();
    let modulus = field.modulus();
    proof {
        field.lemma_modulus();
    }
    let exponent = curve.sqrt_exponent();
    let y = big_modpow(a, &exponent, &modulus);
    let square = field_square(field, &y);
    let reduced = big_rem(a, &modulus);
    if big_eq(&square, &reduced) {
        Some(y)
    } else {
        None
    }
}

/// A square root that exists is below the modulus, even, and squares to the
/// number it is the root of.
pub proof fn lemma_ed25519_sqrt_is_root(a: nat)
    requires
        ed25519_sqrt_spec(a) is Some,
    ensures
        ed25519_sqrt_spec(a)->0 < ed25519_modulus(),
        ed25519_sqrt_spec(a)->0 % 2 == 0,
        (ed25519_sqrt_spec(a)->0 * ed25519_sqrt_spec(a)->0) % ed25519_modulus() == a
            % ed25519_modulus(),
{
    FieldType::Ed25519.lemma_modulus();
    let m = ed25519_modulus();
    let c = ed25519_sqrt_candidate(a);
    assert(c < m) by {
        let beta = mod_pow(a, bytes_value(ED25519_SQRT_EXPONENT@), m);
        assert(beta < m);
    }
}


/// The negative of a reduced number is reduced, squares to what the number
/// squares to, and is the number's distance to the modulus unless the number
/// is zero.
pub proof fn lemma_negated_root(r: nat, m: nat)
    requires
        r < m,
    ensures
        field_op_value(FieldOperation::Sub, 0, r, m) < m,
        r == 0 ==> field_op_value(FieldOperation::Sub, 0, r, m) == 0,
        r != 0 ==> field_op_value(FieldOperation::Sub, 0, r, m) == m - r,
        (field_op_value(FieldOperation::Sub, 0, r, m) * field_op_value(
            FieldOperation::Sub,
            0,
            r,
            m,
        )) % m == (r * r) % m,
{
    let mi = m as int;
    let n = field_op_value(FieldOperation::Sub, 0, r, m);
    if r == 0 {
        vstd::arithmetic::div_mod::lemma_mod_self_0(mi);
    } else {
        vstd::arithmetic::div_mod::lemma_small_mod((m - r) as nat, m);
        assert((m - r) * (m - r) == m * (m - 2 * r) + r * r) by (nonlinear_arith);
        vstd::arithmetic::div_mod::lemma_mod_multiples_vanish(m - 2 * r, (r * r) as int, mi);
    }
}

/// The `x` that decompression recovers is a reduced root of `u / v`, and its
/// parity is the sign that was asked for, unless the only root is zero.
pub proof fn lemma_ed_decompress_x(y: nat, sign: bool)
    requires
        ed_decompress_x(y, sign) is Some,
    ensures
        ed_decompress_x(y, sign)->0 < ed25519_modulus(),
        (ed_decompress_x(y, sign)->0 * ed_decompress_x(y, sign)->0) % ed25519_modulus()
            == ed_u_div_v(y),
        ed25519_sqrt_spec(ed_u_div_v(y))->0 != 0 || !sign ==> (ed_decompress_x(y, sign)->0 % 2
            == 1) == sign,
{
    let m = ed25519_modulus();
    FieldType::Ed25519.lemma_modulus();
    let a = ed_u_div_v(y);
    assert(a < m) by {
        vstd::arithmetic::div_mod::lemma_mod_bound(
            (ed_u(y) * field_inverse(ed_v(y), m)) as int,
            m as int,
        );
    }
    lemma_ed25519_sqrt_is_root(a);
    let r = ed25519_sqrt_spec(a)->0;
    vstd::arithmetic::div_mod::lemma_small_mod(a, m);
    assert((r * r) % m == a);
    lemma_negated_root(r, m);
    let x = ed_decompress_x(y, sign)->0;
    if sign {
        assert(x == field_op_value(FieldOperation::Sub, 0, r, m));
        if r != 0 {
            assert(x == m - r);
        }
    } else {
        assert(x == r);
    }
}

/// `x^3 + b` computed step by step in the field is `x^3 + b` reduced.
pub proof fn lemma_weierstrass_rhs(curve: CurveType, x: nat)
    requires
        curve.spec_weierstrass(),
    ensures
        weierstrass_rhs(curve, x) == (x * x * x + curve.spec_b())
            % curve.spec_base_field().spec_modulus(),
        weierstrass_rhs(curve, x) < curve.spec_base_field().spec_modulus(),
{
    let m = curve.spec_base_field().spec_modulus();
    curve.spec_base_field().lemma_modulus();
    let mi = m as int;
    let x_2 = (x * x) % m;
    let x_3 = (x_2 * x) % m;
    vstd::arithmetic::div_mod::lemma_mul_mod_noop_left((x * x) as int, x as int, mi);
    vstd::arithmetic::div_mod::lemma_add_mod_noop_right(
        curve.spec_b() as int,
        (x * x * x) as int,
        mi,
    );
}

/// Of a reduced root and its negative, the one with the parity asked for is
/// a reduced root too, and has that parity unless the root is zero.
pub proof fn lemma_root_of_parity(r: nat, a: nat, m: nat, odd: bool)
    requires
        m % 2 == 1,
        r < m,
        (r * r) % m == a,
    ensures
        ({
            let y = if (r % 2 == 1) == odd {
                r
            } else {
                field_op_value(FieldOperation::Sub, 0, r, m)
            };
            &&& y < m
            &&& (y * y) % m == a
            &&& r != 0 ==> (y % 2 == 1) == odd
        }),
{
    lemma_negated_root(r, m);
}

/// The `y` that decompression recovers is reduced and lies with `x` on the
/// curve, and its parity is the one that was asked for, unless the only root
/// is zero.
pub proof fn lemma_weierstrass_decompress_y(curve: CurveType, x: nat, is_odd: bool)
    requires
        curve.spec_weierstrass(),
        weierstrass_decompress_y(curve, x, is_odd) is Some,
    ensures
        weierstrass_decompress_y(curve, x, is_odd)->0 < curve.spec_base_field().spec_modulus(),
        (weierstrass_decompress_y(curve, x, is_odd)->0 * weierstrass_decompress_y(
            curve,
            x,
            is_odd,
        )->0) % curve.spec_base_field().spec_modulus() == (x * x * x + curve.spec_b())
            % curve.spec_base_field().spec_modulus(),
        weierstrass_sqrt_spec(curve, weierstrass_rhs(curve, x))->0 != 0 ==> (
        weierstrass_decompress_y(curve, x, is_odd)->0 % 2 == 1) == is_odd,
{
    let m = curve.spec_base_field().spec_modulus();
    curve.spec_base_field().lemma_modulus();
    lemma_weierstrass_rhs(curve, x);
    let a = weierstrass_rhs(curve, x);
    let r = weierstrass_sqrt_spec(curve, a)->0;
    vstd::arithmetic::div_mod::lemma_small_mod(a, m);
    assert(r < m) by {
        vstd::arithmetic::div_mod::lemma_mod_bound(
            vstd::arithmetic::power::pow(a as int, bytes_value(curve.spec_sqrt_exponent_bytes())),
            m as int,
        );
    }
    assert((r * r) % m == a);
    lemma_root_of_parity(r, a, m, is_odd);
}

/// The `x` of the point of Ed25519 with the given `y` and sign; `None` where
/// no point has that `y`.
pub fn ed_decompress(y: &BigUint, sign: bool) -> (r: Option<BigUint>)
    ensures
        match r {
            Some(x) => ed_decompress_x(biguint_value(*y), sign) == Some(biguint_value(x)),
            None => ed_decompress_x(biguint_value(*y), sign) is None,
        },
{
    let field = FieldType::Ed25519;
    let one = small_biguint(1);
    let d = from_bytes_le(ED25519_D.as_slice());
    let yy = field_op(field, y, y, FieldOperation::Mul);
    let u = field_op(field, &yy, &one, FieldOperation::Sub);
    let dyy = field_op(field, &d, &yy, FieldOperation::Mul);
    let v = field_op(field, &one, &dyy, FieldOperation::Add);
    let u_div_v = field_op(field, &u, &v, FieldOperation::Div);
    match ed25519_sqrt(&u_div_v) {
        Some(x) => {
            if sign {
                let zero = small_biguint(0);
                Some(field_op(field, &zero, &x, FieldOperation::Sub))
            } else {
                Some(x)
            }
        },
        None => None,
    }
}

/// The `y` of the point of `curve` with the given `x` and parity; `None`
/// where no point has that `x`.
pub fn weierstrass_decompress(curve: CurveType, x: &BigUint, odd: bool) -> (r: Option<BigUint>)
    requires
        curve.spec_weierstrass(),
    ensures
        match r {
            Some(y) => weierstrass_decompress_y(curve, biguint_value(*x), odd) == Some(
                biguint_value(y),
            ),
            None => weierstrass_decompress_y(curve, biguint_value(*x), odd) is None,
        },
{
    let field = curve.base_field();
    let b = curve.b();
    let x_2 = field_op(field, x, x, FieldOperation::Mul);
    let x_3 = field_op(field, &x_2, x, FieldOperation::Mul);
    let rhs = field_op(field, &x_3, &b, FieldOperation::Add);
    match weierstrass_sqrt(curve, &rhs) {
        Some(y) => {
            if is_odd(&y) == odd {
                Some(y)
            } else {
                let zero = small_biguint(0);
                Some(field_op(field, &zero, &y, FieldOperation::Sub))
            }
        },
        None => None,
    }
}

} // verus!
