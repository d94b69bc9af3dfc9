//! Saturating fixed-point scalars: an `i64` holds `value * ONE`.
//!
//! All operations are total. Results that would leave the `i64` range
//! saturate to `FX_MAX` / `FX_MIN`, which also stand in for the two
//! infinities of the interval type. Division by zero saturates by the
//! sign of the numerator instead of panicking.

use vstd::prelude::*;

verus! {

/// The fixed-point scale: the representation of the real number one.
pub const ONE: i64 = 65536;

/// Largest representable scalar; also serves as positive infinity.
pub const FX_MAX: i64 = i64::MAX;

/// Smallest representable scalar; also serves as negative infinity.
pub const FX_MIN: i64 = i64::MIN;

/// Clamp a mathematical integer into the `i64` range.
pub open spec fn sat64(x: int) -> int {
    if x > i64::MAX as int {
        i64::MAX as int
    } else if x < i64::MIN as int {
        i64::MIN as int
    } else {
        x
    }
}

/// Division truncated toward zero, for a positive divisor.
pub open spec fn tdiv(a: int, b: int) -> int
    recommends
        b > 0,
{
    if a >= 0 {
        a / b
    } else {
        -((-a) / b)
    }
}

/// The fixed-point product of two scalars: `a * b / ONE`, truncated
/// toward zero and saturated into range.
pub open spec fn fx_mul_s(a: int, b: int) -> int {
    sat64(tdiv(a * b, ONE as int))
}

/// The fixed-point quotient `a / b` (`a * ONE / b`, truncated toward
/// zero, saturated). A zero divisor saturates by the sign of `a`,
/// mirroring the infinities a real-number division would produce.
pub open spec fn fx_div_s(a: int, b: int) -> int {
    if b == 0 {
        if a > 0 {
            i64::MAX as int
        } else if a < 0 {
            i64::MIN as int
        } else {
            0
        }
    } else if b > 0 {
        sat64(tdiv(a * ONE, b))
    } else {
        sat64(tdiv(-(a * ONE), -b))
    }
}

/// `fx_add` at the specification level.
pub open spec fn fx_add_i(a: i64, b: i64) -> i64 {
    sat64(a + b) as i64
}

/// `fx_sub` at the specification level.
pub open spec fn fx_sub_i(a: i64, b: i64) -> i64 {
    sat64(a - b) as i64
}

/// `fx_neg` at the specification level.
pub open spec fn fx_neg_i(a: i64) -> i64 {
    sat64(-(a as int)) as i64
}

/// `fx_abs` at the specification level.
pub open spec fn fx_abs_i(a: i64) -> i64 {
    if a >= 0 {
        a
    } else {
        sat64(-(a as int)) as i64
    }
}

/// `fx_mul` at the specification level.
pub open spec fn fx_mul_i(a: i64, b: i64) -> i64 {
    fx_mul_s(a as int, b as int) as i64
}

/// `fx_div` at the specification level.
pub open spec fn fx_div_i(a: i64, b: i64) -> i64 {
    fx_div_s(a as int, b as int) as i64
}

/// `fx_sqrt` at the specification level.
pub open spec fn fx_sqrt_i(a: i64) -> i64 {
    sqrt_floor(a * ONE) as i64
}

/// `fx_min` at the specification level.
pub open spec fn fx_min_i(a: i64, b: i64) -> i64 {
    if a <= b {
        a
    } else {
        b
    }
}

/// `fx_max` at the specification level.
pub open spec fn fx_max_i(a: i64, b: i64) -> i64 {
    if a >= b {
        a
    } else {
        b
    }
}

/// Saturating addition.
pub fn fx_add(a: i64, b: i64) -> (r: i64)
    ensures
        r as int == sat64(a + b),
        r == fx_add_i(a, b),
{
    let s: i128 = a as i128 + b as i128;
    if s > i64::MAX as i128 {
        i64::MAX
    } else if s < i64::MIN as i128 {
        i64::MIN
    } else {
        s as i64
    }
}

/// Saturating subtraction.
pub fn fx_sub(a: i64, b: i64) -> (r: i64)
    ensures
        r as int == sat64(a - b),
        r == fx_sub_i(a, b),
{
    let s: i128 = a as i128 - b as i128;
    if s > i64::MAX as i128 {
        i64::MAX
    } else if s < i64::MIN as i128 {
        i64::MIN
    } else {
        s as i64
    }
}

/// Saturating negation.
pub fn fx_neg(a: i64) -> (r: i64)
    ensures
        r as int == sat64(-(a as int)),
        r == fx_neg_i(a),
{
    if a == i64::MIN {
        i64::MAX
    } else {
        -a
    }
}

/// The magnitude of a scalar, as an unsigned value.
pub fn fx_abs_u(a: i64) -> (r: u64)
    ensures
        r as int == if a >= 0 { a as int } else { -(a as int) },
{
    if a >= 0 {
        a as u64
    } else if a == i64::MIN {
        9223372036854775808u64
    } else {
        (-a) as u64
    }
}

/// Saturating absolute value.
pub fn fx_abs(a: i64) -> (r: i64)
    ensures
        r == fx_abs_i(a),
        r >= 0,
{
    if a >= 0 {
        a
    } else if a == i64::MIN {
        i64::MAX
    } else {
        -a
    }
}

/// Truncating division toward zero is the quotient of the magnitudes,
/// re-signed.
proof fn lemma_tdiv_by_magnitudes(x: int, b: int)
    requires
        b > 0,
    ensures
        x >= 0 ==> tdiv(x, b) == x / b,
        x < 0 ==> tdiv(x, b) == -((-x) / b),
{
}

/// Saturate-and-sign: turn the magnitude `q` of a truncated quotient
/// into the final signed, saturated scalar.
fn sign_saturate(neg: bool, q: u128) -> (r: i64)
    ensures
        r as int == sat64(if neg { -(q as int) } else { q as int }),
{
    if neg {
        if q >= 9223372036854775808u128 {
            i64::MIN
        } else {
            let v: i128 = -(q as i128);
            v as i64
        }
    } else {
        if q > i64::MAX as u128 {
            i64::MAX
        } else {
            q as i64
        }
    }
}

/// Saturating fixed-point multiplication: `a * b / ONE`, truncated
/// toward zero.
pub fn fx_mul(a: i64, b: i64) -> (r: i64)
    ensures
        r as int == fx_mul_s(a as int, b as int),
        r == fx_mul_i(a, b),
{
    let neg: bool = (a < 0) != (b < 0);
    let ma: u128 = fx_abs_u(a) as u128;
    let mb: u128 = fx_abs_u(b) as u128;
    proof {
        assert(ma * mb <= 0x8000000000000000u128 * 0x8000000000000000u128) by (nonlinear_arith)
            requires
                ma <= 0x8000000000000000u128,
                mb <= 0x8000000000000000u128,
        ;
    }
    let m: u128 = ma * mb;
    let q: u128 = m / 65536u128;
    proof {
        let ai = a as int;
        let bi = b as int;
        assert(ai * bi == if neg {
            -((ma as int) * (mb as int))
        } else {
            (ma as int) * (mb as int)
        }) by (nonlinear_arith)
            requires
                ma as int == if ai >= 0 { ai } else { -ai },
                mb as int == if bi >= 0 { bi } else { -bi },
                neg == ((ai < 0) != (bi < 0)),
        ;
        lemma_tdiv_by_magnitudes(ai * bi, ONE as int);
        assert(m as int == (ma as int) * (mb as int));
        assert(q as int == (m as int) / (ONE as int));
    }
    sign_saturate(neg, q)
}

/// Saturating fixed-point division: `a * ONE / b`, truncated toward
/// zero. A zero divisor yields the saturated value of the numerator's
/// sign, never a panic.
pub fn fx_div(a: i64, b: i64) -> (r: i64)
    ensures
        r as int == fx_div_s(a as int, b as int),
        r == fx_div_i(a, b),
{
    if b == 0 {
        if a > 0 {
            i64::MAX
        } else if a < 0 {
            i64::MIN
        } else {
            0
        }
    } else {
        let neg: bool = (a < 0) != (b < 0);
        let ma: u128 = fx_abs_u(a) as u128;
        let mb: u128 = fx_abs_u(b) as u128;
        proof {
            assert(ma * 65536 <= 0x8000000000000000u128 * 65536) by (nonlinear_arith)
                requires
                    ma <= 0x8000000000000000u128,
            ;
        }
        let m: u128 = ma * 65536u128;
        let q: u128 = m / mb;
        proof {
            let ai = a as int;
            let bi = b as int;
            let num = ai * (ONE as int);
            assert(ai * 65536 == if ai >= 0 {
                (ma as int) * 65536
            } else {
                -((ma as int) * 65536)
            }) by (nonlinear_arith)
                requires
                    ma as int == if ai >= 0 { ai } else { -ai },
            ;
            assert(num == ai * 65536);
            if bi > 0 {
                lemma_tdiv_by_magnitudes(num, bi);
            } else {
                lemma_tdiv_by_magnitudes(-num, -bi);
            }
            assert(q as int == (m as int) / (mb as int));
        }
        sign_saturate(neg, q)
    }
}

/// The floor of the square root of a nonnegative integer.
pub open spec fn sqrt_floor(n: int) -> int
    recommends
        n >= 0,
{
    choose|r: int| r >= 0 && #[trigger] (r * r) <= n && n < (r + 1) * (r + 1)
}

/// The defining property of `sqrt_floor` has a witness for every
/// nonnegative argument.
pub proof fn lemma_sqrt_floor_exists(n: int)
    requires
        n >= 0,
    ensures
        exists|r: int| r >= 0 && #[trigger] (r * r) <= n && n < (r + 1) * (r + 1),
    decreases n,
{
    if n == 0 {
        assert(0 * 0 <= n) by (nonlinear_arith)
            requires
                n == 0,
        ;
        assert(n < (0 + 1) * (0 + 1)) by (nonlinear_arith)
            requires
                n == 0,
        ;
    } else {
        lemma_sqrt_floor_exists(n - 1);
        let r0 = choose|r: int|
            r >= 0 && #[trigger] (r * r) <= n - 1 && n - 1 < (r + 1) * (r + 1);
        if n < (r0 + 1) * (r0 + 1) {
            assert(r0 >= 0 && r0 * r0 <= n && n < (r0 + 1) * (r0 + 1));
        } else {
            let r1 = r0 + 1;
            assert(n < (r1 + 1) * (r1 + 1)) by (nonlinear_arith)
                requires
                    r1 >= 1,
                    n == r1 * r1,
            ;
            assert(r1 >= 0 && r1 * r1 <= n && n < (r1 + 1) * (r1 + 1));
        }
    }
}

/// Any value with the square-root property is `sqrt_floor`.
pub proof fn lemma_sqrt_floor_is(n: int, r: int)
    requires
        n >= 0,
        r >= 0,
        r * r <= n,
        n < (r + 1) * (r + 1),
    ensures
        sqrt_floor(n) == r,
{
    let s = sqrt_floor(n);
    assert(s >= 0 && s * s <= n && n < (s + 1) * (s + 1));
    assert(s == r) by (nonlinear_arith)
        requires
            r >= 0,
            s >= 0,
            r * r <= n,
            n < (r + 1) * (r + 1),
            s * s <= n,
            n < (s + 1) * (s + 1),
    ;
}

/// The fixed-point square root: `sqrt(a / ONE) * ONE`, rounded down,
/// computed exactly as the integer square root of `a * ONE`.
pub fn fx_sqrt(a: i64) -> (r: i64)
    requires
        a >= 0,
    ensures
        r >= 0,
        r as int == sqrt_floor(a * ONE),
        r == fx_sqrt_i(a),
{
    let n: u128 = (a as u128) * 65536u128;
    let mut lo: u128 = 0;
    let mut hi: u128 = 1099511627776u128;
    proof {
        assert(n < 1099511627776u128 * 1099511627776u128) by (nonlinear_arith)
            requires
                n == (a as u128) * 65536u128,
                a as u128 <= 0x7fffffffffffffffu128,
        ;
    }
    while hi - lo > 1
        invariant
            lo < hi,
            hi <= 1099511627776u128,
            (lo as int) * (lo as int) <= n as int,
            (n as int) < (hi as int) * (hi as int),
            n as int == a * ONE,
        decreases hi - lo,
    {
        let mid: u128 = lo + (hi - lo) / 2;
        proof {
            assert(mid * mid <= 1099511627776u128 * 1099511627776u128) by (nonlinear_arith)
                requires
                    mid <= 1099511627776u128,
            ;
        }
        if mid * mid <= n {
            lo = mid;
        } else {
            hi = mid;
        }
    }
    proof {
        assert((n as int) < ((lo as int) + 1) * ((lo as int) + 1));
        lemma_sqrt_floor_is(n as int, lo as int);
        assert(lo * lo <= n);
        assert(lo <= i64::MAX as u128) by (nonlinear_arith)
            requires
                (lo as int) * (lo as int) <= n as int,
                n <= 0xffffffffffffffffffffu128,
        ;
    }
    lo as i64
}

/// The square root of a scalar is a nonnegative scalar, and the
/// specification-level value reads back exactly.
pub proof fn lemma_fx_sqrt_i_bounds(a: i64)
    requires
        a >= 0,
    ensures
        0 <= fx_sqrt_i(a),
        fx_sqrt_i(a) as int == sqrt_floor(a * ONE),
{
    lemma_sqrt_floor_exists(a * ONE);
    let r = sqrt_floor(a * ONE);
    assert(r >= 0 && r * r <= a * ONE && a * ONE < (r + 1) * (r + 1));
    assert(r <= 0x10000000000) by (nonlinear_arith)
        requires
            r >= 0,
            r * r <= a * ONE,
            a * ONE <= 0x7fffffffffffffffi64 * 65536,
    ;
}

/// Truncating division is monotone in the numerator.
pub proof fn lemma_tdiv_monotone(a1: int, a2: int, b: int)
    requires
        b > 0,
        a1 <= a2,
    ensures
        tdiv(a1, b) <= tdiv(a2, b),
{
    if a1 >= 0 {
        vstd::arithmetic::div_mod::lemma_div_is_ordered(a1, a2, b);
    } else if a2 < 0 {
        vstd::arithmetic::div_mod::lemma_div_is_ordered(-a2, -a1, b);
    } else {
        vstd::arithmetic::div_mod::lemma_div_pos_is_pos(a2, b);
        vstd::arithmetic::div_mod::lemma_div_pos_is_pos(-a1, b);
    }
}

/// Fixed-point division by a nonnegative divisor is monotone in the
/// numerator.
pub proof fn lemma_fx_div_monotone_num(n1: i64, n2: i64, b: i64)
    requires
        n1 <= n2,
        b >= 0,
    ensures
        fx_div_s(n1 as int, b as int) <= fx_div_s(n2 as int, b as int),
        fx_div_i(n1, b) <= fx_div_i(n2, b),
{
    if b != 0 {
        lemma_tdiv_monotone(n1 * ONE, n2 * ONE, b as int);
    }
}

/// Saturated negation never exceeds the negated saturation.
pub proof fn lemma_sat64_neg(v: int)
    ensures
        sat64(-v) <= -sat64(v),
{
}

/// Multiplying by an exactly negated scalar flips the product's sign,
/// up to the saturation bound.
pub proof fn lemma_fx_mul_neg_le(a: i64, b: i64)
    requires
        b > i64::MIN,
    ensures
        fx_mul_i(a, fx_neg_i(b)) as int <= -(fx_mul_i(a, b) as int),
{
    assert(fx_neg_i(b) as int == -(b as int));
    assert((a as int) * (-(b as int)) == -((a as int) * (b as int))) by (nonlinear_arith);
    assert(tdiv(-((a as int) * (b as int)), ONE as int) == -tdiv(
        (a as int) * (b as int),
        ONE as int,
    ));
    lemma_sat64_neg(tdiv((a as int) * (b as int), ONE as int));
}

/// Multiplying by one is the identity.
pub proof fn lemma_fx_mul_one(a: i64)
    ensures
        fx_mul_i(a, ONE) == a,
{
    if a >= 0 {
        vstd::arithmetic::div_mod::lemma_div_multiples_vanish(a as int, 65536);
        assert(65536 * (a as int) == (a as int) * 65536) by (nonlinear_arith);
    } else {
        vstd::arithmetic::div_mod::lemma_div_multiples_vanish(-(a as int), 65536);
        assert((a as int) * 65536 == -(65536 * (-(a as int)))) by (nonlinear_arith);
    }
}

/// Multiplying by minus one negates exactly, away from the one scalar
/// whose negation saturates.
pub proof fn lemma_fx_mul_neg_one(a: i64)
    requires
        a > i64::MIN,
    ensures
        fx_mul_i(a, (-ONE) as i64) == -a,
{
    lemma_fx_mul_one(a);
    lemma_fx_mul_neg_le(a, ONE);
    assert((a as int) * (-65536) == -((a as int) * 65536)) by (nonlinear_arith);
    if a >= 0 {
        vstd::arithmetic::div_mod::lemma_div_multiples_vanish(a as int, 65536);
        assert(65536 * (a as int) == (a as int) * 65536) by (nonlinear_arith);
    } else {
        vstd::arithmetic::div_mod::lemma_div_multiples_vanish(-(a as int), 65536);
        assert((a as int) * 65536 == -(65536 * (-(a as int)))) by (nonlinear_arith);
    }
}

/// The product of two scalars of the unit interval stays inside it.
pub proof fn lemma_fx_mul_unit_range(a: i64, b: i64)
    requires
        0 <= a <= ONE,
        0 <= b <= ONE,
    ensures
        0 <= fx_mul_i(a, b) <= ONE,
{
    assert(0 <= (a as int) * (b as int) <= 65536 * 65536) by (nonlinear_arith)
        requires
            0 <= a <= 65536,
            0 <= b <= 65536,
    ;
    vstd::arithmetic::div_mod::lemma_div_pos_is_pos((a as int) * (b as int), ONE as int);
    vstd::arithmetic::div_mod::lemma_div_is_ordered((a as int) * (b as int), 65536int * 65536, 65536);
}

/// The smaller of two scalars.
pub fn fx_min(a: i64, b: i64) -> (r: i64)
    ensures
        r == fx_min_i(a, b),
{
    if a <= b {
        a
    } else {
        b
    }
}

/// The larger of two scalars.
pub fn fx_max(a: i64, b: i64) -> (r: i64)
    ensures
        r == fx_max_i(a, b),
{
    if a >= b {
        a
    } else {
        b
    }
}

} // verus!
