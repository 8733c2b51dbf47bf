//! Exact fixed-point arithmetic for the engine.
//!
//! Every price, weight, fee and return in the library is a decimal scaled by
//! `SCALE` (10^9): the stored integer `v` stands for the real number
//! `v / SCALE`. Divisions truncate toward zero; each operation's contract
//! states the exact integer it produces.

use vstd::prelude::*;

verus! {

use vstd::arithmetic::div_mod::lemma_div_pos_is_pos;
use vstd::arithmetic::div_mod::lemma_div_nonincreasing;
use vstd::arithmetic::div_mod::lemma_fundamental_div_mod;
use vstd::arithmetic::div_mod::lemma_fundamental_div_mod_converse;

/// Scaling factor of all fixed-point quantities: 10^9.
pub const SCALE: i128 = 1_000_000_000;

/// Absolute value of a mathematical integer.
pub open spec fn abs_i(a: int) -> int {
    if a >= 0 {
        a
    } else {
        -a
    }
}

/// Division truncating toward zero, for a positive divisor.
/// (In specifications `/` is Euclidean division, which differs from the
/// machine behaviour on negative dividends; this is the machine one.)
pub open spec fn div_t(a: int, b: int) -> int
    recommends
        b > 0,
{
    if a >= 0 {
        a / b
    } else {
        -((-a) / b)
    }
}

/// The magnitude of a truncating quotient is the floor quotient of the
/// magnitudes, and never exceeds the dividend's magnitude.
pub proof fn lemma_div_t_abs(a: int, b: int)
    requires
        b > 0,
    ensures
        abs_i(div_t(a, b)) == abs_i(a) / b,
        abs_i(div_t(a, b)) <= abs_i(a),
        a >= 0 ==> div_t(a, b) >= 0,
        a <= 0 ==> div_t(a, b) <= 0,
{
    if a >= 0 {
        lemma_div_pos_is_pos(a, b);
        lemma_div_nonincreasing(a, b);
    } else {
        lemma_div_pos_is_pos(-a, b);
        lemma_div_nonincreasing(-a, b);
    }
}

/// Truncating division of `a` by a positive `b`, as `i128` machine division.
pub fn div_trunc(a: i128, b: i128) -> (r: i128)
    requires
        b > 0,
    ensures
        r == div_t(a as int, b as int),
        abs_i(r as int) == abs_i(a as int) / (b as int),
        abs_i(r as int) <= abs_i(a as int),
{
    proof {
        lemma_div_t_abs(a as int, b as int);
    }
    let q = a.checked_div(b);
    proof {
        assert(q is Some);
    }
    q.unwrap()
}

/// `(a * b) / d` truncating toward zero, when the product fits in `i128`.
pub fn mul_div(a: i128, b: i128, d: i128) -> (r: i128)
    requires
        d > 0,
        i128::MIN <= a * b <= i128::MAX,
    ensures
        r == div_t(a as int * b as int, d as int),
        abs_i(r as int) == abs_i(a as int * b as int) / (d as int),
        abs_i(r as int) <= abs_i(a as int * b as int),
{
    let p = a.checked_mul(b);
    proof {
        assert(p is Some);
    }
    div_trunc(p.unwrap(), d)
}

/// For non-negative parts, the truncated quotient of the sum lies between
/// the sum of the truncated quotients and that sum plus one.
pub proof fn lemma_div_t_sum_parts(a: int, b: int, d: int)
    requires
        a >= 0,
        b >= 0,
        d > 0,
    ensures
        div_t(a, d) + div_t(b, d) <= div_t(a + b, d),
        div_t(a + b, d) <= div_t(a, d) + div_t(b, d) + 1,
{
    lemma_fundamental_div_mod(a, d);
    lemma_fundamental_div_mod(b, d);
    vstd::arithmetic::div_mod::lemma_mod_division_less_than_divisor(a, d);
    vstd::arithmetic::div_mod::lemma_mod_division_less_than_divisor(b, d);
    let q1 = a / d;
    let r1 = a % d;
    let q2 = b / d;
    let r2 = b % d;
    if r1 + r2 < d {
        assert((q1 + q2) * d + (r1 + r2) == (d * q1 + r1) + (d * q2 + r2)) by (nonlinear_arith);
        lemma_fundamental_div_mod_converse(a + b, d, q1 + q2, r1 + r2);
    } else {
        assert((q1 + q2 + 1) * d + (r1 + r2 - d) == (d * q1 + r1) + (d * q2 + r2))
            by (nonlinear_arith);
        lemma_fundamental_div_mod_converse(a + b, d, q1 + q2 + 1, r1 + r2 - d);
    }
    lemma_div_pos_is_pos(a, d);
    lemma_div_pos_is_pos(b, d);
}

/// Integer square root: the greatest `r` with `r * r <= x`.
pub fn isqrt(x: u128) -> (r: u128)
    ensures
        r * r <= x,
        x < (r + 1) * (r + 1),
{
    let mut lo: u128 = 0;
    let mut hi: u128 = 0x1_0000_0000_0000_0000;
    proof {
        assert(x < hi * hi) by (nonlinear_arith)
            requires
                hi == 0x1_0000_0000_0000_0000,
                x <= u128::MAX,
        ;
    }
    while hi - lo > 1
        invariant
            lo < hi <= 0x1_0000_0000_0000_0000,
            lo * lo <= x,
            x < hi * hi,
        decreases hi - lo,
    {
        let mid: u128 = lo + (hi - lo) / 2;
        proof {
            assert(mid * mid <= u128::MAX) by (nonlinear_arith)
                requires
                    mid < 0x1_0000_0000_0000_0000u128,
            ;
        }
        if mid * mid <= x {
            lo = mid;
        } else {
            hi = mid;
        }
    }
    lo
}

/// 10^e as a mathematical integer.
pub open spec fn pow10_s(e: nat) -> int
    decreases e,
{
    if e == 0 {
        1
    } else {
        10 * pow10_s((e - 1) as nat)
    }
}

/// The rounding quantum for `digits` decimal places at scale 10^9:
/// one unit in the last kept place, `10^(9 - digits)`.
pub fn quantum(digits: u32) -> (q: i64)
    requires
        digits <= 9,
    ensures
        q == pow10_s((9 - digits) as nat),
        1 <= q <= SCALE,
        q == 1 || q % 2 == 0,
        10_000_000_000int % (q as int) == 0,
{
    proof {
        reveal_with_fuel(pow10_s, 11);
    }
    match digits {
        0 => 1_000_000_000,
        1 => 100_000_000,
        2 => 10_000_000,
        3 => 1_000_000,
        4 => 100_000,
        5 => 10_000,
        6 => 1_000,
        7 => 100,
        8 => 10,
        _ => 1,
    }
}

/// Rounding to a multiple of the quantum `q`, half away from zero.
pub open spec fn round_w(w: int, q: int) -> int
    recommends
        q >= 1,
{
    if w >= 0 {
        ((w + q / 2) / q) * q
    } else {
        -((((-w) + q / 2) / q) * q)
    }
}

/// Round a raw weight to the quantum `q`, half away from zero.
pub fn round_weight(w: i64, q: i64) -> (r: i128)
    requires
        1 <= q <= SCALE,
        q == 1 || q % 2 == 0,
    ensures
        r == round_w(w as int, q as int),
        abs_i(r as int) <= abs_i(w as int) + q / 2,
{
    let aw: i128 = if w >= 0 {
        w as i128
    } else {
        -(w as i128)
    };
    let qq: i128 = q as i128;
    let half: i128 = div_trunc(qq, 2);
    proof {
        lemma_div_pos_is_pos(qq as int, 2);
        lemma_div_nonincreasing(qq as int, 2);
    }
    let t: i128 = aw + half;
    let dq: i128 = div_trunc(t, qq);
    proof {
        lemma_fundamental_div_mod(t as int, qq as int);
        lemma_div_pos_is_pos(t as int, qq as int);
        vstd::arithmetic::div_mod::lemma_mod_division_less_than_divisor(t as int, qq as int);
        vstd::arithmetic::mul::lemma_mul_nonnegative(dq as int, qq as int);
        assert(dq == t as int / qq as int);
        assert(qq * dq + t % qq == t);
        vstd::arithmetic::mul::lemma_mul_is_commutative(dq as int, qq as int);
        assert(dq * qq <= t);
    }
    let m: i128 = dq * qq;
    if w >= 0 {
        m
    } else {
        -m
    }
}

} // verus!
