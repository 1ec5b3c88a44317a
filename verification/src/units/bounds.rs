//! Range checks
//!
//! Decimal arithmetic panics when the integer part of a result does not fit
//! in 96 bits. These functions decide, exactly and without overflowing
//! themselves, whether a sum, a quotient or a product stays in range, so
//! that a computation can be refused up front rather than panic midway.

use crate::units::decimal::{abs_int, dec_wf, lemma_pow10_28, lemma_pow10_adds, lemma_pow10_increases, lemma_pow10_positive, one_units, overflow_limit, pow10, units, MAX_MANTISSA};
use crate::units::price::pow10_i128;
use vstd::arithmetic::div_mod::lemma_fundamental_div_mod;
use vstd::prelude::*;

verus! {

/// The value of a decimal split at the point: its integer part and its
/// fraction (in units of 10^-28), both with the sign of the decimal
fn split_units(m: i128, s: u32) -> (r: (i128, i128))
    requires
        dec_wf(m as int, s as int),
    ensures
        units(m as int, s as int) == r.0 * one_units() + r.1,
        abs_int(r.1 as int) < one_units(),
        abs_int(r.0 as int) <= MAX_MANTISSA,
{
    let p = pow10_i128(s);
    let f = pow10_i128(28 - s);
    let a: i128 = if m < 0 { -m } else { m };
    let q = a / p;
    let r = a % p;
    proof {
        lemma_fundamental_div_mod(a as int, p as int);
        lemma_pow10_adds(s as nat, (28 - s) as nat);
        lemma_pow10_28();
        assert(a * f == q * (p * f) + r * f) by (nonlinear_arith)
            requires a == p * q + r;
        assert(r * f < p * f) by (nonlinear_arith)
            requires 0 <= r < p, f > 0;
        assert(0 <= r * f) by (nonlinear_arith)
            requires 0 <= r, f > 0;
        assert(q <= a) by (nonlinear_arith)
            requires a == p * q + r, p >= 1, r >= 0, a >= 0;
        assert(q >= 0) by (nonlinear_arith)
            requires a == p * q + r, p >= 1, 0 <= r < p, a >= 0;
        assert(units(m as int, s as int) == m * f);
        assert(m * f == -(a * f) || m * f == a * f) by (nonlinear_arith)
            requires a == m || a == -m;
        assert(m < 0 ==> m * f == -(a * f)) by (nonlinear_arith)
            requires m < 0 ==> a == -m;
        assert(m >= 0 ==> m * f == a * f) by (nonlinear_arith)
            requires m >= 0 ==> a == m;
    }
    let rf = r * f;
    if m < 0 {
        (-q, -rf)
    } else {
        (q, rf)
    }
}

/// Whether the sum of two decimals is in range: its magnitude is at most
/// the limit below which decimal addition does not overflow
pub fn sum_fits(am: i128, a_s: u32, bm: i128, b_s: u32) -> (b: bool)
    requires
        dec_wf(am as int, a_s as int),
        dec_wf(bm as int, b_s as int),
    ensures
        b == (abs_int(units(am as int, a_s as int) + units(bm as int, b_s as int)) <= overflow_limit()),
{
    let (qa, ra) = split_units(am, a_s);
    let (qb, rb) = split_units(bm, b_s);
    proof {
        lemma_pow10_28();
    }
    let t: i128 = 10_000_000_000_000_000_000_000_000_000;
    let q = qa + qb;
    let r = ra + rb;
    let (q2, r2): (i128, i128) = if r >= t {
        (q + 1, r - t)
    } else if r >= 0 {
        (q, r)
    } else if r >= -t {
        (q - 1, r + t)
    } else {
        (q - 2, r + 2 * t)
    };
    let l: i128 = MAX_MANTISSA - 1;
    proof {
        assert(one_units() == t);
        assert(units(am as int, a_s as int) + units(bm as int, b_s as int) == q * t + r) by (nonlinear_arith)
            requires
                units(am as int, a_s as int) == qa * one_units() + ra,
                units(bm as int, b_s as int) == qb * one_units() + rb,
                one_units() == t,
                q == qa + qb,
                r == ra + rb;
        assert(q * t + r == q2 * t + r2) by (nonlinear_arith)
            requires
                r >= t ==> q2 == q + 1 && r2 == r - t,
                0 <= r < t ==> q2 == q && r2 == r,
                -t <= r < 0 ==> q2 == q - 1 && r2 == r + t,
                r < -t ==> q2 == q - 2 && r2 == r + 2 * t;
        assert(0 <= r2 < t);
        assert(overflow_limit() == l * t);
    }
    -l <= q2 && (q2 < l || (q2 == l && r2 == 0))
}

/// Cancels a positive factor from both sides of a bound
proof fn lemma_cancel_le(x: int, y: int, g: int)
    requires
        g > 0,
    ensures
        (x * g <= y * g) == (x <= y),
{
    if x <= y {
        assert(x * g <= y * g) by (nonlinear_arith)
            requires x <= y, g > 0;
    } else {
        assert(x * g > y * g) by (nonlinear_arith)
            requires x > y, g > 0;
    }
}

/// `x <= d * k` exactly when the quotient of `x` by `d`, rounded up, is at
/// most `k`
proof fn lemma_ceil_div(x: int, d: int, k: int)
    requires
        d > 0,
        x >= 0,
        k >= 0,
    ensures
        (x <= d * k) == ((x + d - 1) / d <= k),
{
    let c = (x + d - 1) / d;
    let rr = (x + d - 1) % d;
    lemma_fundamental_div_mod(x + d - 1, d);
    assert(0 <= rr < d) by {
        vstd::arithmetic::div_mod::lemma_mod_pos_bound(x + d - 1, d);
    }
    if x <= d * k {
        assert(c <= k) by (nonlinear_arith)
            requires x + d - 1 == d * c + rr, 0 <= rr < d, x <= d * k, d > 0;
    } else {
        assert(c > k) by (nonlinear_arith)
            requires x + d - 1 == d * c + rr, 0 <= rr < d, x > d * k, d > 0;
    }
}

/// Whether a decimal divided by `n / 10^f` is in range: the magnitude of
/// the quotient is at most the largest mantissa less one
pub fn quotient_fits(am: i128, a_s: u32, n: i64, f: u32) -> (b: bool)
    requires
        dec_wf(am as int, a_s as int),
        n != 0,
        f <= 8,
    ensures
        b == (abs_int(units(am as int, a_s as int)) * pow10(f as nat) <= (MAX_MANTISSA - 1) * abs_int(n as int) * one_units()),
{
    let a: u128 = (if am < 0 { -am } else { am }) as u128;
    let nn: u128 = (if n < 0 { -(n as i128) } else { n as i128 }) as u128;
    let pf = pow10_i128(f) as u128;
    let ps = pow10_i128(a_s) as u128;
    let ghost g = pow10((28 - a_s) as nat);
    proof {
        lemma_pow10_positive((28 - a_s) as nat);
        lemma_pow10_adds(a_s as nat, (28 - a_s) as nat);
        lemma_pow10_increases(f as nat, 8);
        lemma_pow10_increases(a_s as nat, 28);
        reveal_with_fuel(pow10, 9);
        lemma_pow10_28();
        assert(abs_int(units(am as int, a_s as int)) == a * g) by (nonlinear_arith)
            requires units(am as int, a_s as int) == am * g, g > 0, a == abs_int(am as int);
        assert((MAX_MANTISSA - 1) * abs_int(n as int) * one_units() == ((MAX_MANTISSA - 1) * nn * ps) * g) by (nonlinear_arith)
            requires one_units() == ps * g, nn == abs_int(n as int);
        assert(a * g * pf == (a * pf) * g) by (nonlinear_arith);
        lemma_cancel_le(a * pf, (MAX_MANTISSA - 1) * nn * ps, g);
        assert(a * pf <= MAX_MANTISSA * 100000000) by (nonlinear_arith)
            requires a <= MAX_MANTISSA, pf <= 100000000, a >= 0;
    }
    let lhs: u128 = a * pf;
    if a_s > f {
        proof {
            lemma_pow10_increases((f + 1) as nat, a_s as nat);
            assert(pow10((f + 1) as nat) == 10 * pow10(f as nat));
            assert(lhs <= (MAX_MANTISSA - 1) * nn * ps) by (nonlinear_arith)
                requires
                    lhs == a * pf,
                    a <= MAX_MANTISSA,
                    ps >= 10 * pf,
                    pf > 0,
                    nn >= 1,
                    MAX_MANTISSA > 10;
        }
        return true;
    }
    proof {
        lemma_pow10_increases(a_s as nat, f as nat);
        assert((MAX_MANTISSA - 1) * ps <= (MAX_MANTISSA - 1) * 100000000) by (nonlinear_arith)
            requires ps <= 100000000;
    }
    let d: u128 = ((MAX_MANTISSA - 1) as u128) * ps;
    proof {
        lemma_ceil_div(lhs as int, d as int, nn as int);
        assert(d * nn == (MAX_MANTISSA - 1) * nn * ps) by (nonlinear_arith)
            requires d == (MAX_MANTISSA - 1) * ps;
    }
    (lhs + d - 1) / d <= nn
}

/// Whether a decimal times `n / 10^f` is in range: the magnitude of the
/// product is at most the limit below which multiplication does not overflow
pub fn product_fits(am: i128, a_s: u32, n: i64, f: u32) -> (b: bool)
    requires
        dec_wf(am as int, a_s as int),
        f <= 8,
    ensures
        b == (abs_int(units(am as int, a_s as int) * n) <= overflow_limit() * pow10(f as nat)),
{
    let a: u128 = (if am < 0 { -am } else { am }) as u128;
    let nn: u128 = (if n < 0 { -(n as i128) } else { n as i128 }) as u128;
    let e: u32 = a_s + f;
    let ghost g = pow10((28 - a_s) as nat);
    let ghost big = (MAX_MANTISSA - 1) * pow10(e as nat);
    proof {
        lemma_pow10_positive((28 - a_s) as nat);
        lemma_pow10_positive(e as nat);
        lemma_pow10_adds(e as nat, (28 - a_s) as nat);
        lemma_pow10_adds(28, f as nat);
        assert((e + (28 - a_s)) as nat == (28 + f) as nat);
        assert(abs_int(units(am as int, a_s as int) * n) == (a * nn) * g) by (nonlinear_arith)
            requires units(am as int, a_s as int) == am * g, g > 0, a == abs_int(am as int), nn == abs_int(n as int);
        assert(overflow_limit() * pow10(f as nat) == big * g) by (nonlinear_arith)
            requires
                overflow_limit() == (MAX_MANTISSA - 1) * pow10(28),
                pow10(e as nat) * g == pow10(28) * pow10(f as nat),
                big == (MAX_MANTISSA - 1) * pow10(e as nat);
        lemma_cancel_le(a * nn, big, g);
    }
    if nn == 0 || a == 0 {
        proof {
            assert(a * nn == 0) by (nonlinear_arith)
                requires nn == 0 || a == 0;
            assert(big >= 0) by (nonlinear_arith)
                requires big == (MAX_MANTISSA - 1) * pow10(e as nat), pow10(e as nat) > 0;
        }
        return true;
    }
    let x: u128 = (MAX_MANTISSA - 1) as u128;
    let mut v: u128 = x / nn;
    let mut r: u128 = x % nn;
    let mut capped = false;
    proof {
        lemma_fundamental_div_mod(x as int, nn as int);
        assert(v <= x) by (nonlinear_arith)
            requires x == nn * v + r, nn >= 1, r >= 0, v >= 0;
        assert(pow10(0) == 1);
    }
    let mut k: u32 = 0;
    while k < e
        invariant
            k <= e,
            1 <= nn <= 0x8000_0000_0000_0000,
            x == MAX_MANTISSA - 1,
            !capped ==> x * pow10(k as nat) == v * nn + r && r < nn && v <= MAX_MANTISSA,
            capped ==> x * pow10(k as nat) >= (MAX_MANTISSA + 1) * nn,
        decreases e - k,
    {
        assert(pow10((k + 1) as nat) == 10 * pow10(k as nat));
        if !capped {
            let t: u128 = r * 10;
            let v2: u128 = v * 10 + t / nn;
            let r2: u128 = t % nn;
            proof {
                lemma_fundamental_div_mod(t as int, nn as int);
                assert(x * pow10((k + 1) as nat) == v2 * nn + r2) by (nonlinear_arith)
                    requires
                        x * pow10(k as nat) == v * nn + r,
                        pow10((k + 1) as nat) == 10 * pow10(k as nat),
                        t == r * 10,
                        t == nn * (t / nn) + r2,
                        v2 == v * 10 + t / nn;
            }
            if v2 > MAX_MANTISSA as u128 {
                proof {
                    assert(x * pow10((k + 1) as nat) >= (MAX_MANTISSA + 1) * nn) by (nonlinear_arith)
                        requires x * pow10((k + 1) as nat) == v2 * nn + r2, v2 >= MAX_MANTISSA + 1, nn >= 1, r2 >= 0;
                }
                capped = true;
            } else {
                v = v2;
                r = r2;
            }
        } else {
            proof {
                assert(x * pow10((k + 1) as nat) >= (MAX_MANTISSA + 1) * nn) by (nonlinear_arith)
                    requires
                        x * pow10(k as nat) >= (MAX_MANTISSA + 1) * nn,
                        pow10((k + 1) as nat) == 10 * pow10(k as nat),
                        nn >= 1;
            }
        }
        k = k + 1;
    }
    proof {
        if capped {
            assert(a * nn <= big) by (nonlinear_arith)
                requires big >= (MAX_MANTISSA + 1) * nn, a <= MAX_MANTISSA, nn >= 1;
        } else {
            if a <= v {
                assert(a * nn <= big) by (nonlinear_arith)
                    requires big == v * nn + r, a <= v, nn >= 1, r >= 0;
            } else {
                assert(a * nn > big) by (nonlinear_arith)
                    requires big == v * nn + r, a >= v + 1, nn >= 1, r < nn;
            }
        }
    }
    capped || a <= v
}

} // verus!
