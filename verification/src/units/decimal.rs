//! Decimal arithmetic
//!
//! Prices are decimal numbers: a signed mantissa of at most 96 bits and a
//! scale (number of digits after the point) of at most 28. Arithmetic that
//! may round is done by `rust_decimal`; this module holds the calls into it
//! and the mathematical model the rest of the library reasons with.
//!
//! A decimal `(m, s)` stands for the number `m / 10^s`. The model works with
//! its value measured in units of `10^-28`, which is an integer for every
//! representable decimal.

use rust_decimal::Decimal;
use vstd::prelude::*;

verus! {

/// The largest mantissa magnitude a decimal can hold (2^96 - 1)
pub const MAX_MANTISSA: i128 = 0xFFFF_FFFF_FFFF_FFFF_FFFF_FFFF;

/// The largest scale a decimal can hold
pub const MAX_SCALE: u32 = 28;

/// Whether `(m, s)` is a representable decimal
pub open spec fn dec_wf(m: int, s: int) -> bool {
    &&& 0 <= s <= 28
    &&& -MAX_MANTISSA <= m <= MAX_MANTISSA
}

/// The value of the decimal `(m, s)` in units of 10^-28
pub open spec fn units(m: int, s: int) -> int {
    m * pow10((28 - s) as nat)
}

/// One whole unit (the number 1) measured in units of 10^-28
pub open spec fn one_units() -> int {
    pow10(28)
}

/// The magnitude below which results of arithmetic are guaranteed to be
/// representable: the integer part must fit in 96 bits
pub open spec fn overflow_limit() -> int {
    (MAX_MANTISSA - 1) * one_units()
}

/// Absolute value on integers
pub open spec fn abs_int(x: int) -> int {
    if x < 0 { -x } else { x }
}

/// Whether adding (or subtracting, with `bm` negated) two decimals is exact:
/// both operands and the result fit in 96 bits at the larger of the two scales
pub open spec fn add_exact(am: int, a_s: int, bm: int, b_s: int) -> bool {
    let s = if a_s >= b_s { a_s } else { b_s };
    let a = am * pow10((s - a_s) as nat);
    let b = bm * pow10((s - b_s) as nat);
    &&& abs_int(a) <= MAX_MANTISSA
    &&& abs_int(b) <= MAX_MANTISSA
    &&& abs_int(a + b) <= MAX_MANTISSA
}

/// Whether multiplying two decimals is exact: the scales add up to at most 28
/// and the product of the mantissas fits in 96 bits
pub open spec fn mul_exact(am: int, a_s: int, bm: int, b_s: int) -> bool {
    &&& a_s + b_s <= 28
    &&& abs_int(am * bm) <= MAX_MANTISSA
}

/// The decimal (mantissa, scale) that `rust_decimal` computes for the sum
pub uninterp spec fn decimal_add(am: int, a_s: int, bm: int, b_s: int) -> (int, int);

/// The decimal (mantissa, scale) that `rust_decimal` computes for the difference
pub uninterp spec fn decimal_sub(am: int, a_s: int, bm: int, b_s: int) -> (int, int);

/// The decimal (mantissa, scale) that `rust_decimal` computes for the product
pub uninterp spec fn decimal_mul(am: int, a_s: int, bm: int, b_s: int) -> (int, int);

/// The decimal (mantissa, scale) that `rust_decimal` computes for the quotient
pub uninterp spec fn decimal_div(am: int, a_s: int, bm: int, b_s: int) -> (int, int);

/// The decimal (mantissa, scale) that `rust_decimal` parses from a string, if any
pub uninterp spec fn decimal_parse(s: Seq<char>) -> Option<(int, int)>;

/// The `rust_decimal` error type, carried through from a failed parse
#[verifier::external_type_specification]
#[verifier::external_body]
pub struct ExDecimalError(rust_decimal::Error);

/// Adds two decimals with `Decimal::add` (the `+` operator).
///
/// Claims of `rust_decimal`: the result is a representable decimal; it is
/// the exact sum when the aligned operands and sum fit in 96 bits; otherwise
/// it is rounded, off by less than one whole unit. `+` panics only when the
/// integer part of the sum does not fit in 96 bits, which `requires` rules out.
#[verifier::external_body]
pub fn dec_add(am: i128, a_s: u32, bm: i128, b_s: u32) -> (r: (i128, u32))
    requires
        dec_wf(am as int, a_s as int),
        dec_wf(bm as int, b_s as int),
        abs_int(units(am as int, a_s as int) + units(bm as int, b_s as int)) <= overflow_limit(),
    ensures
        dec_wf(r.0 as int, r.1 as int),
        (r.0 as int, r.1 as int) == decimal_add(am as int, a_s as int, bm as int, b_s as int),
        add_exact(am as int, a_s as int, bm as int, b_s as int) ==> units(r.0 as int, r.1 as int)
            == units(am as int, a_s as int) + units(bm as int, b_s as int),
        abs_int(units(r.0 as int, r.1 as int) - (units(am as int, a_s as int) + units(
            bm as int,
            b_s as int,
        ))) < one_units(),
{
    let d = Decimal::from_i128_with_scale(am, a_s) + Decimal::from_i128_with_scale(bm, b_s);
    (d.mantissa(), d.scale())
}

/// Subtracts two decimals with `Decimal::sub` (the `-` operator).
///
/// Claims of `rust_decimal`, as for [dec_add] with the second operand negated.
#[verifier::external_body]
pub fn dec_sub(am: i128, a_s: u32, bm: i128, b_s: u32) -> (r: (i128, u32))
    requires
        dec_wf(am as int, a_s as int),
        dec_wf(bm as int, b_s as int),
        abs_int(units(am as int, a_s as int) - units(bm as int, b_s as int)) <= overflow_limit(),
    ensures
        dec_wf(r.0 as int, r.1 as int),
        (r.0 as int, r.1 as int) == decimal_sub(am as int, a_s as int, bm as int, b_s as int),
        add_exact(am as int, a_s as int, -bm, b_s as int) ==> units(r.0 as int, r.1 as int)
            == units(am as int, a_s as int) - units(bm as int, b_s as int),
        abs_int(units(r.0 as int, r.1 as int) - (units(am as int, a_s as int) - units(
            bm as int,
            b_s as int,
        ))) < one_units(),
{
    let d = Decimal::from_i128_with_scale(am, a_s) - Decimal::from_i128_with_scale(bm, b_s);
    (d.mantissa(), d.scale())
}

/// Multiplies two decimals with `Decimal::mul` (the `*` operator).
///
/// Claims of `rust_decimal`: the result is representable; it is the exact
/// product when the scales add to at most 28 and the mantissa product fits in
/// 96 bits; otherwise it is rounded, off by less than one whole unit. `*`
/// panics only when the integer part of the product does not fit in 96 bits.
#[verifier::external_body]
pub fn dec_mul(am: i128, a_s: u32, bm: i128, b_s: u32) -> (r: (i128, u32))
    requires
        dec_wf(am as int, a_s as int),
        dec_wf(bm as int, b_s as int),
        abs_int(units(am as int, a_s as int) * units(bm as int, b_s as int)) <= overflow_limit()
            * one_units(),
    ensures
        dec_wf(r.0 as int, r.1 as int),
        (r.0 as int, r.1 as int) == decimal_mul(am as int, a_s as int, bm as int, b_s as int),
        mul_exact(am as int, a_s as int, bm as int, b_s as int) ==> units(r.0 as int, r.1 as int)
            * one_units() == units(am as int, a_s as int) * units(bm as int, b_s as int),
        abs_int(units(r.0 as int, r.1 as int) * one_units() - units(am as int, a_s as int) * units(
            bm as int,
            b_s as int,
        )) < one_units() * one_units(),
{
    let d = Decimal::from_i128_with_scale(am, a_s) * Decimal::from_i128_with_scale(bm, b_s);
    (d.mantissa(), d.scale())
}

/// Divides two decimals with `Decimal::div` (the `/` operator).
///
/// Claims of `rust_decimal`: the result is representable and differs from the
/// exact quotient by less than one whole unit. `/` panics on a zero divisor
/// and when the integer part of the quotient does not fit in 96 bits, which
/// `requires` rules out. Which rounding it does is left to the name
/// [decimal_div].
#[verifier::external_body]
pub fn dec_div(am: i128, a_s: u32, bm: i128, b_s: u32) -> (r: (i128, u32))
    requires
        dec_wf(am as int, a_s as int),
        dec_wf(bm as int, b_s as int),
        bm != 0,
        abs_int(units(am as int, a_s as int)) <= (MAX_MANTISSA - 1) * abs_int(
            units(bm as int, b_s as int),
        ),
    ensures
        dec_wf(r.0 as int, r.1 as int),
        (r.0 as int, r.1 as int) == decimal_div(am as int, a_s as int, bm as int, b_s as int),
        abs_int(units(r.0 as int, r.1 as int) * units(bm as int, b_s as int) - units(
            am as int,
            a_s as int,
        ) * one_units()) < abs_int(units(bm as int, b_s as int)) * one_units(),
{
    let d = Decimal::from_i128_with_scale(am, a_s) / Decimal::from_i128_with_scale(bm, b_s);
    (d.mantissa(), d.scale())
}

/// Compares two decimals by value with `Decimal::lt` (the `<` operator).
///
/// Claims of `rust_decimal`: decimals are ordered by their numeric value.
#[verifier::external_body]
pub fn dec_lt(am: i128, a_s: u32, bm: i128, b_s: u32) -> (r: bool)
    requires
        dec_wf(am as int, a_s as int),
        dec_wf(bm as int, b_s as int),
    ensures
        r == (units(am as int, a_s as int) < units(bm as int, b_s as int)),
{
    Decimal::from_i128_with_scale(am, a_s) < Decimal::from_i128_with_scale(bm, b_s)
}

/// Compares two decimals by value with `Decimal::eq` (the `==` operator).
///
/// Claims of `rust_decimal`: two decimals are equal exactly when their numeric
/// values are equal, whatever their scales.
#[verifier::external_body]
pub fn dec_eq(am: i128, a_s: u32, bm: i128, b_s: u32) -> (r: bool)
    requires
        dec_wf(am as int, a_s as int),
        dec_wf(bm as int, b_s as int),
    ensures
        r == (units(am as int, a_s as int) == units(bm as int, b_s as int)),
{
    Decimal::from_i128_with_scale(am, a_s) == Decimal::from_i128_with_scale(bm, b_s)
}

/// Parses a decimal with `Decimal::from_str`.
///
/// Claims of `rust_decimal`: a successful parse yields a representable
/// decimal, and the outcome depends on the string alone. The grammar it
/// accepts is left to the name [decimal_parse].
#[verifier::external_body]
pub fn dec_parse(s: &str) -> (r: Result<(i128, u32), rust_decimal::Error>)
    ensures
        r is Ok <==> decimal_parse(s@) is Some,
        r matches Ok(v) ==> dec_wf(v.0 as int, v.1 as int) && decimal_parse(s@) == Some(
            (v.0 as int, v.1 as int),
        ),
{
    match <Decimal as core::str::FromStr>::from_str(s) {
        Ok(d) => Ok((d.mantissa(), d.scale())),
        Err(e) => Err(e),
    }
}

/// Ten to the power `n`
pub open spec fn pow10(n: nat) -> int
    decreases n,
{
    if n == 0 {
        1
    } else {
        10 * pow10((n - 1) as nat)
    }
}

/// Ten to the power `n` is positive
pub proof fn lemma_pow10_positive(n: nat)
    ensures
        pow10(n) > 0,
    decreases n,
{
    if n > 0 {
        lemma_pow10_positive((n - 1) as nat);
    }
}

/// Ten to the power `a + b` is the product of the two powers
pub proof fn lemma_pow10_adds(a: nat, b: nat)
    ensures
        pow10(a + b) == pow10(a) * pow10(b),
    decreases a,
{
    if a > 0 {
        lemma_pow10_adds((a - 1) as nat, b);
        assert(pow10(a + b) == 10 * pow10((a - 1 + b) as nat));
        assert(10 * (pow10((a - 1) as nat) * pow10(b)) == (10 * pow10((a - 1) as nat)) * pow10(b)) by (nonlinear_arith);
    }
}

/// Powers of ten grow with the exponent
pub proof fn lemma_pow10_increases(a: nat, b: nat)
    requires
        a <= b,
    ensures
        pow10(a) <= pow10(b),
    decreases b,
{
    lemma_pow10_positive(b);
    if a < b {
        lemma_pow10_increases(a, (b - 1) as nat);
        lemma_pow10_positive((b - 1) as nat);
    }
}

/// The value of ten to the power 28
pub proof fn lemma_pow10_28()
    ensures
        pow10(28) == 10000000000000000000000000000,
{
    reveal_with_fuel(pow10, 29);
}

/// Dividing both sides of a strict bound by a positive factor
pub proof fn lemma_cancel_factor(a: int, c: int, k: int)
    requires
        k > 0,
        abs_int(a * k) < c * k,
    ensures
        abs_int(a) < c,
{
    assert(abs_int(a * k) == abs_int(a) * k) by (nonlinear_arith)
        requires k > 0;
    assert(abs_int(a) < c) by (nonlinear_arith)
        requires abs_int(a) * k < c * k, k > 0;
}

/// One whole unit is positive
pub proof fn lemma_one_units_positive()
    ensures
        one_units() > 0,
{
    lemma_pow10_positive(28);
}

} // verus!
