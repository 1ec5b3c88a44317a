//! Prices
//!
//! A price in US dollars, held as a decimal number. Arithmetic that may round
//! goes through `rust_decimal` (see [crate::units::decimal]).

use crate::text::{
    chars_of, decimal, decimal_padded, push_decimal, push_decimal_padded, string_from_chars,
};
use crate::units::decimal::{
    abs_int, add_exact, dec_add, dec_div, dec_eq, dec_lt, dec_mul, dec_parse, dec_sub, dec_wf,
    decimal_add, decimal_div, decimal_mul, decimal_parse, decimal_sub, mul_exact, one_units,
    overflow_limit, units, MAX_MANTISSA, pow10, lemma_pow10_positive, lemma_pow10_adds,
    lemma_pow10_increases, lemma_pow10_28, lemma_cancel_factor, lemma_one_units_positive,
};
use crate::units::bounds::{product_fits, quotient_fits, sum_fits};
use crate::units::quantity::Quantity;
use vstd::prelude::*;

verus! {

/// A price in US dollars: the decimal number `mantissa / 10^scale`
#[derive(Copy, Clone, Debug)]
pub struct Price {
    mantissa: i128,
    scale: u32,
}

/// An error parsing a price from a string
#[derive(Debug)]
pub struct PriceParseError(pub rust_decimal::Error);

/// The value `m / 10^s` rounded to an integer toward zero
pub open spec fn trunc_value(m: int, s: int) -> int {
    let p = pow10(s as nat);
    if m >= 0 { m / p } else { -((-m) / p) }
}

/// Whether `c` is one of the characters the price parser skips
pub open spec fn is_price_noise(c: char) -> bool {
    c == '"' || c == ',' || c == '$'
}

/// The characters of `s` without quotes, commas and dollar signs
pub open spec fn strip_price_noise(s: Seq<char>) -> Seq<char> {
    s.filter(|c: char| !is_price_noise(c))
}

impl Price {
    #[verifier::type_invariant]
    spec fn inv(self) -> bool {
        dec_wf(self.mantissa as int, self.scale as int)
    }

    /// The mantissa of the decimal
    pub closed spec fn mant(self) -> int {
        if dec_wf(self.mantissa as int, self.scale as int) {
            self.mantissa as int
        } else {
            0
        }
    }

    /// The scale (digits after the point) of the decimal
    pub closed spec fn scl(self) -> int {
        if dec_wf(self.mantissa as int, self.scale as int) {
            self.scale as int
        } else {
            0
        }
    }

    /// The mantissa and scale of a price always form a representable decimal
    pub proof fn lemma_parts_wf(p: Price)
        ensures
            dec_wf(p.mant(), p.scl()),
    {
    }

    /// Negating the mantissa negates the value
    pub proof fn lemma_negated_view(p: Price)
        ensures
            Price::of_parts((-p.mant(), p.scl())).mant() == -p.mant(),
            Price::of_parts((-p.mant(), p.scl())).scl() == p.scl(),
            Price::of_parts((-p.mant(), p.scl()))@ == -p@,
    {
        vstd::arithmetic::mul::lemma_mul_unary_negation(p.mant(), pow10((28 - p.scl()) as nat));
    }

    /// The price with mantissa and scale `ms`
    pub closed spec fn of_parts(ms: (int, int)) -> Price {
        Price { mantissa: ms.0 as i128, scale: ms.1 as u32 }
    }

    /// Whether the price's value is `(m, s)`
    pub open spec fn is_parts(self, ms: (int, int)) -> bool {
        self.mant() == ms.0 && self.scl() == ms.1
    }

    /// Builds a price from a mantissa and a scale
    pub fn from_parts(mantissa: i128, scale: u32) -> (p: Price)
        requires
            dec_wf(mantissa as int, scale as int),
        ensures
            p == Price::of_parts((mantissa as int, scale as int)),
            p.mant() == mantissa,
            p.scl() == scale,
    {
        Price { mantissa, scale }
    }

    /// The mantissa of the decimal
    pub fn mantissa(&self) -> (m: i128)
        ensures
            m == self.mant(),
    {
        proof {
            use_type_invariant(self);
        }
        self.mantissa
    }

    /// The scale of the decimal
    pub fn scale(&self) -> (s: u32)
        ensures
            s == self.scl(),
    {
        proof {
            use_type_invariant(self);
        }
        self.scale
    }

    /// A price given as a (signed) number of cents
    pub fn from_cents(cents: i64) -> (p: Price)
        ensures
            p.mant() == cents,
            p.scl() == 2,
            p@ == cents * pow10(26),
    {
        Price { mantissa: cents as i128, scale: 2 }
    }

    /// A price given as a whole number of dollars
    pub fn from_dollars(dollars: i64) -> (p: Price)
        ensures
            p.mant() == dollars,
            p.scl() == 0,
            p@ == dollars * one_units(),
    {
        Price { mantissa: dollars as i128, scale: 0 }
    }

    /// Zero dollars
    /// The price zero, with scale zero
    pub closed spec fn spec_zero() -> Price {
        Price { mantissa: 0, scale: 0 }
    }

    pub fn zero() -> (p: Price)
        ensures
            p == Price::of_parts((0, 0)),
            p == Price::spec_zero(),
            p.mant() == 0,
            p.scl() == 0,
            p@ == 0,
    {
        Price { mantissa: 0, scale: 0 }
    }

    /// $1
    pub fn one() -> (p: Price)
        ensures
            p.mant() == 1,
            p.scl() == 0,
            p@ == one_units(),
    {
        Price { mantissa: 1, scale: 0 }
    }

    /// $25
    pub fn twenty_five() -> (p: Price)
        ensures
            p.mant() == 25,
            p.scl() == 0,
            p@ == 25 * one_units(),
    {
        Price { mantissa: 25, scale: 0 }
    }

    /// $100
    pub fn one_hundred() -> (p: Price)
        ensures
            p.mant() == 100,
            p.scl() == 0,
            p@ == 100 * one_units(),
    {
        Price { mantissa: 100, scale: 0 }
    }

    /// $1000
    pub fn one_thousand() -> (p: Price)
        ensures
            p.mant() == 1000,
            p.scl() == 0,
            p@ == 1000 * one_units(),
    {
        Price { mantissa: 1000, scale: 0 }
    }

    /// Absolute value of the price
    pub fn abs(&self) -> (p: Price)
        ensures
            p == Price::of_parts((abs_int(self.mant()), self.scl())),
            p.mant() == abs_int(self.mant()),
            p.scl() == self.scl(),
            p@ == abs_int(self@),
    {
        proof {
            use_type_invariant(self);
            lemma_pow10_positive((28 - self.scale) as nat);
            let k = pow10((28 - self.scale) as nat);
            let m = self.mantissa as int;
            assert(abs_int(m) * k == abs_int(m * k)) by (nonlinear_arith) requires k > 0;
        }
        Price { mantissa: if self.mantissa < 0 { -self.mantissa } else { self.mantissa }, scale: self.scale }
    }

    /// The negated price
    pub fn neg(&self) -> (p: Price)
        ensures
            p == Price::of_parts((-self.mant(), self.scl())),
            p.mant() == -self.mant(),
            p.scl() == self.scl(),
            p@ == -self@,
    {
        proof {
            use_type_invariant(self);
            vstd::arithmetic::mul::lemma_mul_unary_negation(self.mantissa as int, pow10((28 - self.scale) as nat));
        }
        Price { mantissa: -self.mantissa, scale: self.scale }
    }

    /// Whether `self + other` is representable (its integer part fits)
    pub open spec fn can_add(self, other: Price) -> bool {
        abs_int(self@ + other@) <= overflow_limit()
    }

    /// Whether `self - other` is representable (its integer part fits)
    pub open spec fn can_sub(self, other: Price) -> bool {
        abs_int(self@ - other@) <= overflow_limit()
    }

    /// Adds two prices
    pub fn add(&self, other: &Price) -> (p: Price)
        requires
            self.can_add(*other),
        ensures
            p == Price::of_parts(decimal_add(self.mant(), self.scl(), other.mant(), other.scl())),
            p.is_parts(decimal_add(self.mant(), self.scl(), other.mant(), other.scl())),
            add_exact(self.mant(), self.scl(), other.mant(), other.scl()) ==> p@ == self@ + other@,
            abs_int(p@ - (self@ + other@)) < one_units(),
    {
        proof {
            use_type_invariant(self);
            use_type_invariant(other);
        }
        let r = dec_add(self.mantissa, self.scale, other.mantissa, other.scale);
        Price { mantissa: r.0, scale: r.1 }
    }

    /// Subtracts two prices
    pub fn sub(&self, other: &Price) -> (p: Price)
        requires
            self.can_sub(*other),
        ensures
            p == Price::of_parts(decimal_sub(self.mant(), self.scl(), other.mant(), other.scl())),
            p.is_parts(decimal_sub(self.mant(), self.scl(), other.mant(), other.scl())),
            add_exact(self.mant(), self.scl(), -other.mant(), other.scl()) ==> p@ == self@ - other@,
            abs_int(p@ - (self@ - other@)) < one_units(),
    {
        proof {
            use_type_invariant(self);
            use_type_invariant(other);
        }
        let r = dec_sub(self.mantissa, self.scale, other.mantissa, other.scale);
        Price { mantissa: r.0, scale: r.1 }
    }

    /// Adds `other` in place
    pub fn add_assign(&mut self, other: &Price)
        requires
            old(self).can_add(*other),
        ensures
            final(self).is_parts(decimal_add(old(self).mant(), old(self).scl(), other.mant(), other.scl())),
            add_exact(old(self).mant(), old(self).scl(), other.mant(), other.scl()) ==> final(self)@
                == old(self)@ + other@,
            abs_int(final(self)@ - (old(self)@ + other@)) < one_units(),
    {
        *self = self.add(other);
    }

    /// Subtracts `other` in place
    pub fn sub_assign(&mut self, other: &Price)
        requires
            old(self).can_sub(*other),
        ensures
            final(self).is_parts(decimal_sub(old(self).mant(), old(self).scl(), other.mant(), other.scl())),
            add_exact(old(self).mant(), old(self).scl(), -other.mant(), other.scl()) ==> final(self)@
                == old(self)@ - other@,
            abs_int(final(self)@ - (old(self)@ - other@)) < one_units(),
    {
        *self = self.sub(other);
    }

    /// Whether `self + other` can be formed ([Price::can_add])
    pub fn fits_add(&self, other: &Price) -> (b: bool)
        ensures
            b == self.can_add(*other),
    {
        proof {
            use_type_invariant(self);
            use_type_invariant(other);
        }
        sum_fits(self.mantissa, self.scale, other.mantissa, other.scale)
    }

    /// Whether `self - other` can be formed ([Price::can_sub])
    pub fn fits_sub(&self, other: &Price) -> (b: bool)
        ensures
            b == self.can_sub(*other),
    {
        proof {
            use_type_invariant(self);
            use_type_invariant(other);
            let g = pow10((28 - other.scale) as nat);
            assert((-other.mantissa) * g == -(other.mantissa * g)) by (nonlinear_arith);
        }
        sum_fits(self.mantissa, self.scale, -other.mantissa, other.scale)
    }

    /// Whether `self * q` can be formed ([Price::can_mul_quantity])
    pub fn fits_mul_quantity(&self, q: Quantity) -> (b: bool)
        ensures
            b == self.can_mul_quantity(q),
    {
        proof {
            use_type_invariant(self);
        }
        match q {
            Quantity::Cents(_) => false,
            Quantity::Zero => true,
            Quantity::Bitcoin(n) => product_fits(self.mantissa, self.scale, n, 8),
            Quantity::Contracts(n) => product_fits(self.mantissa, self.scale, n, 2),
        }
    }

    /// Whether `self / q` can be formed ([Price::can_div_quantity])
    pub fn fits_div_quantity(&self, q: Quantity) -> (b: bool)
        ensures
            b == self.can_div_quantity(q),
    {
        proof {
            use_type_invariant(self);
        }
        match q {
            Quantity::Bitcoin(n) => n != 0 && quotient_fits(self.mantissa, self.scale, n, 8),
            Quantity::Contracts(n) => n != 0 && quotient_fits(self.mantissa, self.scale, n, 2),
            _ => false,
        }
    }

    /// Whether the price is strictly less than `other`, by value
    pub fn lt(&self, other: &Price) -> (b: bool)
        ensures
            b == (self@ < other@),
    {
        proof {
            use_type_invariant(self);
            use_type_invariant(other);
        }
        dec_lt(self.mantissa, self.scale, other.mantissa, other.scale)
    }

    /// Whether the price is at most `other`, by value
    pub fn le(&self, other: &Price) -> (b: bool)
        ensures
            b == (self@ <= other@),
    {
        !other.lt(self)
    }

    /// Whether the two prices are equal by value (whatever their scales)
    pub fn value_eq(&self, other: &Price) -> (b: bool)
        ensures
            b == (self@ == other@),
    {
        proof {
            use_type_invariant(self);
            use_type_invariant(other);
        }
        dec_eq(self.mantissa, self.scale, other.mantissa, other.scale)
    }

    /// Whether the price is zero
    pub fn is_zero(&self) -> (b: bool)
        ensures
            b == (self@ == 0),
    {
        self.value_eq(&Price::zero())
    }

    /// Multiplies the price by a decimal `(m, s)`
    fn mul_parts(&self, m: i128, s: u32) -> (p: Price)
        requires
            dec_wf(m as int, s as int),
            abs_int(self@ * units(m as int, s as int)) <= overflow_limit() * one_units(),
        ensures
            p == Price::of_parts(decimal_mul(self.mant(), self.scl(), m as int, s as int)),
            p.is_parts(decimal_mul(self.mant(), self.scl(), m as int, s as int)),
            mul_exact(self.mant(), self.scl(), m as int, s as int) ==> p@ * one_units() == self@
                * units(m as int, s as int),
            abs_int(p@ * one_units() - self@ * units(m as int, s as int)) < one_units() * one_units(),
    {
        proof {
            use_type_invariant(self);
        }
        let r = dec_mul(self.mantissa, self.scale, m, s);
        Price { mantissa: r.0, scale: r.1 }
    }

    /// Divides the price by a decimal `(m, s)`
    fn div_parts(&self, m: i128, s: u32) -> (p: Price)
        requires
            dec_wf(m as int, s as int),
            m != 0,
            abs_int(self@) <= (MAX_MANTISSA - 1) * abs_int(units(m as int, s as int)),
        ensures
            p == Price::of_parts(decimal_div(self.mant(), self.scl(), m as int, s as int)),
            p.is_parts(decimal_div(self.mant(), self.scl(), m as int, s as int)),
            abs_int(p@ * units(m as int, s as int) - self@ * one_units()) < abs_int(
                units(m as int, s as int),
            ) * one_units(),
    {
        proof {
            use_type_invariant(self);
        }
        let r = dec_div(self.mantissa, self.scale, m, s);
        Price { mantissa: r.0, scale: r.1 }
    }

    /// Given a price, return 1/100 the same price
    pub fn one_hundredth(&self) -> (p: Price)
        ensures
            p.is_parts(decimal_div(self.mant(), self.scl(), 100, 0)),
            abs_int(p@ * 100 - self@) < 100 * one_units(),
    {
        proof {
            use_type_invariant(self);
            self.lemma_value_bound();
            lemma_one_units_positive();
        }
        let p = self.div_parts(100, 0);
        proof {
            let one = one_units();
            assert(abs_int(p@ * units(100, 0) - self@ * one) == abs_int((p@ * 100 - self@) * one)) by (nonlinear_arith)
                requires units(100, 0) == 100 * one;
            assert(abs_int(units(100, 0)) * one == (100 * one) * one) by (nonlinear_arith)
                requires units(100, 0) == 100 * one, one > 0;
            lemma_cancel_factor(p@ * 100 - self@, 100 * one, one);
        }
        p
    }

    /// Given a price, double it
    pub fn double(&self) -> (p: Price)
        requires
            abs_int(self@ * 2) <= overflow_limit(),
        ensures
            p.is_parts(decimal_mul(self.mant(), self.scl(), 2, 0)),
            mul_exact(self.mant(), self.scl(), 2, 0) ==> p@ == self@ * 2,
            abs_int(p@ - self@ * 2) < one_units(),
    {
        proof {
            self.lemma_mul_whole(2);
        }
        let p = self.mul_parts(2, 0);
        proof {
            Self::lemma_whole_result(*self, p, 2);
        }
        p
    }

    /// Multiplying by the whole number `n` stays representable
    proof fn lemma_mul_whole(self, n: int)
        requires
            abs_int(self@ * n) <= overflow_limit(),
        ensures
            units(n, 0) == n * one_units(),
            abs_int(self@ * units(n, 0)) <= overflow_limit() * one_units(),
    {
        lemma_one_units_positive();
        let one = one_units();
        assert(abs_int(self@ * (n * one)) <= overflow_limit() * one) by (nonlinear_arith)
            requires abs_int(self@ * n) <= overflow_limit(), one > 0;
    }

    /// The product by the whole number `n` is within one unit of the exact
    /// product, and equal to it when exact
    proof fn lemma_whole_result(a: Price, p: Price, n: int)
        requires
            abs_int(p@ * one_units() - a@ * units(n, 0)) < one_units() * one_units(),
            mul_exact(a.mant(), a.scl(), n, 0) ==> p@ * one_units() == a@ * units(n, 0),
        ensures
            abs_int(p@ - a@ * n) < one_units(),
            mul_exact(a.mant(), a.scl(), n, 0) ==> p@ == a@ * n,
    {
        lemma_one_units_positive();
        let one = one_units();
        assert(units(n, 0) == n * one);
        assert(abs_int(p@ * one - a@ * (n * one)) == abs_int((p@ - a@ * n) * one)) by (nonlinear_arith);
        lemma_cancel_factor(p@ - a@ * n, one, one);
        if mul_exact(a.mant(), a.scl(), n, 0) {
            assert(p@ == a@ * n) by (nonlinear_arith)
                requires p@ * one == a@ * (n * one), one > 0;
        }
    }

    /// Given a price, halve it
    pub fn half(&self) -> (p: Price)
        ensures
            p.is_parts(decimal_div(self.mant(), self.scl(), 2, 0)),
            abs_int(p@ * 2 - self@) < 2 * one_units(),
    {
        proof {
            use_type_invariant(self);
            self.lemma_value_bound();
            lemma_one_units_positive();
        }
        let p = self.div_parts(2, 0);
        proof {
            let one = one_units();
            assert(abs_int(p@ * units(2, 0) - self@ * one) == abs_int((p@ * 2 - self@) * one)) by (nonlinear_arith)
                requires units(2, 0) == 2 * one;
            assert(abs_int(units(2, 0)) * one == (2 * one) * one) by (nonlinear_arith)
                requires units(2, 0) == 2 * one, one > 0;
            lemma_cancel_factor(p@ * 2 - self@, 2 * one, one);
        }
        p
    }

    /// Given a price, return 40% of the price (used for 1256 tax calculations)
    pub fn forty(&self) -> (p: Price)
        requires
            abs_int(self@ * 2) <= overflow_limit(),
        ensures
            p == Price::of_parts(decimal_div(decimal_mul(self.mant(), self.scl(), 2, 0).0, decimal_mul(self.mant(), self.scl(), 2, 0).1, 5, 0)),
            p.is_parts(decimal_div(decimal_mul(self.mant(), self.scl(), 2, 0).0, decimal_mul(self.mant(), self.scl(), 2, 0).1, 5, 0)),
    {
        let twice = self.double();
        proof {
            use_type_invariant(&twice);
            twice.lemma_value_bound();
        }
        twice.div_parts(5, 0)
    }

    /// Given a price, return 60% of the price (used for 1256 tax calculations)
    pub fn sixty(&self) -> (p: Price)
        requires
            abs_int(self@ * 3) <= overflow_limit(),
        ensures
            p == Price::of_parts(decimal_div(decimal_mul(self.mant(), self.scl(), 3, 0).0, decimal_mul(self.mant(), self.scl(), 3, 0).1, 5, 0)),
            p.is_parts(decimal_div(decimal_mul(self.mant(), self.scl(), 3, 0).0, decimal_mul(self.mant(), self.scl(), 3, 0).1, 5, 0)),
    {
        proof {
            self.lemma_mul_whole(3);
        }
        let thrice = self.mul_parts(3, 0);
        proof {
            use_type_invariant(&thrice);
            thrice.lemma_value_bound();
        }
        thrice.div_parts(5, 0)
    }

    /// The value of any price is at most MAX_MANTISSA whole units in magnitude
    proof fn lemma_value_bound(self)
        ensures
            abs_int(self@) <= MAX_MANTISSA * one_units(),
    {
        let m = self.mant();
        let s = self.scl();
        Self::lemma_parts_wf(self);
        lemma_pow10_positive((28 - s) as nat);
        lemma_pow10_increases((28 - s) as nat, 28);
        assert(abs_int(m * pow10((28 - s) as nat)) <= MAX_MANTISSA * pow10(28)) by (nonlinear_arith)
            requires
                -MAX_MANTISSA <= m <= MAX_MANTISSA,
                0 < pow10((28 - s) as nat) <= pow10(28);
    }

    /// Convert the value to an integer, truncating any fractional part
    pub fn to_int(&self) -> (n: i64)
        requires
            i64::MIN <= trunc_value(self.mant(), self.scl()) <= i64::MAX,
        ensures
            n == trunc_value(self.mant(), self.scl()),
    {
        proof {
            use_type_invariant(self);
        }
        let p = pow10_i128(self.scale);
        let q: i128 = if self.mantissa >= 0 {
            self.mantissa / p
        } else {
            -((-self.mantissa) / p)
        };
        q as i64
    }

    /// Whether `self * q` is defined (the quantity is not in dollars) and its
    /// integer part fits
    pub open spec fn can_mul_quantity(self, q: Quantity) -> bool {
        &&& !(q is Cents)
        &&& q is Bitcoin ==> abs_int(self@ * q.amount()) <= overflow_limit() * pow10(8)
        &&& q is Contracts ==> abs_int(self@ * q.amount()) <= overflow_limit() * pow10(2)
    }

    /// The decimal by which a quantity multiplies a price: satoshis are
    /// 10^-8 BTC, contracts are 1/100 BTC
    pub open spec fn quantity_factor(q: Quantity) -> (int, int) {
        match q {
            Quantity::Bitcoin(n) => (n as int, 8),
            Quantity::Contracts(n) => (n as int, 2),
            _ => (0, 0),
        }
    }

    /// The price times a quantity: a price per BTC times an amount of bitcoin,
    /// or a price per 100 contracts times a number of contracts
    pub fn mul_quantity(&self, q: Quantity) -> (p: Price)
        requires
            self.can_mul_quantity(q),
        ensures
            p == Price::of_parts(if q is Zero { (0, 0) } else { decimal_mul(self.mant(), self.scl(), Self::quantity_factor(q).0, Self::quantity_factor(q).1) }),
            q is Zero ==> p@ == 0 && p.mant() == 0 && p.scl() == 0,
            !(q is Zero) ==> p.is_parts(decimal_mul(self.mant(), self.scl(), Self::quantity_factor(q).0, Self::quantity_factor(q).1)),
            !(q is Zero) && mul_exact(self.mant(), self.scl(), Self::quantity_factor(q).0, Self::quantity_factor(q).1)
                ==> p@ * pow10(Self::quantity_factor(q).1 as nat) == self@ * q.amount(),
    {
        match q {
            Quantity::Bitcoin(sats) => {
                proof { self.lemma_mul_factor(sats as int, 8); }
                let r = self.mul_parts(sats as i128, 8);
                proof { Self::lemma_exact_factor(*self, r, sats as int, 8); }
                r
            },
            Quantity::Contracts(n) => {
                proof { self.lemma_mul_factor(n as int, 2); }
                let r = self.mul_parts(n as i128, 2);
                proof { Self::lemma_exact_factor(*self, r, n as int, 2); }
                r
            },
            _ => Price::zero(),
        }
    }

    /// Multiplying by `(n, s)` multiplies the value by `n / 10^s`
    proof fn lemma_mul_factor(self, n: int, s: nat)
        requires
            s <= 28,
            abs_int(self@ * n) <= overflow_limit() * pow10(s),
        ensures
            units(n, s as int) * pow10(s) == n * one_units(),
            abs_int(self@ * units(n, s as int)) <= overflow_limit() * one_units(),
    {
        lemma_pow10_adds((28 - s) as nat, s);
        lemma_pow10_positive(s);
        lemma_pow10_positive((28 - s) as nat);
        let a = pow10((28 - s) as nat);
        let b = pow10(s);
        assert(one_units() == a * b);
        assert(units(n, s as int) == n * a);
        assert(n * a * b == n * (a * b)) by (nonlinear_arith);
        assert(abs_int(self@ * (n * a)) <= overflow_limit() * (a * b)) by (nonlinear_arith)
            requires abs_int(self@ * n) <= overflow_limit() * b, a > 0, b > 0, overflow_limit() >= 0;
    }

    /// An exact product by `(n, s)` is the value times `n / 10^s`
    proof fn lemma_exact_factor(a: Price, r: Price, n: int, s: nat)
        requires
            s <= 28,
            r@ * one_units() == a@ * units(n, s as int) || !mul_exact(a.mant(), a.scl(), n, s as int),
        ensures
            mul_exact(a.mant(), a.scl(), n, s as int) ==> r@ * pow10(s) == a@ * n,
    {
        if mul_exact(a.mant(), a.scl(), n, s as int) {
            lemma_pow10_adds((28 - s) as nat, s);
            lemma_pow10_positive(s);
            lemma_pow10_positive((28 - s) as nat);
            let x = pow10((28 - s) as nat);
            let y = pow10(s);
            assert(one_units() == x * y);
            assert(units(n, s as int) == n * x);
            assert(r@ * y == a@ * n) by (nonlinear_arith)
                requires r@ * (x * y) == a@ * (n * x), x > 0;
        }
    }

    /// Whether `self / q` is defined: the quantity is a nonzero amount of
    /// bitcoin or contracts, and the quotient's integer part fits
    pub open spec fn can_div_quantity(self, q: Quantity) -> bool {
        &&& (q is Bitcoin || q is Contracts)
        &&& q.amount() != 0
        &&& abs_int(self@) * pow10(Self::quantity_factor(q).1 as nat) <= (MAX_MANTISSA - 1) * abs_int(q.amount()) * one_units()
    }

    /// The price divided by a quantity (a per-unit price)
    pub fn div_quantity(&self, q: Quantity) -> (p: Price)
        requires
            self.can_div_quantity(q),
        ensures
            p == Price::of_parts(decimal_div(self.mant(), self.scl(), Self::quantity_factor(q).0, Self::quantity_factor(q).1)),
            p.is_parts(decimal_div(self.mant(), self.scl(), Self::quantity_factor(q).0, Self::quantity_factor(q).1)),
    {
        match q {
            Quantity::Bitcoin(sats) => {
                proof { self.lemma_div_factor(sats as int, 8); }
                self.div_parts(sats as i128, 8)
            },
            Quantity::Contracts(n) => {
                proof { self.lemma_div_factor(n as int, 2); }
                self.div_parts(n as i128, 2)
            },
            _ => Price::zero(),
        }
    }

    /// The no-overflow condition of a division by `(n, s)`
    proof fn lemma_div_factor(self, n: int, s: nat)
        requires
            s <= 28,
            n != 0,
            abs_int(self@) * pow10(s) <= (MAX_MANTISSA - 1) * abs_int(n) * one_units(),
        ensures
            abs_int(self@) <= (MAX_MANTISSA - 1) * abs_int(units(n, s as int)),
    {
        lemma_pow10_adds((28 - s) as nat, s);
        lemma_pow10_positive(s);
        lemma_pow10_positive((28 - s) as nat);
        let x = pow10((28 - s) as nat);
        let y = pow10(s);
        assert(one_units() == x * y);
        assert(units(n, s as int) == n * x);
        assert(abs_int(n * x) == abs_int(n) * x) by (nonlinear_arith) requires x > 0;
        assert(abs_int(self@) <= (MAX_MANTISSA - 1) * (abs_int(n) * x)) by (nonlinear_arith)
            requires abs_int(self@) * y <= (MAX_MANTISSA - 1) * abs_int(n) * (x * y), y > 0, x > 0;
    }

    /// Parses a price, skipping the quotes, commas and dollar signs of the
    /// exchange's "1,123.00" style
    pub fn from_str(s: &str) -> (r: Result<Price, PriceParseError>)
        ensures
            r is Ok <==> decimal_parse(strip_price_noise(s@)) is Some,
            r matches Ok(p) ==> decimal_parse(strip_price_noise(s@)) == Some((p.mant(), p.scl())),
    {
        let cs = chars_of(s);
        let mut kept: Vec<char> = Vec::new();
        let mut i: usize = 0;
        while i < cs.len()
            invariant
                i <= cs.len(),
                cs@ == s@,
                kept@ == strip_price_noise(cs@.take(i as int)),
            decreases cs.len() - i,
        {
            let c = cs[i];
            proof {
                assert(cs@.take(i + 1) == cs@.take(i as int).push(c));
                reveal(Seq::filter);
                assert(cs@.take(i + 1).drop_last() == cs@.take(i as int));
            }
            if c != '"' && c != ',' && c != '$' {
                kept.push(c);
            }
            i = i + 1;
        }
        assert(cs@.take(cs.len() as int) == cs@);
        let compressed = string_from_chars(&kept);
        match dec_parse(compressed.as_str()) {
            Ok(v) => Ok(Price { mantissa: v.0, scale: v.1 }),
            Err(e) => Err(PriceParseError(e)),
        }
    }
}

/// The magnitude `|m| / 10^s` rounded to `dp` decimal places, half to even,
/// as a whole number of 10^-dp (for `s > dp`; otherwise `|m|` unchanged)
pub open spec fn round_half_even(m: int, s: int, dp: int) -> int {
    let mag = abs_int(m);
    if s <= dp {
        mag
    } else {
        let k = pow10((s - dp) as nat);
        let q = mag / k;
        let rem = mag % k;
        if rem * 2 > k || (rem * 2 == k && q % 2 == 1) {
            q + 1
        } else {
            q
        }
    }
}

/// The number of cents shown when a price is displayed: its magnitude rounded
/// to two decimal places, half to even
pub open spec fn display_cents(m: int, s: int) -> int {
    if s <= 2 {
        abs_int(m) * pow10((2 - s) as nat)
    } else {
        round_half_even(m, s, 2)
    }
}

/// The plain display of a price: an optional minus sign (when the decimal is
/// negative), the whole dollars, a point and two digits of cents
pub open spec fn plain_display(m: int, s: int) -> Seq<char> {
    let c = display_cents(m, s);
    (if m < 0 { seq!['-'] } else { Seq::empty() }) + decimal((c / 100) as nat) + seq!['.'] + decimal_padded((c % 100) as nat, 2)
}

/// The whole dollars of `|m| / 10^s`, rounded toward zero
pub open spec fn whole_dollars(m: int, s: int) -> int {
    abs_int(m) / pow10(s as nat)
}

/// The cents of `|m| / 10^s` beyond the whole dollars, rounded toward zero
pub open spec fn frac_cents(m: int, s: int) -> int {
    (abs_int(m) % pow10(s as nat)) * 100 / pow10(s as nat)
}

/// The display of a price with thousands separators: an optional minus sign,
/// the whole dollars in groups of three digits separated by commas, a point
/// and two digits of cents (both parts rounded toward zero)
pub open spec fn alt_display(m: int, s: int) -> Seq<char> {
    let t = whole_dollars(m, s);
    let f = frac_cents(m, s);
    let sign = if m < 0 { seq!['-'] } else { Seq::<char>::empty() };
    let body = if t >= 1_000_000 {
        decimal((t / 1_000_000) as nat) + seq![','] + decimal_padded(((t / 1000) % 1000) as nat, 3) + seq![','] + decimal_padded((t % 1000) as nat, 3)
    } else if t >= 1000 {
        decimal((t / 1000) as nat) + seq![','] + decimal_padded((t % 1000) as nat, 3)
    } else {
        decimal((t % 1000) as nat)
    };
    sign + body + seq!['.'] + decimal_padded(f as nat, 2)
}

impl Price {
    /// Displays the price rounded to cents, e.g. "123.40"
    pub fn to_display_string(&self) -> (r: String)
        ensures
            r@ == plain_display(self.mant(), self.scl()),
    {
        proof {
            use_type_invariant(self);
        }
        let m = self.mantissa;
        let s = self.scale;
        let mag: u128 = if m < 0 { (-m) as u128 } else { m as u128 };
        let cents: u128 = if s <= 2 {
            proof {
                lemma_pow10_increases((2 - s) as nat, 2);
                reveal_with_fuel(pow10, 3);
                assert(mag * pow10((2 - s) as nat) <= MAX_MANTISSA * 100) by (nonlinear_arith)
                    requires mag <= MAX_MANTISSA, pow10((2 - s) as nat) <= 100, pow10((2 - s) as nat) > 0;
                lemma_pow10_positive((2 - s) as nat);
            }
            mag * (pow10_i128(2 - s) as u128)
        } else {
            let k: u128 = pow10_i128(s - 2) as u128;
            let q = mag / k;
            let rem = mag % k;
            if rem * 2 > k || (rem * 2 == k && q % 2 == 1) {
                q + 1
            } else {
                q
            }
        };
        assert(cents == display_cents(m as int, s as int));
        let mut out: Vec<char> = Vec::new();
        if m < 0 {
            out.push('-');
        }
        push_decimal(&mut out, cents / 100);
        out.push('.');
        push_decimal_padded(&mut out, cents % 100, 2);
        proof {
            let c = cents as int;
            if m < 0 {
                assert(out@ == seq!['-'] + decimal((c / 100) as nat) + seq!['.'] + decimal_padded((c % 100) as nat, 2));
            } else {
                assert(out@ == Seq::<char>::empty() + decimal((c / 100) as nat) + seq!['.'] + decimal_padded((c % 100) as nat, 2));
            }
        }
        string_from_chars(&out)
    }

    /// Displays the price with thousands separators, e.g. "1,234,567.89"
    ///
    /// Amounts above a billion dollars are not supported.
    pub fn to_alt_string(&self) -> (r: String)
        requires
            whole_dollars(self.mant(), self.scl()) < 1_000_000_000
                || (whole_dollars(self.mant(), self.scl()) == 1_000_000_000 && frac_cents(self.mant(), self.scl()) == 0 && abs_int(self.mant()) % pow10(self.scl() as nat) == 0),
        ensures
            r@ == alt_display(self.mant(), self.scl()),
    {
        proof {
            use_type_invariant(self);
            lemma_pow10_positive(self.scale as nat);
        }
        let m = self.mantissa;
        let s = self.scale;
        let mag: u128 = if m < 0 { (-m) as u128 } else { m as u128 };
        let p: u128 = pow10_i128(s) as u128;
        let t: u128 = mag / p;
        let fm: u128 = mag % p;
        proof {
            assert(fm < p);
            assert(fm * 100 < p * 100) by (nonlinear_arith) requires fm < p;
            lemma_pow10_increases(s as nat, 28);
            lemma_pow10_28();
        }
        let f: u128 = fm * 100 / p;
        assert(t == whole_dollars(m as int, s as int));
        assert(f == frac_cents(m as int, s as int));
        let mut out: Vec<char> = Vec::new();
        if m < 0 {
            out.push('-');
        }
        let ghost sign = out@;
        if t >= 1_000_000 {
            push_decimal(&mut out, t / 1_000_000);
            out.push(',');
            push_decimal_padded(&mut out, (t / 1000) % 1000, 3);
            out.push(',');
            push_decimal_padded(&mut out, t % 1000, 3);
        } else if t >= 1000 {
            push_decimal(&mut out, t / 1000);
            out.push(',');
            push_decimal_padded(&mut out, t % 1000, 3);
        } else {
            push_decimal(&mut out, t % 1000);
        }
        out.push('.');
        push_decimal_padded(&mut out, f, 2);
        proof {
            let ti = t as int;
            let body = if ti >= 1_000_000 {
                decimal((ti / 1_000_000) as nat) + seq![','] + decimal_padded(((ti / 1000) % 1000) as nat, 3) + seq![','] + decimal_padded((ti % 1000) as nat, 3)
            } else if ti >= 1000 {
                decimal((ti / 1000) as nat) + seq![','] + decimal_padded((ti % 1000) as nat, 3)
            } else {
                decimal((ti % 1000) as nat)
            };
            assert(out@ == sign + body + seq!['.'] + decimal_padded(f as nat, 2));
            if m < 0 {
                assert(sign == seq!['-']);
            } else {
                assert(sign == Seq::<char>::empty());
            }
        }
        string_from_chars(&out)
    }
}

impl View for Price {
    type V = int;

    /// The value of the price in units of 10^-28 dollars
    open spec fn view(&self) -> int {
        units(self.mant(), self.scl())
    }
}

/// Ten to the power `s`, as a machine integer
pub fn pow10_i128(s: u32) -> (p: i128)
    requires
        s <= 28,
    ensures
        p == pow10(s as nat),
        p > 0,
{
    let mut p: i128 = 1;
    let mut i: u32 = 0;
    proof {
        vstd::arithmetic::power::lemma_pow0(10);
    }
    while i < s
        invariant
            i <= s <= 28,
            p == pow10(i as nat),
            p > 0,
        decreases s - i,
    {
        proof {
            lemma_pow10_increases((i + 1) as nat, 28);
            lemma_pow10_28();
        }
        p = p * 10;
        i = i + 1;
    }
    p
}

impl PartialEq for Price {
    /// Prices are equal when their values are, whatever their scales
    fn eq(&self, other: &Price) -> (b: bool) {
        self.value_eq(other)
    }
}

impl vstd::std_specs::cmp::PartialEqSpecImpl for Price {
    open spec fn obeys_eq_spec() -> bool {
        true
    }

    open spec fn eq_spec(&self, other: &Price) -> bool {
        self@ == other@
    }
}

impl Eq for Price {
}

} // verus!
