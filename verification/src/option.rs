//! Options
//!
//! Puts and calls on bitcoin, with a strike price and an expiry.

use crate::text::{chars_of, push_str, string_from_chars};
use crate::units::decimal::{decimal_add, decimal_mul, decimal_parse, decimal_sub, one_units, overflow_limit, abs_int, units};
use crate::units::price::{plain_display, strip_price_noise, PriceParseError};
use crate::units::utc_time::{iso_date_days, iso_date_text, push_iso_date, second_of_day, TimeError};
use crate::units::quantity::SATS_PER_CONTRACT;
use crate::units::{Price, Quantity, UtcTime};
use vstd::prelude::*;
use vstd::string::StrSliceExecFns;

verus! {

/// Whether an option is a put or a call
#[derive(Copy, Clone, PartialEq, Eq, Hash, Debug, Structural)]
pub enum PutCall {
    /// A call
    Call,
    /// A put
    Put,
}

impl PutCall {
    /// Gives a string representation as "Put" or "Call"
    pub fn as_str(self) -> (s: &'static str)
        ensures
            self is Call ==> s@ == "Call"@,
            self is Put ==> s@ == "Put"@,
    {
        match self {
            PutCall::Call => "Call",
            PutCall::Put => "Put",
        }
    }

    /// Gives a one-character representation as 'P' or 'C'
    pub fn to_char(self) -> (c: char)
        ensures
            self is Call ==> c == 'C',
            self is Put ==> c == 'P',
    {
        match self {
            PutCall::Call => 'C',
            PutCall::Put => 'P',
        }
    }
}

/// An option contract on bitcoin
#[derive(Copy, Clone, Debug)]
pub struct Option {
    /// Whether this is a put or a call
    pub pc: PutCall,
    /// Strike price
    pub strike: Price,
    /// Expiry date
    pub expiry: UtcTime,
}

/// Errors parsing an option from a string such as `2023-01-27C10000`
#[derive(Debug)]
pub enum OptionParseError {
    /// The string is not ASCII
    NotAscii,
    /// The string is shorter than 12 characters
    TooShort(usize),
    /// The date did not parse
    Time(TimeError),
    /// The put/call letter is not one of C, c, P, p
    UnknownPutCall(char),
    /// The strike price did not parse
    Strike(PriceParseError),
}

/// Whether two options are equal: same kind, strike of the same value, same
/// expiry
pub open spec fn same_option(a: Option, b: Option) -> bool {
    a.pc == b.pc && a.strike@ == b.strike@ && a.expiry == b.expiry
}

/// The satoshis in one base unit of a quantity: a million for a contract,
/// one otherwise
pub open spec fn sats_per_unit(q: Quantity) -> int {
    if q is Contracts { SATS_PER_CONTRACT as int } else { 1 }
}

impl Option {
    /// Construct a new call option
    pub fn new_call(strike: Price, expiry: UtcTime) -> (o: Self)
        ensures
            o.pc == PutCall::Call,
            o.strike == strike,
            o.expiry == expiry,
    {
        Option { pc: PutCall::Call, strike, expiry }
    }

    /// Construct a new put option
    pub fn new_put(strike: Price, expiry: UtcTime) -> (o: Self)
        ensures
            o.pc == PutCall::Put,
            o.strike == strike,
            o.expiry == expiry,
    {
        Option { pc: PutCall::Put, strike, expiry }
    }

    /// Whether two options are equal
    pub fn same_as(&self, other: &Option) -> (b: bool)
        ensures
            b == same_option(*self, *other),
    {
        self.pc == other.pc && self.strike.value_eq(&other.strike) && self.expiry == other.expiry
    }

    /// Whether the option is in the money. Options exactly at the money count
    /// as "in the money".
    pub fn in_the_money(&self, btc_price: Price) -> (b: bool)
        ensures
            self.pc is Call ==> b == (self.strike@ <= btc_price@),
            self.pc is Put ==> b == (self.strike@ >= btc_price@),
    {
        match self.pc {
            PutCall::Call => self.strike.le(&btc_price),
            PutCall::Put => btc_price.le(&self.strike),
        }
    }

    /// The difference the intrinsic value is taken from: the price less the
    /// strike for a call, the strike less the price for a put
    pub open spec fn spec_moneyness_parts(self, btc_price: Price) -> (int, int) {
        match self.pc {
            PutCall::Call => decimal_sub(btc_price.mant(), btc_price.scl(), self.strike.mant(), self.strike.scl()),
            PutCall::Put => decimal_sub(self.strike.mant(), self.strike.scl(), btc_price.mant(), btc_price.scl()),
        }
    }

    /// The decimal of the intrinsic value at a bitcoin price: the difference
    /// above, floored at zero
    pub open spec fn spec_intrinsic_parts(self, btc_price: Price) -> (int, int) {
        let d = self.spec_moneyness_parts(btc_price);
        if units(d.0, d.1) < 0 { (0, 0) } else { d }
    }

    /// The "intrinsic value" of the option: what it would be worth if it
    /// expired instantly at the given price (zero when out of the money)
    pub fn intrinsic_value(&self, btc_price: Price) -> (p: Price)
        requires
            abs_int(btc_price@ - self.strike@) <= overflow_limit(),
        ensures
            p == Price::of_parts(self.spec_intrinsic_parts(btc_price)),
            p@ >= 0,
            self.pc is Call && self.strike@ <= btc_price@ ==> abs_int(p@ - (btc_price@ - self.strike@)) < one_units(),
            self.pc is Put && btc_price@ <= self.strike@ ==> abs_int(p@ - (self.strike@ - btc_price@)) < one_units(),
            self.pc is Call && btc_price@ < self.strike@ ==> p@ < one_units(),
            self.pc is Put && self.strike@ < btc_price@ ==> p@ < one_units(),
    {
        let d = match self.pc {
            PutCall::Call => btc_price.sub(&self.strike),
            PutCall::Put => self.strike.sub(&btc_price),
        };
        if d.lt(&Price::zero()) {
            Price::zero()
        } else {
            d
        }
    }

    /// Whether [Option::put_lockup_per_100] can compute the lockup at a sale
    /// price: for a put sold at most at its strike, the strike less the sale
    /// price, plus $25, is in range
    pub fn put_lockup_fits(&self, sale_price: Price) -> (b: bool)
        ensures
            b == (self.pc is Put && sale_price@ <= self.strike@ ==> {
                &&& self.strike.can_sub(sale_price)
                &&& abs_int(Price::of_parts(decimal_sub(self.strike.mant(), self.strike.scl(), sale_price.mant(), sale_price.scl()))@
                    + 25 * one_units()) <= overflow_limit()
            }),
    {
        match self.pc {
            PutCall::Call => true,
            PutCall::Put => {
                if self.strike.lt(&sale_price) {
                    true
                } else if !self.strike.fits_sub(&sale_price) {
                    false
                } else {
                    let diff = self.strike.sub(&sale_price);
                    diff.fits_add(&Price::twenty_five())
                }
            },
        }
    }

    /// Given a sale price, the cash locked up per 100 contracts of a short put:
    /// the strike, less the sale price, plus a $25 fee. `None` for a call
    /// (calls lock up bitcoin, not cash), when the put sells for more than
    /// its strike, and when the lockup is out of range
    /// ([Option::put_lockup_fits]).
    pub fn put_lockup_per_100(&self, sale_price: Price) -> (r: std::option::Option<Price>)
        ensures
            r is Some <==> (self.pc is Put && sale_price@ <= self.strike@ && {
                &&& self.strike.can_sub(sale_price)
                &&& abs_int(Price::of_parts(decimal_sub(self.strike.mant(), self.strike.scl(), sale_price.mant(), sale_price.scl()))@
                    + 25 * one_units()) <= overflow_limit()
            }),
            r matches Some(p) ==> abs_int(p@ - (self.strike@ - sale_price@ + 25 * one_units())) < 2 * one_units(),
    {
        match self.pc {
            PutCall::Call => None,
            PutCall::Put => {
                if self.strike.lt(&sale_price) || !self.put_lockup_fits(sale_price) {
                    None
                } else {
                    let diff = self.strike.sub(&sale_price);
                    Some(diff.add(&Price::twenty_five()))
                }
            },
        }
    }

    /// The text of the option, e.g. `2023-01-27C10000.00`: the expiry date
    /// as `%F`, `C` or `P`, and the strike as [Price::to_display_string]
    /// gives it (the form [Option::from_str] reads back)
    pub fn to_display_string(&self) -> (r: String)
        ensures
            r@ == iso_date_text(self.expiry) + seq![if self.pc is Call { 'C' } else { 'P' }]
                + plain_display(self.strike.mant(), self.strike.scl()),
    {
        let mut out: Vec<char> = Vec::new();
        push_iso_date(&mut out, &self.expiry);
        out.push(self.pc.to_char());
        let strike = self.strike.to_display_string();
        push_str(&mut out, strike.as_str());
        string_from_chars(&out)
    }

    /// The strike less a sale price, plus the $25 fee: the cash a put sold at
    /// that price locks up per hundred contracts, net of the sale
    pub open spec fn put_lockup_parts(self, sale_price: Price) -> (int, int) {
        let diff = decimal_sub(self.strike.mant(), self.strike.scl(), sale_price.mant(), sale_price.scl());
        decimal_add(diff.0, diff.1, 25, 0)
    }

    /// Whether [Option::lockup_usd] is in range for an order: the strike less
    /// the price, that plus $25, and that times the magnitude of the size
    pub open spec fn lockup_usd_ok(self, order_price: Price, order_size: Quantity) -> bool {
        let diff = Price::of_parts(decimal_sub(self.strike.mant(), self.strike.scl(), order_price.mant(), order_price.scl()));
        &&& self.strike.can_sub(order_price)
        &&& abs_int(diff@ + 25 * one_units()) <= overflow_limit()
        &&& order_size.can_negate()
        &&& Price::of_parts(self.put_lockup_parts(order_price)).can_mul_quantity(order_size.with_amount(abs_int(order_size.amount())))
    }

    /// Cash locked up by taking the short side of an order on this option:
    /// nothing for a call; for a put the strike less the order price plus
    /// the $25 fee, times the magnitude of the order size. This is negative
    /// when a put sells for more than its strike (plus the fee). Gives
    /// nothing for a put whose amounts are out of range
    /// ([Option::lockup_usd_ok]).
    pub fn lockup_usd(&self, order_price: Price, order_size: Quantity) -> (r: std::option::Option<Price>)
        ensures
            self.pc is Call ==> r == Some(Price::of_parts((0, 0))),
            self.pc is Put ==> (r is Some <==> self.lockup_usd_ok(order_price, order_size)),
            self.pc is Put ==> (r matches Some(p) ==> {
                let per_100 = Price::of_parts(self.put_lockup_parts(order_price));
                let size = order_size.with_amount(abs_int(order_size.amount()));
                p == Price::of_parts(if size is Zero { (0, 0) } else {
                    decimal_mul(per_100.mant(), per_100.scl(), Price::quantity_factor(size).0, Price::quantity_factor(size).1)
                })
            }),
    {
        match self.pc {
            PutCall::Call => Some(Price::zero()),
            PutCall::Put => {
                if !self.strike.fits_sub(&order_price) {
                    return None;
                }
                let diff = self.strike.sub(&order_price);
                let fee = Price::twenty_five();
                if !diff.fits_add(&fee) {
                    return None;
                }
                let per_100 = diff.add(&fee);
                if order_size.raw_amount() == i64::MIN {
                    return None;
                }
                let size = order_size.abs();
                if !per_100.fits_mul_quantity(size) {
                    return None;
                }
                Some(per_100.mul_quantity(size))
            },
        }
    }

    /// Bitcoin (in satoshis) locked up by taking the short side of an order
    /// on this option: nothing for a put; for a call the magnitude of the
    /// order size in satoshis. Gives nothing for a call when the size is in
    /// dollars or its satoshis overflow.
    pub fn lockup_btc(&self, order_size: Quantity) -> (r: std::option::Option<u64>)
        ensures
            self.pc is Put ==> r == Some(0u64),
            self.pc is Call ==> (r is Some <==> !(order_size is Cents)
                && Quantity::fits(abs_int(order_size.amount()) * sats_per_unit(order_size))),
            self.pc is Call ==> (r matches Some(n) ==> n == abs_int(order_size.amount()) * sats_per_unit(order_size)),
    {
        match self.pc {
            PutCall::Put => Some(0),
            PutCall::Call => match order_size {
                Quantity::Cents(_) => None,
                Quantity::Zero => Some(0),
                Quantity::Bitcoin(n) => {
                    if n == i64::MIN {
                        None
                    } else {
                        Some((if n < 0 { -n } else { n }) as u64)
                    }
                },
                Quantity::Contracts(n) => {
                    if n == i64::MIN {
                        return None;
                    }
                    let m: i64 = if n < 0 { -n } else { n };
                    if m > i64::MAX / SATS_PER_CONTRACT {
                        None
                    } else {
                        Some((m * SATS_PER_CONTRACT) as u64)
                    }
                },
            },
        }
    }

    /// Parses an option such as `2023-01-27C10000`: a `%F` expiry date (21:00
    /// UTC on that day), `C`/`c` or `P`/`p`, and a strike price
    pub fn from_str(s: &str) -> (r: Result<Self, OptionParseError>)
        ensures
            r is Ok <==> (vstd::string::is_ascii(s) && s@.len() >= 12 && iso_date_days(s@.take(10)) is Some
                && (s@[10] == 'C' || s@[10] == 'c' || s@[10] == 'P' || s@[10] == 'p')
                && decimal_parse(strip_price_noise(s@.skip(11))) is Some),
            r matches Ok(o) ==> {
                &&& Some(o.expiry.spec_day()) == iso_date_days(s@.take(10))
                &&& second_of_day(o.expiry.spec_secs()) == 21 * 3600
                &&& o.expiry.spec_nanos() == 0
                &&& (o.pc is Call <==> (s@[10] == 'C' || s@[10] == 'c'))
                &&& decimal_parse(strip_price_noise(s@.skip(11))) == Some((o.strike.mant(), o.strike.scl()))
            },
    {
        if !s.is_ascii() {
            return Err(OptionParseError::NotAscii);
        }
        let n = s.unicode_len();
        if n < 12 {
            return Err(OptionParseError::TooShort(n));
        }
        let expiry = match UtcTime::parse_option_expiry(s) {
            Ok(t) => t,
            Err(e) => return Err(OptionParseError::Time(e)),
        };
        let c = s.get_char(10);
        let pc = if c == 'C' || c == 'c' {
            PutCall::Call
        } else if c == 'P' || c == 'p' {
            PutCall::Put
        } else {
            return Err(OptionParseError::UnknownPutCall(c));
        };
        let rest = s.substring_ascii(11, n);
        assert(rest@ == s@.skip(11));
        let strike = match Price::from_str(rest) {
            Ok(p) => p,
            Err(e) => return Err(OptionParseError::Strike(e)),
        };
        Ok(Option { pc, strike, expiry })
    }
}

} // verus!
