//! CSV
//!
//! Parsing the end-of-year CSV files that LX provides as supporting
//! documentation for its 1099s. From an exercise line, the inputs of LX's
//! price reference are extracted: the exercise date, the strike, the
//! exercise basis, the quantity and whether the option is a call. (The
//! price reference itself is computed from them in floating point, outside
//! this library.)

use crate::text::{chars_eq, chars_of, contains_chars, contains_seq, slice_chars, string_from_chars};
use crate::units::decimal::decimal_parse;
use crate::units::price::{strip_price_noise, Price};
use crate::units::utc_time::valid_timestamp;
use crate::units::UtcTime;
use vstd::prelude::*;

verus! {

/// The scanner state after a prefix of a line: (escaping, outside quotes)
pub open spec fn scan_state(s: Seq<char>, n: int, sep: char) -> (bool, bool)
    decreases n,
{
    if n <= 0 {
        (false, true)
    } else {
        let st = scan_state(s, n - 1, sep);
        let ch = s[n - 1];
        if ch == '\\' {
            (true, st.1)
        } else if !st.0 && ch == '"' {
            (st.0, !st.1)
        } else if st.0 {
            (false, st.1)
        } else {
            st
        }
    }
}

/// Whether the line splits at position `n`: an unescaped separator outside
/// quotes (a backslash escapes the next character; a quote toggles quoting)
pub open spec fn splits_at(s: Seq<char>, n: int, sep: char) -> bool {
    let st = scan_state(s, n, sep);
    &&& 0 <= n < s.len()
    &&& s[n] != '\\'
    &&& s[n] != '"'
    &&& !st.0
    &&& st.1
    &&& s[n] == sep
}

/// The first split position at or after `from`, if any
pub open spec fn first_split(s: Seq<char>, from: int, sep: char) -> Option<int>
    decreases s.len() - from,
{
    if from >= s.len() || from < 0 {
        None
    } else if splits_at(s, from, sep) {
        Some(from)
    } else {
        first_split(s, from + 1, sep)
    }
}

/// The fields of a line: up to each split, the rest after the last one
/// (a trailing separator adds no empty field)
pub open spec fn csv_fields(s: Seq<char>, sep: char) -> Seq<Seq<char>>
    decreases s.len(),
{
    if s.len() == 0 {
        Seq::empty()
    } else {
        match first_split(s, 0, sep) {
            Some(n) => if 0 <= n < s.len() {
                seq![s.take(n)] + csv_fields(s.skip(n + 1), sep)
            } else {
                seq![s]
            },
            None => seq![s],
        }
    }
}

/// The first split position lies in the line and is one
pub proof fn lemma_first_split(s: Seq<char>, from: int, sep: char)
    ensures
        first_split(s, from, sep) matches Some(n) ==> from <= n < s.len() && splits_at(s, n, sep)
            && forall|k: int| from <= k < n ==> !splits_at(s, k, sep),
        first_split(s, from, sep) is None ==> forall|k: int| from <= k < s.len() && 0 <= from ==> !splits_at(s, k, sep),
    decreases s.len() - from,
{
    if from < s.len() && from >= 0 && !splits_at(s, from, sep) {
        lemma_first_split(s, from + 1, sep);
    }
}

/// An iterator over the fields of a CSV string
pub struct CsvIter {
    remaining: Vec<char>,
    sep: char,
}

impl CsvIter {
    /// The characters not yet split off
    pub closed spec fn spec_remaining(self) -> Seq<char> {
        self.remaining@
    }

    /// The separator
    pub closed spec fn spec_sep(self) -> char {
        self.sep
    }

    /// Constructs a new iterator from the given string
    pub fn new(s: &str, sep: char) -> (it: CsvIter)
        ensures
            it.spec_remaining() == s@,
            it.spec_sep() == sep,
    {
        CsvIter { remaining: chars_of(s), sep }
    }

    /// The next field, if any
    pub fn next(&mut self) -> (r: Option<String>)
        ensures
            final(self).spec_sep() == old(self).spec_sep(),
            old(self).spec_remaining().len() == 0 ==> r is None && final(self).spec_remaining().len() == 0,
            old(self).spec_remaining().len() > 0 ==> r is Some && ({
                let s = old(self).spec_remaining();
                let f = r->0@;
                match first_split(s, 0, old(self).spec_sep()) {
                    Some(n) => f == s.take(n) && final(self).spec_remaining() == s.skip(n + 1),
                    None => f == s && final(self).spec_remaining().len() == 0,
                }
            }),
    {
        if self.remaining.len() == 0 {
            return None;
        }
        let ghost s = self.remaining@;
        let sep = self.sep;
        let mut escape = false;
        let mut scanning = true;
        let mut n: usize = 0;
        while n < self.remaining.len()
            invariant
                s == self.remaining@,
                s == old(self).remaining@,
                s.len() > 0,
                sep == self.sep,
                sep == old(self).sep,
                n <= s.len(),
                (escape, scanning) == scan_state(s, n as int, sep),
                first_split(s, 0, sep) == first_split(s, n as int, sep),
            decreases s.len() - n,
        {
            let ch = self.remaining[n];
            if ch == '\\' {
                escape = true;
            } else if !escape && ch == '"' {
                scanning = !scanning;
            } else if !escape && scanning && ch == sep {
                let ret = slice_chars(&self.remaining, 0, n);
                let rest = slice_chars(&self.remaining, n + 1, self.remaining.len());
                self.remaining = rest;
                proof {
                    assert(splits_at(s, n as int, sep));
                    assert(s.take(n as int) =~= s.subrange(0, n as int));
                    assert(s.skip(n + 1) =~= s.subrange(n + 1, s.len() as int));
                }
                return Some(string_from_chars(&ret));
            } else if escape {
                escape = false;
            }
            proof {
                assert(!splits_at(s, n as int, sep));
            }
            n = n + 1;
        }
        let ret = string_from_chars(&self.remaining);
        self.remaining = Vec::new();
        Some(ret)
    }

    /// All the remaining fields
    pub fn collect_fields(&mut self) -> (r: Vec<String>)
        ensures
            r@.map_values(|f: String| f@) == csv_fields(old(self).spec_remaining(), old(self).spec_sep()),
            final(self).spec_remaining().len() == 0,
    {
        let ghost s0 = self.remaining@;
        let ghost sep = self.sep;
        let mut out: Vec<String> = Vec::new();
        assert(out@.map_values(|f: String| f@) + csv_fields(s0, sep) =~= csv_fields(s0, sep));
        while self.remaining.len() > 0
            invariant
                sep == self.sep,
                out@.map_values(|f: String| f@) + csv_fields(self.remaining@, sep) == csv_fields(s0, sep),
            decreases self.remaining@.len(),
        {
            let ghost before = self.remaining@;
            let ghost before_out = out@;
            proof {
                lemma_first_split(before, 0, sep);
            }
            let f = self.next();
            let field = match f {
                Some(x) => x,
                None => {
                    proof { assert(false); }
                    String::new()
                },
            };
            let ghost fv = field@;
            out.push(field);
            proof {
                assert(out@.map_values(|f: String| f@) =~= before_out.map_values(|f: String| f@).push(fv));
                match first_split(before, 0, sep) {
                    Some(n) => {
                        assert(csv_fields(before, sep) == seq![before.take(n)] + csv_fields(before.skip(n + 1), sep));
                        assert(before_out.map_values(|f: String| f@).push(fv) + csv_fields(self.remaining@, sep)
                            =~= before_out.map_values(|f: String| f@) + csv_fields(before, sep));
                    },
                    None => {
                        assert(csv_fields(before, sep) == seq![before]);
                        assert(csv_fields(self.remaining@, sep) =~= Seq::<Seq<char>>::empty());
                        assert(before_out.map_values(|f: String| f@).push(fv) + csv_fields(self.remaining@, sep)
                            =~= before_out.map_values(|f: String| f@) + csv_fields(before, sep));
                    },
                }
            }
        }
        assert(csv_fields(self.remaining@, sep) =~= Seq::<Seq<char>>::empty());
        assert(out@.map_values(|f: String| f@) + Seq::<Seq<char>>::empty() =~= out@.map_values(|f: String| f@));
        out
    }
}

/// A string without its first and last characters (which are expected to
/// be quotes); strings shorter than two characters are kept whole
pub open spec fn trim1_text(s: Seq<char>) -> Seq<char> {
    if s.len() < 2 { s } else { s.subrange(1, s.len() - 1) }
}

/// Drops the first and last character of a string (expected to be quotes).
/// Both are single-byte characters, so that the string can be cut there.
pub fn trim1(s: &str) -> (r: String)
    requires
        s@.len() > 0 ==> (s@[0] as u32) < 128 && (s@.last() as u32) < 128,
    ensures
        r@ == trim1_text(s@),
{
    let cs = chars_of(s);
    if cs.len() < 2 {
        string_from_chars(&cs)
    } else {
        let inner = slice_chars(&cs, 1, cs.len() - 1);
        string_from_chars(&inner)
    }
}

/// Whether `char::is_numeric` holds of a character (it has one of the
/// Unicode general categories for numbers)
pub uninterp spec fn unicode_numeric(c: char) -> bool;

/// The (seconds, nanoseconds) timestamp that the `time` crate parses from an
/// RFC 3339 date-time string, if any
pub uninterp spec fn time_rfc3339(s: Seq<char>) -> Option<(int, int)>;

/// Whether a character is numeric, with `char::is_numeric`.
///
/// Claims of std: the answer depends on the character alone; which
/// characters are numeric is left to the name [unicode_numeric].
#[verifier::external_body]
fn char_is_numeric(c: char) -> (r: bool)
    ensures
        r == unicode_numeric(c),
{
    c.is_numeric()
}

/// Parses an RFC 3339 date-time with the `time` crate's
/// `OffsetDateTime::parse` and the `Rfc3339` format, as a Unix timestamp and
/// its nanoseconds.
///
/// Claims of `time`: the outcome depends on the string alone (the grammar
/// is left to the name [time_rfc3339]).
#[verifier::external_body]
fn time_parse_rfc3339(s: &str) -> (r: Option<(i64, u32)>)
    ensures
        match r {
            Some(t) => time_rfc3339(s@) == Some((t.0 as int, t.1 as int)),
            None => time_rfc3339(s@) is None,
        },
{
    match time::OffsetDateTime::parse(s, &time::format_description::well_known::Rfc3339) {
        Ok(d) => Some((d.unix_timestamp(), d.nanosecond())),
        Err(_) => None,
    }
}

/// Whether every character of a string is numeric
pub open spec fn all_numeric(s: Seq<char>) -> bool {
    forall|i: int| 0 <= i < s.len() ==> unicode_numeric(#[trigger] s[i])
}

/// The timestamp of an exercise date, if it parses and is in range
pub open spec fn exercise_date(s: Seq<char>) -> Option<(int, int)> {
    match time_rfc3339(s) {
        Some(t) => if valid_timestamp(t.0, t.1) { Some(t) } else { None },
        None => None,
    }
}

/// The characters of a quantity without commas and quotes
pub open spec fn strip_quantity_noise(s: Seq<char>) -> Seq<char>
    decreases s.len(),
{
    if s.len() == 0 {
        s
    } else {
        let rest = strip_quantity_noise(s.drop_last());
        if s.last() == ',' || s.last() == '"' { rest } else { rest.push(s.last()) }
    }
}

/// Why a line of an LX tax CSV gives no price reference
#[derive(Clone, Copy, Debug, PartialEq, Eq, Structural)]
pub enum PriceRefError {
    /// The line has this many fields rather than ten
    FieldCount(usize),
    /// The description of a 2021 exercise has this many words rather than six
    DescriptionFields(usize),
    /// The quantity does not parse
    Quantity,
    /// The strike does not parse
    Strike,
    /// The exercise date does not parse
    Date,
    /// The exercise basis does not parse
    Basis,
    /// The contract of a 2022 exercise has no strike part
    NoStrike,
}

/// The inputs of a price reference read from an exercise line: the
/// exercise date, the strike, the exercise basis, the number of contracts
/// (a decimal, as mantissa and scale) and whether the option is a call.
/// The reference is the strike plus (for a call) or minus (for a put) the
/// basis of one hundred contracts.
#[derive(Clone, Copy, Debug)]
pub struct PriceRefParts {
    pub date: UtcTime,
    pub strike: Price,
    pub basis: Price,
    pub quantity: (i128, u32),
    pub is_call: bool,
}

/// The parts of a price reference as plain values: (date, strike, basis,
/// quantity, whether a call)
pub type RefTuple = ((int, int), (int, int), (int, int), (int, int), bool);

/// The plain values of parts of a price reference
pub open spec fn parts_tuple(p: PriceRefParts) -> RefTuple {
    (
        (p.date.spec_secs(), p.date.spec_nanos()),
        (p.strike.mant(), p.strike.scl()),
        (p.basis.mant(), p.basis.scl()),
        (p.quantity.0 as int, p.quantity.1 as int),
        p.is_call,
    )
}

/// The plain values of the outcome of reading a line
pub open spec fn outcome_tuple(r: Result<Option<PriceRefParts>, PriceRefError>) -> Result<Option<RefTuple>, PriceRefError> {
    match r {
        Ok(Some(p)) => Ok(Some(parts_tuple(p))),
        Ok(None) => Ok(None),
        Err(e) => Err(e),
    }
}

/// The text "Exercised"
pub open spec fn exercised_text() -> Seq<char> {
    seq!['E', 'x', 'e', 'r', 'c', 'i', 's', 'e', 'd']
}

/// The text "Call"
pub open spec fn call_text() -> Seq<char> {
    seq!['C', 'a', 'l', 'l']
}

/// The text that marks an option exercise in the 2022 files
pub open spec fn exercise_2022_text() -> Seq<char> {
    seq!['E', 'x', 'e', 'r', 'c', 'i', 's', 'e', ' ', '-', ' ', '1', '2', '5', '6', ' ', 'O', 'p', 't', 'i', 'o', 'n', ' ', '-']
}

/// The text "BTC"
pub open spec fn btc_text() -> Seq<char> {
    seq!['B', 'T', 'C']
}

/// The price reference inputs of a line of the 2021 file (with ten fields):
/// only exercises give one; the quantity, strike and call/put are read from
/// the quoted description ("6, BTC Mini 2021-07-16 Put $32,000.00")
pub open spec fn ref_2021(f: Seq<Seq<char>>) -> Result<Option<RefTuple>, PriceRefError> {
    if f[0] != exercised_text() {
        Ok(None)
    } else {
        let desc = csv_fields(trim1_text(f[1]), ' ');
        if desc.len() != 6 {
            Err(PriceRefError::DescriptionFields(desc.len() as usize))
        } else {
            match decimal_parse(desc[0].drop_last()) {
                None => Err(PriceRefError::Quantity),
                Some(q) => match decimal_parse(strip_price_noise(desc[5])) {
                    None => Err(PriceRefError::Strike),
                    Some(k) => match exercise_date(f[2]) {
                        None => Err(PriceRefError::Date),
                        Some(d) => match decimal_parse(strip_price_noise(f[5])) {
                            None => Err(PriceRefError::Basis),
                            Some(b) => Ok(Some((d, k, b, q, contains_seq(f[1], call_text())))),
                        },
                    },
                },
            }
        }
    }
}

/// The price reference inputs of a line of the 2022 file (with ten
/// fields): only exercises of options give one; the strike is the fourth
/// part of the contract name ("BTC-Mini-04FEB2022-40000-Call")
pub open spec fn ref_2022(f: Seq<Seq<char>>) -> Result<Option<RefTuple>, PriceRefError> {
    if !contains_seq(f[1], exercise_2022_text()) {
        Ok(None)
    } else if f[3] == btc_text() {
        Ok(None)
    } else {
        match decimal_parse(strip_quantity_noise(f[2])) {
            None => Err(PriceRefError::Quantity),
            Some(q) => match exercise_date(f[4]) {
                None => Err(PriceRefError::Date),
                Some(d) => match decimal_parse(strip_price_noise(f[7])) {
                    None => Err(PriceRefError::Basis),
                    Some(b) => {
                        let parts = csv_fields(f[3], '-');
                        if parts.len() < 4 {
                            Err(PriceRefError::NoStrike)
                        } else {
                            match decimal_parse(strip_price_noise(parts[3])) {
                                None => Err(PriceRefError::Strike),
                                Some(k) => Ok(Some((d, k, b, q, contains_seq(f[3], call_text())))),
                            }
                        }
                    },
                },
            },
        }
    }
}

/// The price reference inputs of a line of an LX tax CSV: a line has ten
/// fields; a numeric first field (a user ID) marks the 2022 format
pub open spec fn price_ref_outcome(s: Seq<char>) -> Result<Option<RefTuple>, PriceRefError> {
    let f = csv_fields(s, ',');
    if f.len() != 10 {
        Err(PriceRefError::FieldCount(f.len() as usize))
    } else if all_numeric(f[0]) {
        ref_2022(f)
    } else {
        ref_2021(f)
    }
}

/// Whether reading a line cannot panic: in a 2021 exercise line the
/// description is quoted with single-byte characters, and its first word
/// (the quantity and a comma) ends in one
pub open spec fn price_ref_safe(s: Seq<char>) -> bool {
    let f = csv_fields(s, ',');
    f.len() == 10 && f[0] == exercised_text() ==> {
        &&& f[1].len() > 0 ==> (f[1][0] as u32) < 128 && (f[1].last() as u32) < 128
        &&& ({
            let desc = csv_fields(trim1_text(f[1]), ' ');
            desc.len() == 6 ==> desc[0].len() > 0 && (desc[0].last() as u32) < 128
        })
    }
}

/// Whether every character of a string is numeric
fn is_all_numeric(s: &str) -> (b: bool)
    ensures
        b == all_numeric(s@),
{
    let cs = chars_of(s);
    let mut i: usize = 0;
    while i < cs.len()
        invariant
            i <= cs@.len(),
            cs@ == s@,
            forall|j: int| 0 <= j < i ==> unicode_numeric(#[trigger] cs@[j]),
        decreases cs@.len() - i,
    {
        if !char_is_numeric(cs[i]) {
            return false;
        }
        i = i + 1;
    }
    true
}

/// Parses an exercise date, in range
fn parse_exercise_date(s: &str) -> (r: Option<UtcTime>)
    ensures
        match r {
            Some(t) => exercise_date(s@) == Some((t.spec_secs(), t.spec_nanos())),
            None => exercise_date(s@) is None,
        },
{
    match time_parse_rfc3339(s) {
        Some((secs, nanos)) => UtcTime::from_parts(secs, nanos),
        None => None,
    }
}

/// Whether a string equals a text given as characters
fn str_is(s: &str, text: &str) -> (b: bool)
    ensures
        b == (s@ == text@),
{
    chars_eq(&chars_of(s), &chars_of(text))
}

/// Whether a text occurs in a string
fn str_contains(s: &str, text: &str) -> (b: bool)
    ensures
        b == contains_seq(s@, text@),
{
    contains_chars(&chars_of(s), &chars_of(text))
}

/// Whether a line can be read without a panic (see [price_ref])
pub fn price_ref_can_read(s: &str) -> (b: bool)
    ensures
        b == price_ref_safe(s@),
{
    let fields = CsvIter::new(s, ',').collect_fields();
    proof {
        assert(fields@.len() == csv_fields(s@, ',').len());
        assert forall|i: int| 0 <= i < fields@.len() implies #[trigger] fields@[i]@ == csv_fields(s@, ',')[i] by {
            assert(fields@.map_values(|f: String| f@)[i] == fields@[i]@);
        }
        reveal_strlit("Exercised");
        assert("Exercised"@ =~= exercised_text());
    }
    if fields.len() != 10 || !str_is(fields[0].as_str(), "Exercised") {
        return true;
    }
    let desc_text = chars_of(fields[1].as_str());
    if desc_text.len() > 0 && ((desc_text[0] as u32) >= 128 || (desc_text[desc_text.len() - 1] as u32) >= 128) {
        return false;
    }
    let desc = CsvIter::new(trim1(fields[1].as_str()).as_str(), ' ').collect_fields();
    let ghost d = csv_fields(trim1_text(fields@[1]@), ' ');
    proof {
        assert(desc@.len() == d.len());
        assert forall|i: int| 0 <= i < desc@.len() implies #[trigger] desc@[i]@ == d[i] by {
            assert(desc@.map_values(|x: String| x@)[i] == desc@[i]@);
        }
    }
    if desc.len() != 6 {
        return true;
    }
    let first = chars_of(desc[0].as_str());
    first.len() > 0 && (first[first.len() - 1] as u32) < 128
}

/// Reads the price reference inputs of an exercise line of an LX tax CSV
/// (2021 or 2022 format). Lines that are not exercises give none; a line
/// that does not parse gives the reason.
pub fn price_ref(s: &str) -> (r: Result<Option<PriceRefParts>, PriceRefError>)
    requires
        price_ref_safe(s@),
    ensures
        outcome_tuple(r) == price_ref_outcome(s@),
{
    let fields = CsvIter::new(s, ',').collect_fields();
    proof {
        assert(fields@.len() == csv_fields(s@, ',').len());
        assert forall|i: int| 0 <= i < fields@.len() implies #[trigger] fields@[i]@ == csv_fields(s@, ',')[i] by {
            assert(fields@.map_values(|f: String| f@)[i] == fields@[i]@);
        }
    }
    if fields.len() != 10 {
        return Err(PriceRefError::FieldCount(fields.len()));
    }
    if is_all_numeric(fields[0].as_str()) {
        price_ref_2022(&fields)
    } else {
        price_ref_2021(&fields)
    }
}

/// Reads a line of the 2021 file, given its ten fields
fn price_ref_2021(fields: &Vec<String>) -> (r: Result<Option<PriceRefParts>, PriceRefError>)
    requires
        fields@.len() == 10,
        ({
            let f = fields@.map_values(|x: String| x@);
            f[0] == exercised_text() ==> {
                &&& f[1].len() > 0 ==> (f[1][0] as u32) < 128 && (f[1].last() as u32) < 128
                &&& ({
                    let desc = csv_fields(trim1_text(f[1]), ' ');
                    desc.len() == 6 ==> desc[0].len() > 0 && (desc[0].last() as u32) < 128
                })
            }
        }),
    ensures
        outcome_tuple(r) == ref_2021(fields@.map_values(|x: String| x@)),
{
    let ghost f = fields@.map_values(|x: String| x@);
    assert(f[0] == fields@[0]@ && f[1] == fields@[1]@ && f[2] == fields@[2]@ && f[5] == fields@[5]@);
    proof {
        reveal_strlit("Exercised");
        reveal_strlit("Call");
        assert("Exercised"@ =~= exercised_text());
        assert("Call"@ =~= call_text());
    }
    if !str_is(fields[0].as_str(), "Exercised") {
        return Ok(None);
    }
    let desc = CsvIter::new(trim1(fields[1].as_str()).as_str(), ' ').collect_fields();
    let ghost d = csv_fields(trim1_text(f[1]), ' ');
    proof {
        assert(desc@.len() == d.len());
        assert forall|i: int| 0 <= i < desc@.len() implies #[trigger] desc@[i]@ == d[i] by {
            assert(desc@.map_values(|x: String| x@)[i] == desc@[i]@);
        }
    }
    if desc.len() != 6 {
        return Err(PriceRefError::DescriptionFields(desc.len()));
    }
    let q_chars = chars_of(desc[0].as_str());
    let q_text = string_from_chars(&slice_chars(&q_chars, 0, q_chars.len() - 1));
    assert(q_text@ == d[0].drop_last());
    let qty = match crate::units::decimal::dec_parse(q_text.as_str()) {
        Ok(v) => v,
        Err(_) => return Err(PriceRefError::Quantity),
    };
    let strike = match Price::from_str(desc[5].as_str()) {
        Ok(p) => p,
        Err(_) => return Err(PriceRefError::Strike),
    };
    let date = match parse_exercise_date(fields[2].as_str()) {
        Some(t) => t,
        None => return Err(PriceRefError::Date),
    };
    let basis = match Price::from_str(fields[5].as_str()) {
        Ok(p) => p,
        Err(_) => return Err(PriceRefError::Basis),
    };
    let is_call = str_contains(fields[1].as_str(), "Call");
    Ok(Some(PriceRefParts { date, strike, basis, quantity: qty, is_call }))
}

/// Reads a line of the 2022 file, given its ten fields
fn price_ref_2022(fields: &Vec<String>) -> (r: Result<Option<PriceRefParts>, PriceRefError>)
    requires
        fields@.len() == 10,
    ensures
        outcome_tuple(r) == ref_2022(fields@.map_values(|x: String| x@)),
{
    let ghost f = fields@.map_values(|x: String| x@);
    assert(f[1] == fields@[1]@ && f[2] == fields@[2]@ && f[3] == fields@[3]@ && f[4] == fields@[4]@ && f[7] == fields@[7]@);
    proof {
        reveal_strlit("Exercise - 1256 Option -");
        reveal_strlit("BTC");
        reveal_strlit("Call");
        assert("Exercise - 1256 Option -"@ =~= exercise_2022_text());
        assert("BTC"@ =~= btc_text());
        assert("Call"@ =~= call_text());
    }
    if !str_contains(fields[1].as_str(), "Exercise - 1256 Option -") {
        return Ok(None);
    }
    if str_is(fields[3].as_str(), "BTC") {
        return Ok(None);
    }
    let q_chars = chars_of(fields[2].as_str());
    let mut kept: Vec<char> = Vec::new();
    let mut i: usize = 0;
    while i < q_chars.len()
        invariant
            i <= q_chars@.len(),
            q_chars@ == f[2],
            kept@ == strip_quantity_noise(q_chars@.take(i as int)),
        decreases q_chars@.len() - i,
    {
        proof {
            assert(q_chars@.take(i + 1).drop_last() =~= q_chars@.take(i as int));
        }
        let c = q_chars[i];
        if c != ',' && c != '"' {
            kept.push(c);
        }
        i = i + 1;
    }
    assert(q_chars@.take(q_chars@.len() as int) =~= q_chars@);
    let q_text = string_from_chars(&kept);
    let qty = match crate::units::decimal::dec_parse(q_text.as_str()) {
        Ok(v) => v,
        Err(_) => return Err(PriceRefError::Quantity),
    };
    let date = match parse_exercise_date(fields[4].as_str()) {
        Some(t) => t,
        None => return Err(PriceRefError::Date),
    };
    let basis = match Price::from_str(fields[7].as_str()) {
        Ok(p) => p,
        Err(_) => return Err(PriceRefError::Basis),
    };
    let parts = CsvIter::new(fields[3].as_str(), '-').collect_fields();
    let ghost ps = csv_fields(f[3], '-');
    proof {
        assert(parts@.len() == ps.len());
        assert forall|j: int| 0 <= j < parts@.len() implies #[trigger] parts@[j]@ == ps[j] by {
            assert(parts@.map_values(|x: String| x@)[j] == parts@[j]@);
        }
    }
    if parts.len() < 4 {
        return Err(PriceRefError::NoStrike);
    }
    let strike = match Price::from_str(parts[3].as_str()) {
        Ok(p) => p,
        Err(_) => return Err(PriceRefError::Strike),
    };
    let is_call = str_contains(fields[3].as_str(), "Call");
    Ok(Some(PriceRefParts { date, strike, basis, quantity: qty, is_call }))
}

impl PriceRefParts {
    /// The price reference, given the basis of one hundred contracts: the
    /// strike plus that basis for a call, minus it for a put
    pub fn btc_price(&self, scaled_basis: Price) -> (p: Price)
        requires
            self.is_call ==> self.strike.can_add(scaled_basis),
            !self.is_call ==> self.strike.can_sub(scaled_basis),
        ensures
            self.is_call ==> p == Price::of_parts(crate::units::decimal::decimal_add(
                self.strike.mant(), self.strike.scl(), scaled_basis.mant(), scaled_basis.scl())),
            !self.is_call ==> p == Price::of_parts(crate::units::decimal::decimal_sub(
                self.strike.mant(), self.strike.scl(), scaled_basis.mant(), scaled_basis.scl())),
    {
        if self.is_call {
            self.strike.add(&scaled_basis)
        } else {
            self.strike.sub(&scaled_basis)
        }
    }
}

} // verus!
