//! CSV
//!
//! Basic support for printing data in comma-separated-value format

use crate::text::{chars_of, contains_char, push_all, string_from_chars};
use vstd::prelude::*;

verus! {

/// Objects that can be printed as one or more CSV cells
pub trait PrintCsv {
    /// Whether the object can be printed (its numbers are in range)
    spec fn can_print(&self) -> bool;

    /// The text of the object in a CSV row
    spec fn csv_text(&self) -> Seq<char>;

    /// Prints the object in CSV format
    fn print(&self) -> (r: String)
        requires
            self.can_print(),
        ensures
            r@ == self.csv_text(),
    ;
}

/// Wrapper around a [PrintCsv] object, for output
pub struct CsvPrinter<P: PrintCsv>(pub P);

impl<P: PrintCsv> CsvPrinter<P> {
    /// The CSV text of the wrapped object
    pub fn to_display_string(&self) -> (r: String)
        requires
            self.0.can_print(),
        ensures
            r@ == self.0.csv_text(),
    {
        self.0.print()
    }
}

/// A string as a CSV cell: quoted when it contains a comma
pub open spec fn csv_escape(s: Seq<char>) -> Seq<char> {
    if s.contains(',') {
        seq!['"'] + s + seq!['"']
    } else {
        s
    }
}

/// Appends a string as a CSV cell, quoted when it contains a comma
pub fn push_escaped(out: &mut Vec<char>, s: &Vec<char>)
    ensures
        final(out)@ == old(out)@ + csv_escape(s@),
{
    if contains_char(s, ',') {
        out.push('"');
        push_all(out, s);
        out.push('"');
        assert(out@ == old(out)@ + (seq!['"'] + s@ + seq!['"']));
    } else {
        push_all(out, s);
    }
}

/// A string as a CSV cell, quoted when it contains a comma
pub fn escape_str(s: &str) -> (r: String)
    ensures
        r@ == csv_escape(s@),
{
    let cs = chars_of(s);
    let mut out: Vec<char> = Vec::new();
    push_escaped(&mut out, &cs);
    assert(out@ == Seq::<char>::empty() + csv_escape(s@));
    string_from_chars(&out)
}

} // verus!
