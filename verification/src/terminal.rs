//! Terminal Support
//!
//! Utilities to output RGB colors to a terminal

use crate::text::{chars_of, decimal, push_all, push_decimal, string_from_chars};
use vstd::prelude::*;

verus! {

/// Structure wrapping a "color formatter": data shown in an RGB color when
/// colors are on
pub struct ColorFormat<D> {
    data: D,
    red: usize,
    green: usize,
    blue: usize,
}

/// The terminal control code that starts the color `(r, g, b)`
pub open spec fn color_start_text(r: int, g: int, b: int) -> Seq<char> {
    seq!['\x1b', '[', '3', '8', ';', '2', ';'] + decimal(r as nat) + seq![';'] + decimal(g as nat) + seq![';']
        + decimal(b as nat) + seq!['m']
}

/// The terminal control code that resets the color
pub open spec fn color_end_text() -> Seq<char> {
    seq!['\x1b', '[', '0', 'm']
}

impl<D> ColorFormat<D> {
    /// The wrapped data
    pub closed spec fn spec_data(self) -> D {
        self.data
    }

    /// The color, as red, green and blue
    pub closed spec fn spec_rgb(self) -> (usize, usize, usize) {
        (self.red, self.green, self.blue)
    }

    /// Constructs a new formatter with a given color
    pub fn new(data: D, red: usize, green: usize, blue: usize) -> (c: Self)
        ensures
            c.spec_data() == data,
            c.spec_rgb() == (red, green, blue),
    {
        ColorFormat { data, red, green, blue }
    }

    /// Constructs a new white formatter
    pub fn white(data: D) -> (c: Self)
        ensures
            c.spec_data() == data,
            c.spec_rgb() == (250usize, 250usize, 250usize),
    {
        Self::new(data, 250, 250, 250)
    }

    /// Constructs a new pale aqua formatter
    pub fn pale_aqua(data: D) -> (c: Self)
        ensures
            c.spec_data() == data,
            c.spec_rgb() == (110usize, 250usize, 250usize),
    {
        Self::new(data, 110, 250, 250)
    }

    /// Constructs a new pale blue formatter
    pub fn pale_blue(data: D) -> (c: Self)
        ensures
            c.spec_data() == data,
            c.spec_rgb() == (180usize, 180usize, 250usize),
    {
        Self::new(data, 180, 180, 250)
    }

    /// Constructs a new light blue formatter
    pub fn light_blue(data: D) -> (c: Self)
        ensures
            c.spec_data() == data,
            c.spec_rgb() == (64usize, 192usize, 255usize),
    {
        Self::new(data, 64, 192, 255)
    }

    /// Constructs a new light green formatter
    pub fn light_green(data: D) -> (c: Self)
        ensures
            c.spec_data() == data,
            c.spec_rgb() == (80usize, 250usize, 80usize),
    {
        Self::new(data, 80, 250, 80)
    }

    /// Constructs a new light purple formatter
    pub fn light_purple(data: D) -> (c: Self)
        ensures
            c.spec_data() == data,
            c.spec_rgb() == (250usize, 110usize, 250usize),
    {
        Self::new(data, 250, 110, 250)
    }

    /// Constructs a new pale yellow formatter
    pub fn pale_yellow(data: D) -> (c: Self)
        ensures
            c.spec_data() == data,
            c.spec_rgb() == (250usize, 250usize, 180usize),
    {
        Self::new(data, 250, 250, 180)
    }

    /// Constructs a new dull green formatter
    pub fn dull_green(data: D) -> (c: Self)
        ensures
            c.spec_data() == data,
            c.spec_rgb() == (130usize, 220usize, 130usize),
    {
        Self::new(data, 130, 220, 130)
    }

    /// Constructs a new grey formatter
    pub fn grey(data: D) -> (c: Self)
        ensures
            c.spec_data() == data,
            c.spec_rgb() == (160usize, 160usize, 160usize),
    {
        Self::new(data, 160, 160, 160)
    }

    /// Accessor for the wrapped data
    pub fn data(&self) -> (d: &D)
        ensures
            *d == self.spec_data(),
    {
        &self.data
    }

    /// Shows `text` (the display of the wrapped data): in the formatter's
    /// color for the alternate display when colors are on, and unchanged
    /// otherwise (the plain display)
    pub fn render(&self, text: &str, color_on: bool, alternate: bool) -> (r: String)
        ensures
            color_on && alternate ==> r@ == color_start_text(self.spec_rgb().0 as int, self.spec_rgb().1 as int, self.spec_rgb().2 as int) + text@ + color_end_text(),
            !(color_on && alternate) ==> r@ == text@,
    {
        let cs = chars_of(text);
        let mut out: Vec<char> = Vec::new();
        if color_on && alternate {
            out.push('\x1b');
            out.push('[');
            out.push('3');
            out.push('8');
            out.push(';');
            out.push('2');
            out.push(';');
            push_decimal(&mut out, self.red as u128);
            out.push(';');
            push_decimal(&mut out, self.green as u128);
            out.push(';');
            push_decimal(&mut out, self.blue as u128);
            out.push('m');
            push_all(&mut out, &cs);
            out.push('\x1b');
            out.push('[');
            out.push('0');
            out.push('m');
            assert(out@ =~= color_start_text(self.red as int, self.green as int, self.blue as int) + text@ + color_end_text());
        } else {
            push_all(&mut out, &cs);
            assert(out@ =~= text@);
        }
        string_from_chars(&out)
    }
}

} // verus!
