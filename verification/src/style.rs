//! Colors and the stroke/fill style enumerations of the vector model.

use vstd::prelude::*;
use crate::text_util::push_char;

verus! {

/// Opaque RGB color (classic EMF pens/brushes carry no alpha).
#[derive(Debug, Clone, Copy, PartialEq, Eq, Structural, Hash, Default)]
pub struct Rgb {
    pub r: u8,
    pub g: u8,
    pub b: u8,
}

/// The lowercase hexadecimal digit for `v` (below 16).
pub open spec fn hex_digit(v: int) -> char {
    if v < 10 {
        (48 + v) as char
    } else {
        (87 + v) as char
    }
}

/// Two lowercase hexadecimal digits for a byte.
pub open spec fn hex_byte(v: u8) -> Seq<char> {
    seq![hex_digit((v / 16) as int), hex_digit((v % 16) as int)]
}

impl Rgb {
    pub fn new(r: u8, g: u8, b: u8) -> (c: Self)
        ensures
            c == (Rgb { r, g, b }),
    {
        Rgb { r, g, b }
    }

    /// `#rrggbb`, lowercase.
    pub open spec fn spec_hex(self) -> Seq<char> {
        seq!['#'] + hex_byte(self.r) + hex_byte(self.g) + hex_byte(self.b)
    }

    /// Format as `#rrggbb`.
    pub fn to_hex(self) -> (s: String)
        ensures
            s@ == self.spec_hex(),
    {
        let mut s = String::new();
        push_char(&mut s, '#');
        push_hex_byte(&mut s, self.r);
        push_hex_byte(&mut s, self.g);
        push_hex_byte(&mut s, self.b);
        assert(s@ =~= self.spec_hex());
        s
    }
}

fn hex_char(v: u8) -> (c: char)
    requires
        v < 16,
    ensures
        c == hex_digit(v as int),
{
    // '0' is 48 and 'a' is 97.
    if v < 10 {
        (48 + v) as char
    } else {
        (87 + v) as char
    }
}

fn push_hex_byte(s: &mut String, v: u8)
    ensures
        final(s)@ == old(s)@ + hex_byte(v),
{
    push_char(s, hex_char(v / 16));
    push_char(s, hex_char(v % 16));
    assert(s@ =~= old(s)@ + hex_byte(v));
}

#[derive(Debug, Clone, Copy, PartialEq, Eq, Structural, Hash, Default)]
pub enum LineCap {
    #[default]
    Flat,
    Round,
    Square,
}

#[derive(Debug, Clone, Copy, PartialEq, Eq, Structural, Hash, Default)]
pub enum LineJoin {
    #[default]
    Miter,
    Round,
    Bevel,
}

#[derive(Debug, Clone, Copy, PartialEq, Eq, Structural, Hash, Default)]
pub enum FillRule {
    #[default]
    NonZero,
    EvenOdd,
}

/// Horizontal alignment of a text run relative to its anchor point.
#[derive(Debug, Clone, Copy, PartialEq, Eq, Structural)]
pub enum Anchor {
    Start,
    Middle,
    End,
}

} // verus!
