//! Text shown on the matrix: what is written where, in which color and
//! font. Turning the characters into pixels is done by the font renderer of
//! the firmware.

use vstd::prelude::*;

use crate::display::RgbColor;

verus! {

#[derive(Clone, Copy, Debug, PartialEq, Eq)]
pub enum TextFont {
    /// 4x6 pixel glyphs.
    Font4x6,
    /// 5x8 pixel glyphs.
    Font5x8,
}

/// A run of ASCII text whose top-left corner is at `(x, y)`.
#[derive(Clone, Debug, PartialEq, Eq)]
pub struct TextSpan {
    pub text: Vec<u8>,
    pub x: i32,
    pub y: i32,
    pub color: RgbColor,
    pub font: TextFont,
}

/// The ASCII digit of `n % 10`.
pub open spec fn digit_spec(n: u8) -> u8 {
    (48 + n % 10) as u8
}

/// Decimal digits of `n` capped at 999, without leading zeros.
pub open spec fn decimal_spec(n: u16) -> Seq<u8> {
    let v: int = if n > 999 {
        999
    } else {
        n as int
    };
    if v >= 100 {
        seq![(48 + v / 100) as u8, (48 + (v / 10) % 10) as u8, (48 + v % 10) as u8]
    } else if v >= 10 {
        seq![(48 + v / 10) as u8, (48 + v % 10) as u8]
    } else {
        seq![(48 + v) as u8]
    }
}

/// `MM:SS` from two-digit fields.
pub open spec fn mmss_spec(mm: u16, ss: u8) -> Seq<u8> {
    seq![
        digit_spec((mm / 10) as u8),
        digit_spec((mm % 10) as u8),
        58u8,
        digit_spec(ss / 10),
        digit_spec(ss % 10),
    ]
}

pub fn digit(n: u8) -> (d: u8)
    ensures
        d == digit_spec(n),
{
    48u8 + (n % 10)
}

/// Decimal digits of `n`, capped at 999.
pub fn format_u16(n: u16) -> (text: Vec<u8>)
    ensures
        text@ == decimal_spec(n),
{
    let n = if n > 999 {
        999
    } else {
        n
    };
    let mut out: Vec<u8> = Vec::new();
    if n >= 100 {
        out.push(48u8 + (n / 100) as u8);
        out.push(48u8 + ((n / 10) % 10) as u8);
        out.push(48u8 + (n % 10) as u8);
    } else if n >= 10 {
        out.push(48u8 + (n / 10) as u8);
        out.push(48u8 + (n % 10) as u8);
    } else {
        out.push(48u8 + n as u8);
    }
    assert(out@ =~= decimal_spec(n));
    out
}

/// `MM:SS` for the countdown.
pub fn format_mmss(mm: u16, ss: u8) -> (text: [u8; 5])
    ensures
        text@ == mmss_spec(mm, ss),
{
    let text = [digit((mm / 10) as u8), digit((mm % 10) as u8), 58u8, digit(ss / 10), digit(ss % 10)];
    assert(text@ =~= mmss_spec(mm, ss));
    text
}

} // verus!
