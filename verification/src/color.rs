//! Colours of the palette: four bytes each, written down as `#rrggbb` text.

use vstd::prelude::*;

verus! {

/// A colour as red, green, blue and alpha bytes.
#[derive(Clone, Copy, Debug, PartialEq, Eq, Structural)]
pub struct Rgba {
    pub r: u8,
    pub g: u8,
    pub b: u8,
    pub a: u8,
}

/// Whether `c` is one of `0-9`, `a-f`, `A-F`.
pub open spec fn is_hex_digit(c: char) -> bool {
    ||| '0' <= c <= '9'
    ||| 'a' <= c <= 'f'
    ||| 'A' <= c <= 'F'
}

/// The number that a hexadecimal digit stands for.
pub open spec fn hex_digit_value(c: char) -> int
    recommends
        is_hex_digit(c),
{
    if '0' <= c <= '9' {
        c as int - '0' as int
    } else if 'a' <= c <= 'f' {
        c as int - 'a' as int + 10
    } else {
        c as int - 'A' as int + 10
    }
}

/// The byte written as the two hexadecimal digits `hi` and `lo`.
pub open spec fn hex_pair_value(hi: char, lo: char) -> u8 {
    (hex_digit_value(hi) * 16 + hex_digit_value(lo)) as u8
}

/// Whether `text` has the form `#rrggbb`: a hash and six hexadecimal digits.
pub open spec fn is_rrggbb(text: Seq<char>) -> bool {
    &&& text.len() == 7
    &&& text[0] == '#'
    &&& forall|i: int| 1 <= i < 7 ==> is_hex_digit(#[trigger] text[i])
}

/// The opaque colour that a text of the form `#rrggbb` names.
pub open spec fn rrggbb_color(text: Seq<char>) -> Rgba
    recommends
        is_rrggbb(text),
{
    Rgba {
        r: hex_pair_value(text[1], text[2]),
        g: hex_pair_value(text[3], text[4]),
        b: hex_pair_value(text[5], text[6]),
        a: 255,
    }
}

/// Parses a colour with `egui::Color32::from_hex`.
///
/// Trusted: for a hash followed by six hexadecimal digits the call succeeds
/// and yields the three bytes that the digit pairs spell, fully opaque.
/// Nothing is claimed of any other text.
#[verifier::external_body]
pub(crate) fn parse_hex_color(text: &str) -> (color: Option<Rgba>)
    ensures
        is_rrggbb(text@) ==> color == Some(rrggbb_color(text@)),
{
    egui::Color32::from_hex(text).ok().map(|c| Rgba { r: c.r(), g: c.g(), b: c.b(), a: c.a() })
}

} // verus!
