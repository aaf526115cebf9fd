use vstd::prelude::*;
use vstd::string::*;

verus! {

/// A colour with one byte per channel, as handed to an image encoder.
#[derive(Clone, Copy, Debug, Default, PartialEq, Eq, Structural, Hash, PartialOrd, Ord)]
pub struct Rgb {
    pub r: u8,
    pub g: u8,
    pub b: u8,
}

/// The lower-case hexadecimal digits, in order of value.
pub open spec fn hex_digits() -> Seq<char> {
    seq!['0', '1', '2', '3', '4', '5', '6', '7', '8', '9', 'a', 'b', 'c', 'd', 'e', 'f']
}

/// Two lower-case hexadecimal digits for one byte, most significant first.
pub open spec fn hex_byte(v: u8) -> Seq<char> {
    seq![hex_digits()[v as int / 16], hex_digits()[v as int % 16]]
}

/// The text form of a colour: `0x` followed by two digits per channel.
pub open spec fn rgb_text(c: Rgb) -> Seq<char> {
    seq!['0', 'x'] + hex_byte(c.r) + hex_byte(c.g) + hex_byte(c.b)
}

/// One hexadecimal digit as a string.
fn hex_digit(d: u8) -> (s: &'static str)
    requires
        d < 16,
    ensures
        s@ == seq![hex_digits()[d as int]],
{
    let digits = "0123456789abcdef";
    proof {
        reveal_strlit("0123456789abcdef");
    }
    assert(digits@ =~= hex_digits());
    assert(digits.is_ascii());
    let s = digits.substring_ascii(d as usize, d as usize + 1);
    assert(s@ =~= seq![hex_digits()[d as int]]);
    s
}

impl Rgb {
    pub fn new(r: u8, g: u8, b: u8) -> (c: Rgb)
        ensures
            c == (Rgb { r, g, b }),
    {
        Rgb { r, g, b }
    }

    /// Reads a colour written as `0xRRGGBB`; bits above the lowest 24 are ignored.
    pub fn from_hex(hex: u32) -> (c: Rgb)
        ensures
            c.r == (hex / 0x10000) % 0x100,
            c.g == (hex / 0x100) % 0x100,
            c.b == hex % 0x100,
    {
        assert(((hex >> 16u32) & 0xff) == (hex / 0x10000) % 0x100) by (bit_vector);
        assert(((hex >> 8u32) & 0xff) == (hex / 0x100) % 0x100) by (bit_vector);
        assert((hex & 0xff) == hex % 0x100) by (bit_vector);
        let r = ((hex >> 16u32) & 0xff) as u8;
        let g = ((hex >> 8u32) & 0xff) as u8;
        let b = (hex & 0xff) as u8;
        Rgb { r, g, b }
    }

    pub fn to_u8_array(&self) -> (a: [u8; 3])
        ensures
            a@ == seq![self.r, self.g, self.b],
    {
        let a = [self.r, self.g, self.b];
        assert(a@ =~= seq![self.r, self.g, self.b]);
        a
    }

    /// The colour as text, `0x` and two lower-case hexadecimal digits per channel.
    pub fn to_string(&self) -> (s: String)
        ensures
            s@ == rgb_text(*self),
    {
        let mut s = String::from_str("0x");
        proof {
            reveal_strlit("0x");
        }
        s.append(hex_digit(self.r / 16));
        s.append(hex_digit(self.r % 16));
        s.append(hex_digit(self.g / 16));
        s.append(hex_digit(self.g % 16));
        s.append(hex_digit(self.b / 16));
        s.append(hex_digit(self.b % 16));
        assert(s@ =~= rgb_text(*self));
        s
    }
}

} // verus!
