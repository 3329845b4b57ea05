use vstd::prelude::*;

use vstd::arithmetic::div_mod::{lemma_div_is_ordered, lemma_div_pos_is_pos};

use crate::color::spec_cube_index;
use crate::hex::{parse_hex_digit, spec_all_hex, spec_hex_digit_value, spec_hex_value, Hex};

verus! {

/// The zone a palette index falls in, recorded beside the raw index.
#[derive(Debug, Clone, Copy, PartialEq, Eq, Structural)]
pub enum Zone {
    System(u32),
    Cube(u32),
    Grayscale(u32),
}

/// The zone is fully determined by the index value: 0..=15 system,
/// 16..=231 cube, 232..=255 greyscale. The recorded zone is derived from
/// the index and never disagrees with it.
pub open spec fn spec_zone_of(code: int) -> Zone {
    if code <= 15 {
        Zone::System(code as u32)
    } else if code >= 232 {
        Zone::Grayscale(code as u32)
    } else {
        Zone::Cube(code as u32)
    }
}

/// A quantized triple, recorded by zone alone.
#[derive(Debug, Clone, Copy, PartialEq, Eq, Structural)]
pub struct C256(pub Zone);

impl C256 {
    /// Quantize a triple: each channel maps to a 0..=5 level by integer
    /// division by 51 (the linear map taking 0 to level 0 and 255 to
    /// level 5), and the levels combine base 6 above the cube floor of 16.
    /// The quantized index always lands in the cube zone.
    pub fn rgb(r: u32, g: u32, b: u32) -> (c: C256)
        requires
            r <= 255,
            g <= 255,
            b <= 255,
        ensures
            c.0 == spec_zone_of(spec_cube_index(r as int, g as int, b as int)),
            c.0 == Zone::Cube(spec_cube_index(r as int, g as int, b as int) as u32),
    {
        proof {
            lemma_div_pos_is_pos(r as int, 51);
            lemma_div_pos_is_pos(g as int, 51);
            lemma_div_pos_is_pos(b as int, 51);
            lemma_div_is_ordered(r as int, 255, 51);
            lemma_div_is_ordered(g as int, 255, 51);
            lemma_div_is_ordered(b as int, 255, 51);
        }
        let r8 = r / 51;
        let g8 = g / 51;
        let b8 = b / 51;
        let ansi = r8 * 36 + g8 * 6 + b8 + 16;
        C256(Zone::Cube(ansi))
    }
}

/// A quantized triple: the raw palette index paired with the zone derived
/// from it.
#[derive(Debug, Clone, Copy, PartialEq, Eq, Structural)]
pub struct XTerm(pub u32, pub Zone);

impl XTerm {
    /// Quantize a triple as `C256::rgb` does, keeping the raw index
    /// beside the zone derived from it.
    pub fn rgb(r: u32, g: u32, b: u32) -> (x: XTerm)
        requires
            r <= 255,
            g <= 255,
            b <= 255,
        ensures
            x.0 as int == spec_cube_index(r as int, g as int, b as int),
            x.1 == spec_zone_of(x.0 as int),
            x.1 == Zone::Cube(x.0),
    {
        proof {
            lemma_div_pos_is_pos(r as int, 51);
            lemma_div_pos_is_pos(g as int, 51);
            lemma_div_pos_is_pos(b as int, 51);
            lemma_div_is_ordered(r as int, 255, 51);
            lemma_div_is_ordered(g as int, 255, 51);
            lemma_div_is_ordered(b as int, 255, 51);
        }
        let r8 = r / 51;
        let g8 = g / 51;
        let b8 = b / 51;
        let ansi = r8 * 36 + g8 * 6 + b8 + 16;
        XTerm(ansi, Zone::Cube(ansi))
    }

    /// Quantize the triple held by a split hexadecimal string. Each group
    /// must hold exactly two hexadecimal digits, which `Hex::from_hex`
    /// guarantees of every value it returns.
    pub fn from_hex(h: &Hex) -> (x: XTerm)
        requires
            h.spec_red().len() == 2,
            h.spec_green().len() == 2,
            h.spec_blue().len() == 2,
            spec_all_hex(h.spec_red()),
            spec_all_hex(h.spec_green()),
            spec_all_hex(h.spec_blue()),
        ensures
            x.0 as int == spec_cube_index(
                spec_hex_value(h.spec_red()),
                spec_hex_value(h.spec_green()),
                spec_hex_value(h.spec_blue()),
            ),
            x.1 == spec_zone_of(x.0 as int),
            x.1 == Zone::Cube(x.0),
    {
        let (rs, gs, bs) = h.raw();
        let r = parse_pair(rs);
        let g = parse_pair(gs);
        let b = parse_pair(bs);
        XTerm::rgb(r, g, b)
    }
}

/// Numeric value of a two-digit hexadecimal group.
fn parse_pair(s: &str) -> (v: u32)
    requires
        s@.len() == 2,
        spec_all_hex(s@),
    ensures
        v as int == spec_hex_value(s@),
        v <= 255,
{
    let c0 = s.get_char(0);
    let c1 = s.get_char(1);
    let d0 = parse_hex_digit(c0).unwrap();
    let d1 = parse_hex_digit(c1).unwrap();
    proof {
        assert(s@.last() == s@[1]);
        assert(s@.drop_last() =~= s@.subrange(0, 1));
        assert(s@.subrange(0, 1).last() == s@[0]);
        assert(s@.subrange(0, 1).drop_last() =~= s@.subrange(0, 0));
        assert(spec_hex_value(s@.subrange(0, 0)) == 0);
        assert(spec_hex_value(s@.subrange(0, 1)) == spec_hex_digit_value(s@[0]));
    }
    (d0 as u32) * 16 + (d1 as u32)
}

} // verus!
