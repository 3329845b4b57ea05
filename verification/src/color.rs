use vstd::prelude::*;

use vstd::arithmetic::div_mod::{
    lemma_div_denominator, lemma_div_is_ordered, lemma_div_pos_is_pos, lemma_fundamental_div_mod,
    lemma_fundamental_div_mod_converse, lemma_mod_bound, lemma_mod_breakdown,
};

use crate::error::Error;
use crate::hex::{
    lemma_hex_value_fits, parse_hex_digit, spec_all_hex, spec_hex_char, spec_hex_digit_value,
    spec_hex_value, spec_is_hex_digit, spec_lower_hex_char, spec_stripped,
};

verus! {

// ----------------------------------------------------------------------------
// Packed 24-bit representation
// ----------------------------------------------------------------------------

/// Three channels packed into one integer: red in bits 16..24, green in
/// bits 8..16, blue in bits 0..8.
pub open spec fn spec_pack(r: int, g: int, b: int) -> int {
    r * 0x10000 + g * 0x100 + b
}

/// Red channel of a packed value.
pub open spec fn spec_unpack_red(v: int) -> int {
    v / 0x10000
}

/// Green channel of a packed value.
pub open spec fn spec_unpack_green(v: int) -> int {
    (v / 0x100) % 0x100
}

/// Blue channel of a packed value.
pub open spec fn spec_unpack_blue(v: int) -> int {
    v % 0x100
}

/// Packing the channels extracted from a value in [0, 0xFFFFFF] gives the
/// value back: unpacking loses nothing.
pub proof fn lemma_packed_round_trip(v: int)
    requires
        0 <= v <= 0xFFFFFF,
    ensures
        spec_pack(spec_unpack_red(v), spec_unpack_green(v), spec_unpack_blue(v)) == v,
{
    lemma_fundamental_div_mod(v, 0x10000);
    lemma_mod_breakdown(v, 0x100, 0x100);
}

/// Unpacking the value packed from channels in [0, 255] gives the channels
/// back: packing loses nothing.
pub proof fn lemma_unpack_round_trip(r: int, g: int, b: int)
    requires
        0 <= r <= 255,
        0 <= g <= 255,
        0 <= b <= 255,
    ensures
        spec_unpack_red(spec_pack(r, g, b)) == r,
        spec_unpack_green(spec_pack(r, g, b)) == g,
        spec_unpack_blue(spec_pack(r, g, b)) == b,
{
    let v = spec_pack(r, g, b);
    lemma_fundamental_div_mod_converse(v, 0x10000, r, g * 0x100 + b);
    lemma_fundamental_div_mod_converse(g * 0x100 + b, 0x100, g, b);
    lemma_fundamental_div_mod_converse(v, 0x100, r * 0x100 + g, b);
    lemma_fundamental_div_mod_converse(r * 0x100 + g, 0x100, r, g);
}

// ----------------------------------------------------------------------------
// Rgb
// ----------------------------------------------------------------------------

/// RGB triple encoded as three unsigned integers, each in [0, 255].
#[derive(Debug, Clone, Copy, PartialEq, Eq, Structural)]
pub struct Rgb(pub u32, pub u32, pub u32);

impl Rgb {
    /// Every channel fits in one byte.
    pub open spec fn wf(&self) -> bool {
        self.0 <= 255 && self.1 <= 255 && self.2 <= 255
    }

    /// The packed 24-bit value of this triple.
    pub open spec fn spec_packed(&self) -> int {
        spec_pack(self.0 as int, self.1 as int, self.2 as int)
    }

    /// All three channels are equal.
    pub open spec fn spec_is_grey(&self) -> bool {
        self.0 == self.1 && self.0 == self.2
    }

    pub fn triple(&self) -> (t: (u32, u32, u32))
        ensures
            t == (self.0, self.1, self.2),
    {
        (self.0, self.1, self.2)
    }

    pub fn red(&self) -> (r: u32)
        ensures
            r == self.0,
    {
        self.0
    }

    pub fn green(&self) -> (g: u32)
        ensures
            g == self.1,
    {
        self.1
    }

    pub fn blue(&self) -> (b: u32)
        ensures
            b == self.2,
    {
        self.2
    }

    pub fn is_grey(&self) -> (r: bool)
        ensures
            r == self.spec_is_grey(),
    {
        self.0 == self.1 && self.0 == self.2
    }

    /// Split a packed 24-bit value into its three channels. Values above
    /// 0xFFFFFF are out of contract; callers range-check upstream.
    pub fn from_packed(v: u32) -> (c: Rgb)
        requires
            v <= 0xFFFFFF,
        ensures
            c.wf(),
            c.0 == spec_unpack_red(v as int),
            c.1 == spec_unpack_green(v as int),
            c.2 == spec_unpack_blue(v as int),
            c.spec_packed() == v as int,
    {
        proof {
            lemma_div_is_ordered(v as int, 0xFFFFFF, 0x10000);
            lemma_mod_bound(v as int / 0x100, 0x100);
            lemma_mod_bound(v as int, 0x100);
            lemma_packed_round_trip(v as int);
        }
        let red = v / 0x10000;
        let green = (v / 0x100) % 0x100;
        let blue = v % 0x100;
        Rgb(red, green, blue)
    }

    /// Pack the three channels into one 24-bit value.
    pub fn to_packed(&self) -> (v: u32)
        requires
            self.wf(),
        ensures
            v as int == self.spec_packed(),
            v <= 0xFFFFFF,
    {
        self.0 * 0x10000 + self.1 * 0x100 + self.2
    }
}

// ----------------------------------------------------------------------------
// Hex strings
// ----------------------------------------------------------------------------

/// The six-digit zero-padded hexadecimal rendering of a packed value.
pub open spec fn spec_hex_string(v: int, upper: bool) -> Seq<char> {
    seq![
        spec_hex_char((v / 0x100000) % 16, upper),
        spec_hex_char((v / 0x10000) % 16, upper),
        spec_hex_char((v / 0x1000) % 16, upper),
        spec_hex_char((v / 0x100) % 16, upper),
        spec_hex_char((v / 0x10) % 16, upper),
        spec_hex_char(v % 16, upper),
    ]
}

/// The one-character string for hexadecimal digit `d`, in the requested
/// case.
fn hex_digit_str(d: u32, upper: bool) -> (r: &'static str)
    requires
        d < 16,
    ensures
        r@.len() == 1,
        r@[0] == spec_hex_char(d as int, upper),
{
    proof {
        reveal_strlit("0");
        reveal_strlit("1");
        reveal_strlit("2");
        reveal_strlit("3");
        reveal_strlit("4");
        reveal_strlit("5");
        reveal_strlit("6");
        reveal_strlit("7");
        reveal_strlit("8");
        reveal_strlit("9");
        reveal_strlit("a");
        reveal_strlit("b");
        reveal_strlit("c");
        reveal_strlit("d");
        reveal_strlit("e");
        reveal_strlit("f");
        reveal_strlit("A");
        reveal_strlit("B");
        reveal_strlit("C");
        reveal_strlit("D");
        reveal_strlit("E");
        reveal_strlit("F");
    }
    match d {
        0 => "0",
        1 => "1",
        2 => "2",
        3 => "3",
        4 => "4",
        5 => "5",
        6 => "6",
        7 => "7",
        8 => "8",
        9 => "9",
        10 => if upper {
            "A"
        } else {
            "a"
        },
        11 => if upper {
            "B"
        } else {
            "b"
        },
        12 => if upper {
            "C"
        } else {
            "c"
        },
        13 => if upper {
            "D"
        } else {
            "d"
        },
        14 => if upper {
            "E"
        } else {
            "e"
        },
        _ => if upper {
            "F"
        } else {
            "f"
        },
    }
}

impl Rgb {
    /// Parse a hexadecimal color string: an optional leading '#', then
    /// exactly six hexadecimal digits, two per channel. Three digits are
    /// the recognized but unsupported short form, kept distinct from a
    /// true parse failure; any other length, or a character that is not a
    /// hexadecimal digit, is a parse failure.
    pub fn from_hex(s: &str) -> (r: Result<Rgb, Error>)
        ensures
            spec_stripped(s@).len() == 6 && spec_all_hex(spec_stripped(s@)) ==> (r matches Ok(c)
                && c.wf() && c.spec_packed() == spec_hex_value(spec_stripped(s@))),
            spec_stripped(s@).len() == 3 ==> r == Err::<Rgb, Error>(Error::NotImplemented),
            spec_stripped(s@).len() != 6 && spec_stripped(s@).len() != 3 ==> r == Err::<
                Rgb,
                Error,
            >(Error::Parse),
            spec_stripped(s@).len() == 6 && !spec_all_hex(spec_stripped(s@)) ==> r == Err::<
                Rgb,
                Error,
            >(Error::Parse),
    {
        let n = s.unicode_len();
        let off: usize = if n >= 1 && s.get_char(0) == '#' {
            1
        } else {
            0
        };
        proof {
            assert(spec_stripped(s@) =~= s@.subrange(off as int, n as int));
        }
        let k = n - off;
        if k == 3 {
            return Err(Error::NotImplemented);
        }
        if k != 6 {
            return Err(Error::Parse);
        }
        let ghost t = spec_stripped(s@);
        let mut v: u32 = 0;
        let mut i: usize = 0;
        while i < 6
            invariant
                i <= 6,
                n == s@.len(),
                off + 6 == n,
                t == spec_stripped(s@),
                t =~= s@.subrange(off as int, n as int),
                t.len() == 6,
                spec_all_hex(t.subrange(0, i as int)),
                v as int == spec_hex_value(t.subrange(0, i as int)),
            decreases 6 - i,
        {
            let c = s.get_char(off + i);
            proof {
                assert(c == t[i as int]);
            }
            match parse_hex_digit(c) {
                None => {
                    proof {
                        assert(!spec_all_hex(t));
                    }
                    return Err(Error::Parse);
                },
                Some(d) => {
                    proof {
                        lemma_hex_value_fits(t.subrange(0, i as int));
                        assert(t.subrange(0, i as int + 1).drop_last() =~= t.subrange(
                            0,
                            i as int,
                        ));
                        assert(t.subrange(0, i as int + 1).last() == t[i as int]);
                    }
                    v = v * 16 + d as u32;
                },
            }
            i += 1;
        }
        proof {
            assert(t.subrange(0, 6) =~= t);
            lemma_hex_value_fits(t);
        }
        Ok(Rgb::from_packed(v))
    }

    /// Format the triple as a zero-padded six-digit hexadecimal string, in
    /// the requested case.
    pub fn to_hex_string(&self, upper: bool) -> (r: String)
        requires
            self.wf(),
        ensures
            r@ == spec_hex_string(self.spec_packed(), upper),
    {
        let v = self.to_packed();
        proof {
            lemma_mod_bound(v as int / 0x100000, 16);
            lemma_mod_bound(v as int / 0x10000, 16);
            lemma_mod_bound(v as int / 0x1000, 16);
            lemma_mod_bound(v as int / 0x100, 16);
            lemma_mod_bound(v as int / 0x10, 16);
            lemma_mod_bound(v as int, 16);
        }
        let s = String::new();
        let s = s.concat(hex_digit_str((v / 0x100000) % 16, upper));
        let s = s.concat(hex_digit_str((v / 0x10000) % 16, upper));
        let s = s.concat(hex_digit_str((v / 0x1000) % 16, upper));
        let s = s.concat(hex_digit_str((v / 0x100) % 16, upper));
        let s = s.concat(hex_digit_str((v / 0x10) % 16, upper));
        let s = s.concat(hex_digit_str(v % 16, upper));
        proof {
            assert(s@ =~= spec_hex_string(self.spec_packed(), upper));
        }
        s
    }
}

// ----------------------------------------------------------------------------
// Palette tables
// ----------------------------------------------------------------------------

/// Packed RGB value of each of the 16 system colors.
pub open spec fn spec_system(i: int) -> int {
    if i == 0 {
        0x000000
    } else if i == 1 {
        0x800000
    } else if i == 2 {
        0x008000
    } else if i == 3 {
        0x808000
    } else if i == 4 {
        0x000080
    } else if i == 5 {
        0x800080
    } else if i == 6 {
        0x008080
    } else if i == 7 {
        0xc0c0c0
    } else if i == 8 {
        0x808080
    } else if i == 9 {
        0xff0000
    } else if i == 10 {
        0x00ff00
    } else if i == 11 {
        0xffff00
    } else if i == 12 {
        0x0000ff
    } else if i == 13 {
        0xff00ff
    } else if i == 14 {
        0x00ffff
    } else {
        0xffffff
    }
}

/// Index of the system color whose packed value is exactly `v`, if any.
/// The sixteen system values are pairwise distinct, so the index is unique.
pub open spec fn spec_system_index(v: int) -> Option<int> {
    if v == 0x000000 {
        Some(0)
    } else if v == 0x800000 {
        Some(1)
    } else if v == 0x008000 {
        Some(2)
    } else if v == 0x808000 {
        Some(3)
    } else if v == 0x000080 {
        Some(4)
    } else if v == 0x800080 {
        Some(5)
    } else if v == 0x008080 {
        Some(6)
    } else if v == 0xc0c0c0 {
        Some(7)
    } else if v == 0x808080 {
        Some(8)
    } else if v == 0xff0000 {
        Some(9)
    } else if v == 0x00ff00 {
        Some(10)
    } else if v == 0xffff00 {
        Some(11)
    } else if v == 0x0000ff {
        Some(12)
    } else if v == 0xff00ff {
        Some(13)
    } else if v == 0x00ffff {
        Some(14)
    } else if v == 0xffffff {
        Some(15)
    } else {
        None
    }
}

/// The grey value of greyscale-ramp step `i`: 0x08, 0x12, ..., 0xEE,
/// strictly increasing in steps of ten.
pub open spec fn spec_shade(i: int) -> int {
    8 + 10 * i
}

/// The ramp step whose shade value is exactly `v` (exact match, not
/// nearest), if any.
pub open spec fn spec_shade_index(v: int) -> Option<int> {
    if 8 <= v <= 238 && (v - 8) % 10 == 0 {
        Some((v - 8) / 10)
    } else {
        None
    }
}

/// The six channel intensities the color cube can express exactly.
pub open spec fn spec_intensity(l: int) -> int {
    if l <= 0 {
        0x00
    } else if l == 1 {
        0x5F
    } else if l == 2 {
        0x87
    } else if l == 3 {
        0xAF
    } else if l == 4 {
        0xD7
    } else {
        0xFF
    }
}

/// `v` is one of the six canonical cube intensities.
pub open spec fn spec_is_intensity(v: int) -> bool {
    v == 0x00 || v == 0x5F || v == 0x87 || v == 0xAF || v == 0xD7 || v == 0xFF
}

/// Look up the packed value of system color `i`.
fn system_entry(i: u8) -> (v: u32)
    requires
        i < 16,
    ensures
        v as int == spec_system(i as int),
        v <= 0xFFFFFF,
{
    match i {
        0 => 0x000000,
        1 => 0x800000,
        2 => 0x008000,
        3 => 0x808000,
        4 => 0x000080,
        5 => 0x800080,
        6 => 0x008080,
        7 => 0xc0c0c0,
        8 => 0x808080,
        9 => 0xff0000,
        10 => 0x00ff00,
        11 => 0xffff00,
        12 => 0x0000ff,
        13 => 0xff00ff,
        14 => 0x00ffff,
        _ => 0xffffff,
    }
}

/// Search the system table for an exact packed-value match.
fn find_system(v: u32) -> (r: Option<u8>)
    ensures
        match spec_system_index(v as int) {
            Some(i) => r == Some(i as u8),
            None => r is None,
        },
        r is Some ==> r->0 < 16,
{
    if v == 0x000000 {
        Some(0)
    } else if v == 0x800000 {
        Some(1)
    } else if v == 0x008000 {
        Some(2)
    } else if v == 0x808000 {
        Some(3)
    } else if v == 0x000080 {
        Some(4)
    } else if v == 0x800080 {
        Some(5)
    } else if v == 0x008080 {
        Some(6)
    } else if v == 0xc0c0c0 {
        Some(7)
    } else if v == 0x808080 {
        Some(8)
    } else if v == 0xff0000 {
        Some(9)
    } else if v == 0x00ff00 {
        Some(10)
    } else if v == 0xffff00 {
        Some(11)
    } else if v == 0x0000ff {
        Some(12)
    } else if v == 0xff00ff {
        Some(13)
    } else if v == 0x00ffff {
        Some(14)
    } else if v == 0xffffff {
        Some(15)
    } else {
        None
    }
}

/// Search the greyscale ramp for an exact shade match.
fn find_shade(v: u32) -> (r: Option<u8>)
    ensures
        match spec_shade_index(v as int) {
            Some(i) => r == Some(i as u8),
            None => r is None,
        },
        r is Some ==> r->0 < 24,
{
    if v >= 8 && v <= 238 && (v - 8) % 10 == 0 {
        proof {
            lemma_div_pos_is_pos(v as int - 8, 10);
            lemma_div_is_ordered(v as int - 8, 230, 10);
        }
        Some(((v - 8) / 10) as u8)
    } else {
        None
    }
}

// ----------------------------------------------------------------------------
// XTerm
// ----------------------------------------------------------------------------

/// One index into the 256-entry palette, tagged with the zone it falls in.
#[derive(Debug, Clone, Copy, PartialEq, Eq, Structural)]
pub enum XTerm {
    System(u32),
    Cube(u32),
    Greyscale(u32),
}

/// The zone of a palette index is fully determined by its value:
/// 0..=15 system, 16..=231 cube, 232..=255 greyscale.
pub open spec fn spec_classify(code: int) -> XTerm {
    if code <= 15 {
        XTerm::System(code as u32)
    } else if code >= 232 {
        XTerm::Greyscale(code as u32)
    } else {
        XTerm::Cube(code as u32)
    }
}

impl XTerm {
    /// The raw palette index, whichever zone it falls in.
    pub open spec fn spec_code(&self) -> int {
        match *self {
            XTerm::System(x) => x as int,
            XTerm::Cube(x) => x as int,
            XTerm::Greyscale(x) => x as int,
        }
    }

    /// The tag agrees with the index: the zone is derived state and the two
    /// never disagree.
    pub open spec fn wf(&self) -> bool {
        match *self {
            XTerm::System(x) => x <= 15,
            XTerm::Cube(x) => 16 <= x <= 231,
            XTerm::Greyscale(x) => 232 <= x <= 255,
        }
    }

    pub fn code(&self) -> (c: u32)
        ensures
            c as int == self.spec_code(),
    {
        match *self {
            XTerm::System(x) => x,
            XTerm::Greyscale(x) => x,
            XTerm::Cube(x) => x,
        }
    }

    /// Classify a raw palette index into its zone.
    pub fn from_code(code: u32) -> (x: XTerm)
        requires
            code <= 255,
        ensures
            x == spec_classify(code as int),
            x.wf(),
            x.spec_code() == code as int,
    {
        if code <= 15 {
            XTerm::System(code)
        } else if code >= 232 {
            XTerm::Greyscale(code)
        } else {
            XTerm::Cube(code)
        }
    }
}

// ----------------------------------------------------------------------------
// Conversion RGB -> XTerm
// ----------------------------------------------------------------------------

/// Cube index of a triple, each channel quantized to a 0..=5 level by
/// integer division by 51.
pub open spec fn spec_cube_index(r: int, g: int, b: int) -> int {
    36 * (r / 51) + 6 * (g / 51) + (b / 51) + 16
}

/// The quantization mapping from a triple to a palette index, in priority
/// order: exact greyscale-shade match first, then exact system-color match,
/// then cube quantization.
pub open spec fn spec_rgb_to_xterm(c: Rgb) -> XTerm {
    match (if c.spec_is_grey() {
        spec_shade_index(c.0 as int)
    } else {
        None
    }) {
        Some(i) => XTerm::Greyscale((232 + i) as u32),
        None => match spec_system_index(c.spec_packed()) {
            Some(i) => XTerm::System(i as u32),
            None => XTerm::Cube(spec_cube_index(c.0 as int, c.1 as int, c.2 as int) as u32),
        },
    }
}

impl Rgb {
    /// Map this triple to the palette index that stands for it. Total and
    /// deterministic; lossy on triples off the cube grid.
    pub fn to_xterm(&self) -> (x: XTerm)
        requires
            self.wf(),
        ensures
            x == spec_rgb_to_xterm(*self),
            x.wf(),
    {
        if self.is_grey() {
            if let Some(shade) = find_shade(self.0) {
                return XTerm::Greyscale(232 + shade as u32);
            }
        }
        let packed = self.to_packed();
        if let Some(idx) = find_system(packed) {
            return XTerm::System(idx as u32);
        }
        proof {
            lemma_div_pos_is_pos(self.0 as int, 51);
            lemma_div_pos_is_pos(self.1 as int, 51);
            lemma_div_pos_is_pos(self.2 as int, 51);
            lemma_div_is_ordered(self.0 as int, 255, 51);
            lemma_div_is_ordered(self.1 as int, 255, 51);
            lemma_div_is_ordered(self.2 as int, 255, 51);
        }
        let r8 = self.0 / 51;
        let g8 = self.1 / 51;
        let b8 = self.2 / 51;
        XTerm::Cube(36 * r8 + 6 * g8 + b8 + 16)
    }
}

// ----------------------------------------------------------------------------
// Conversion XTerm -> RGB
// ----------------------------------------------------------------------------

/// Snap a raw multiple of 51 up to the canonical cube intensity it falls
/// short of. Only the interior gaps between defined intensities are
/// filled: a value at an endpoint, or in (0xD7, 0xFF), passes unchanged.
pub open spec fn spec_approximate(x: int) -> int {
    if 0x00 < x < 0x5F {
        0x5F
    } else if 0x5F < x < 0x87 {
        0x87
    } else if 0x87 < x < 0xAF {
        0xAF
    } else if 0xAF < x < 0xD7 {
        0xD7
    } else {
        x
    }
}

/// The triple an XTerm index reconstructs: the table entry for a system
/// index, the replicated shade for a greyscale index, and the canonical
/// cube-vertex color for a cube index.
pub open spec fn spec_xterm_to_rgb(x: XTerm) -> Rgb {
    match x {
        XTerm::System(i) => spec_unpack_rgb(spec_system(i as int)),
        XTerm::Greyscale(i) => Rgb(
            spec_shade(i - 232) as u32,
            spec_shade(i - 232) as u32,
            spec_shade(i - 232) as u32,
        ),
        XTerm::Cube(i) => Rgb(
            spec_approximate(51 * ((i - 16) / 36)) as u32,
            spec_approximate(51 * (((i - 16) % 36) / 6)) as u32,
            spec_approximate(51 * ((i - 16) % 6)) as u32,
        ),
    }
}

/// The unpacked triple of a packed value.
pub open spec fn spec_unpack_rgb(v: int) -> Rgb {
    Rgb(spec_unpack_red(v) as u32, spec_unpack_green(v) as u32, spec_unpack_blue(v) as u32)
}

/// The only values allowed in a cube are 0x00, 0x5F, 0x87, 0xAF, 0xD7 and
/// 0xFF. This function makes sure the value is one of these, snapping
/// interior values up to the next canonical intensity.
fn approximate(x: u32) -> (r: u32)
    ensures
        r as int == spec_approximate(x as int),
{
    if x > 0x00 && x < 0x5F {
        0x5F
    } else if x > 0x5F && x < 0x87 {
        0x87
    } else if x > 0x87 && x < 0xAF {
        0xAF
    } else if x > 0xAF && x < 0xD7 {
        0xD7
    } else {
        x
    }
}

impl XTerm {
    /// Reconstruct the RGB triple this palette index stands for. Inherently
    /// approximate for cube indices: only the canonical cube-vertex color
    /// comes back, not whatever triple first mapped to the index.
    pub fn to_rgb(&self) -> (c: Rgb)
        requires
            self.wf(),
        ensures
            c == spec_xterm_to_rgb(*self),
            c.wf(),
    {
        match *self {
            XTerm::System(i) => {
                let v = system_entry(i as u8);
                Rgb::from_packed(v)
            },
            XTerm::Greyscale(i) => {
                let shade = 8 + 10 * (i - 232);
                Rgb(shade, shade, shade)
            },
            XTerm::Cube(i) => {
                let base = i - 16;
                proof {
                    lemma_div_pos_is_pos(base as int, 36);
                    lemma_div_is_ordered(base as int, 215, 36);
                    lemma_mod_bound(base as int, 36);
                    lemma_div_pos_is_pos(base as int % 36, 6);
                    lemma_div_is_ordered(base as int % 36, 35, 6);
                    lemma_mod_bound(base as int, 6);
                    assert(215int / 36 == 5) by (nonlinear_arith);
                    assert(35int / 6 == 5) by (nonlinear_arith);
                }
                let r8 = base / 36;
                let g8 = (base % 36) / 6;
                let b8 = base % 6;
                Rgb(approximate(r8 * 51), approximate(g8 * 51), approximate(b8 * 51))
            },
        }
    }
}

// ----------------------------------------------------------------------------
// Enumeration
// ----------------------------------------------------------------------------

/// Produce the full ordered list of the 256 palette indices, 0 through 255,
/// each classified into its zone by the boundary rules of `spec_classify`.
pub fn codex() -> (v: Vec<XTerm>)
    ensures
        v@.len() == 256,
        forall|i: int| 0 <= i < 256 ==> v@[i] == spec_classify(i),
{
    let mut v: Vec<XTerm> = Vec::new();
    let mut x: u32 = 0;
    while x < 256
        invariant
            x <= 256,
            v@.len() == x as nat,
            forall|i: int| 0 <= i < x ==> v@[i] == spec_classify(i),
        decreases 256 - x,
    {
        v.push(XTerm::from_code(x));
        x += 1;
    }
    v
}

/// The 24 greyscale-ramp entries as packed RGB values, each shade
/// replicated into all three channels.
pub fn grayscale() -> (v: Vec<u32>)
    ensures
        v@.len() == 24,
        forall|i: int| 0 <= i < 24 ==> v@[i] as int == spec_pack(
            spec_shade(i),
            spec_shade(i),
            spec_shade(i),
        ),
{
    let mut v: Vec<u32> = Vec::new();
    let mut i: u32 = 0;
    while i < 24
        invariant
            i <= 24,
            v@.len() == i as nat,
            forall|j: int| 0 <= j < i ==> v@[j] as int == spec_pack(
                spec_shade(j),
                spec_shade(j),
                spec_shade(j),
            ),
        decreases 24 - i,
    {
        let shade = 8 + 10 * i;
        v.push(shade * 0x10000 + shade * 0x100 + shade);
        i += 1;
    }
    v
}

// ----------------------------------------------------------------------------
// Laws
// ----------------------------------------------------------------------------

/// A system index reconstructs exactly the unpacked system-table entry.
pub proof fn lemma_system_to_rgb(i: u32)
    requires
        i <= 15,
    ensures
        spec_xterm_to_rgb(XTerm::System(i)) == spec_unpack_rgb(spec_system(i as int)),
{
}

/// A greyscale index reconstructs a triple with all three channels equal
/// to the ramp shade of its step.
pub proof fn lemma_greyscale_to_rgb(i: u32)
    requires
        232 <= i <= 255,
    ensures
        spec_xterm_to_rgb(XTerm::Greyscale(i)).0 == spec_shade(i - 232),
        spec_xterm_to_rgb(XTerm::Greyscale(i)).1 == spec_shade(i - 232),
        spec_xterm_to_rgb(XTerm::Greyscale(i)).2 == spec_shade(i - 232),
{
}

/// Snapping a raw cube multiple of 51 yields exactly the canonical
/// intensity of its level: the cube reconstructs only table values.
pub proof fn lemma_approximate_intensity(l: int)
    requires
        0 <= l <= 5,
    ensures
        spec_approximate(51 * l) == spec_intensity(l),
        spec_is_intensity(spec_approximate(51 * l)),
{
}

/// When the system-index search finds `i` for value `v`, the table maps
/// `i` back to `v`.
proof fn lemma_system_index_inverse(v: int)
    requires
        spec_system_index(v) is Some,
    ensures
        0 <= spec_system_index(v)->0 < 16,
        spec_system(spec_system_index(v)->0) == v,
{
}

/// No canonical cube intensity lies on the greyscale ramp.
proof fn lemma_intensity_not_shade(v: int)
    requires
        spec_is_intensity(v),
    ensures
        spec_shade_index(v) is None,
{
    assert((0x5F - 8) % 10 == 7) by (nonlinear_arith);
    assert((0x87 - 8) % 10 == 7) by (nonlinear_arith);
    assert((0xAF - 8) % 10 == 7) by (nonlinear_arith);
    assert((0xD7 - 8) % 10 == 7) by (nonlinear_arith);
    assert((0xFF - 8) % 10 == 7) by (nonlinear_arith);
}

/// Quantizing a canonical intensity to its 0..=5 level and snapping the
/// raw multiple of 51 back reproduces the intensity exactly.
proof fn lemma_intensity_level_round_trip(v: int)
    requires
        spec_is_intensity(v),
    ensures
        0 <= v / 51 <= 5,
        spec_approximate(51 * (v / 51)) == v,
{
    assert(0x00int / 51 == 0) by (nonlinear_arith);
    assert(0x5Fint / 51 == 1) by (nonlinear_arith);
    assert(0x87int / 51 == 2) by (nonlinear_arith);
    assert(0xAFint / 51 == 3) by (nonlinear_arith);
    assert(0xD7int / 51 == 4) by (nonlinear_arith);
    assert(0xFFint / 51 == 5) by (nonlinear_arith);
}

/// A hexadecimal digit character folds to lower case and back to the digit
/// it stands for.
proof fn lemma_hex_char_of_digit(c: char)
    requires
        spec_is_hex_digit(c),
    ensures
        spec_hex_char(spec_hex_digit_value(c), false) == spec_lower_hex_char(c),
        0 <= spec_hex_digit_value(c) < 16,
{
}

/// Formatting the value parsed from six hexadecimal digits, in lower case,
/// gives the digits back with any upper-case letters folded down.
#[verifier::rlimit(100)]
pub proof fn lemma_hex_string_round_trip(s: Seq<char>)
    requires
        s.len() == 6,
        spec_all_hex(s),
    ensures
        spec_hex_string(spec_hex_value(s), false) == s.map_values(
            |c: char| spec_lower_hex_char(c),
        ),
{
    let v = spec_hex_value(s);
    let p5 = s.subrange(0, 5);
    let p4 = s.subrange(0, 4);
    let p3 = s.subrange(0, 3);
    let p2 = s.subrange(0, 2);
    let p1 = s.subrange(0, 1);
    let v5 = spec_hex_value(p5);
    let v4 = spec_hex_value(p4);
    let v3 = spec_hex_value(p3);
    let v2 = spec_hex_value(p2);
    let v1 = spec_hex_value(p1);
    assert(s.drop_last() =~= p5);
    assert(p5.drop_last() =~= p4);
    assert(p4.drop_last() =~= p3);
    assert(p3.drop_last() =~= p2);
    assert(p2.drop_last() =~= p1);
    assert(p1.drop_last() =~= s.subrange(0, 0));
    assert(s.last() == s[5]);
    assert(p5.last() == s[4]);
    assert(p4.last() == s[3]);
    assert(p3.last() == s[2]);
    assert(p2.last() == s[1]);
    assert(p1.last() == s[0]);
    assert(spec_hex_value(s.subrange(0, 0)) == 0);
    assert(v == 16 * v5 + spec_hex_digit_value(s[5]));
    assert(v5 == 16 * v4 + spec_hex_digit_value(s[4]));
    assert(v4 == 16 * v3 + spec_hex_digit_value(s[3]));
    assert(v3 == 16 * v2 + spec_hex_digit_value(s[2]));
    assert(v2 == 16 * v1 + spec_hex_digit_value(s[1]));
    assert(v1 == spec_hex_digit_value(s[0]));
    lemma_hex_char_of_digit(s[0]);
    lemma_hex_char_of_digit(s[1]);
    lemma_hex_char_of_digit(s[2]);
    lemma_hex_char_of_digit(s[3]);
    lemma_hex_char_of_digit(s[4]);
    lemma_hex_char_of_digit(s[5]);
    lemma_fundamental_div_mod_converse(v, 16, v5, spec_hex_digit_value(s[5]));
    lemma_fundamental_div_mod_converse(v5, 16, v4, spec_hex_digit_value(s[4]));
    lemma_fundamental_div_mod_converse(v4, 16, v3, spec_hex_digit_value(s[3]));
    lemma_fundamental_div_mod_converse(v3, 16, v2, spec_hex_digit_value(s[2]));
    lemma_fundamental_div_mod_converse(v2, 16, v1, spec_hex_digit_value(s[1]));
    lemma_fundamental_div_mod_converse(v1, 16, 0, spec_hex_digit_value(s[0]));
    lemma_div_denominator(v, 16, 16);
    assert(v / 0x100 == v4);
    lemma_div_denominator(v, 0x100, 16);
    assert(v / 0x1000 == v3);
    lemma_div_denominator(v, 0x1000, 16);
    assert(v / 0x10000 == v2);
    lemma_div_denominator(v, 0x10000, 16);
    assert(v / 0x100000 == v1);
    assert(spec_hex_string(v, false) =~= s.map_values(|c: char| spec_lower_hex_char(c)));
}

/// Exact round trip on cube vertices: a triple whose channels all lie on
/// the canonical six-point intensity grid maps to a palette index that
/// reconstructs the triple exactly.
pub proof fn lemma_cube_vertex_round_trip(c: Rgb)
    requires
        c.wf(),
        spec_is_intensity(c.0 as int),
        spec_is_intensity(c.1 as int),
        spec_is_intensity(c.2 as int),
    ensures
        spec_xterm_to_rgb(spec_rgb_to_xterm(c)) == c,
{
    lemma_intensity_not_shade(c.0 as int);
    match spec_system_index(c.spec_packed()) {
        Some(i) => {
            lemma_system_index_inverse(c.spec_packed());
            lemma_unpack_round_trip(c.0 as int, c.1 as int, c.2 as int);
        },
        None => {
            let l0 = c.0 as int / 51;
            let l1 = c.1 as int / 51;
            let l2 = c.2 as int / 51;
            lemma_intensity_level_round_trip(c.0 as int);
            lemma_intensity_level_round_trip(c.1 as int);
            lemma_intensity_level_round_trip(c.2 as int);
            let base = 36 * l0 + 6 * l1 + l2;
            lemma_fundamental_div_mod_converse(base, 36, l0, 6 * l1 + l2);
            lemma_fundamental_div_mod_converse(6 * l1 + l2, 6, l1, l2);
            lemma_fundamental_div_mod_converse(base, 6, 6 * l0 + l1, l2);
        },
    }
}

} // verus!
