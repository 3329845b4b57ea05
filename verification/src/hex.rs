use vstd::prelude::*;

use crate::error::Error;

verus! {

// ----------------------------------------------------------------------------
// Hexadecimal digits
// ----------------------------------------------------------------------------

/// `c` is an ASCII hexadecimal digit, either case.
pub open spec fn spec_is_hex_digit(c: char) -> bool {
    c == '0' || c == '1' || c == '2' || c == '3' || c == '4' || c == '5' || c == '6' || c == '7'
        || c == '8' || c == '9' || c == 'a' || c == 'b' || c == 'c' || c == 'd' || c == 'e'
        || c == 'f' || c == 'A' || c == 'B' || c == 'C' || c == 'D' || c == 'E' || c == 'F'
}

/// Numeric value of an ASCII hexadecimal digit.
pub open spec fn spec_hex_digit_value(c: char) -> int {
    if c == '0' {
        0
    } else if c == '1' {
        1
    } else if c == '2' {
        2
    } else if c == '3' {
        3
    } else if c == '4' {
        4
    } else if c == '5' {
        5
    } else if c == '6' {
        6
    } else if c == '7' {
        7
    } else if c == '8' {
        8
    } else if c == '9' {
        9
    } else if c == 'a' || c == 'A' {
        10
    } else if c == 'b' || c == 'B' {
        11
    } else if c == 'c' || c == 'C' {
        12
    } else if c == 'd' || c == 'D' {
        13
    } else if c == 'e' || c == 'E' {
        14
    } else {
        15
    }
}

/// The digit character standing for value `d` in [0, 15], in the requested
/// case.
pub open spec fn spec_hex_char(d: int, upper: bool) -> char {
    if d == 0 {
        '0'
    } else if d == 1 {
        '1'
    } else if d == 2 {
        '2'
    } else if d == 3 {
        '3'
    } else if d == 4 {
        '4'
    } else if d == 5 {
        '5'
    } else if d == 6 {
        '6'
    } else if d == 7 {
        '7'
    } else if d == 8 {
        '8'
    } else if d == 9 {
        '9'
    } else if d == 10 {
        if upper {
            'A'
        } else {
            'a'
        }
    } else if d == 11 {
        if upper {
            'B'
        } else {
            'b'
        }
    } else if d == 12 {
        if upper {
            'C'
        } else {
            'c'
        }
    } else if d == 13 {
        if upper {
            'D'
        } else {
            'd'
        }
    } else if d == 14 {
        if upper {
            'E'
        } else {
            'e'
        }
    } else {
        if upper {
            'F'
        } else {
            'f'
        }
    }
}

/// Lowercase folding restricted to the hexadecimal alphabet: 'A' through
/// 'F' map down, every other character passes unchanged.
pub open spec fn spec_lower_hex_char(c: char) -> char {
    if c == 'A' {
        'a'
    } else if c == 'B' {
        'b'
    } else if c == 'C' {
        'c'
    } else if c == 'D' {
        'd'
    } else if c == 'E' {
        'e'
    } else if c == 'F' {
        'f'
    } else {
        c
    }
}

/// Every character of `s` is a hexadecimal digit.
pub open spec fn spec_all_hex(s: Seq<char>) -> bool {
    forall|i: int| 0 <= i < s.len() ==> spec_is_hex_digit(#[trigger] s[i])
}

/// The numeric value of a sequence of hexadecimal digits, most significant
/// first.
pub open spec fn spec_hex_value(s: Seq<char>) -> int
    decreases s.len(),
{
    if s.len() == 0 {
        0
    } else {
        16 * spec_hex_value(s.drop_last()) + spec_hex_digit_value(s.last())
    }
}

/// `s` with one leading '#' removed, if it has one.
pub open spec fn spec_stripped(s: Seq<char>) -> Seq<char> {
    if s.len() >= 1 && s[0] == '#' {
        s.subrange(1, s.len() as int)
    } else {
        s
    }
}

/// Sixteen to the power `n`.
spec fn pow16(n: nat) -> int
    decreases n,
{
    if n == 0 {
        1
    } else {
        16 * pow16((n - 1) as nat)
    }
}

/// A sequence of hexadecimal digits has a nonnegative value below sixteen
/// to the power of its length.
proof fn lemma_hex_value_bound(s: Seq<char>)
    requires
        spec_all_hex(s),
    ensures
        0 <= spec_hex_value(s) < pow16(s.len()),
    decreases s.len(),
{
    if s.len() > 0 {
        assert(spec_all_hex(s.drop_last()));
        lemma_hex_value_bound(s.drop_last());
    }
}

/// At most six hexadecimal digits fit in 24 bits; at most five leave the
/// top four of those bits clear.
pub(crate) proof fn lemma_hex_value_fits(s: Seq<char>)
    requires
        spec_all_hex(s),
        s.len() <= 6,
    ensures
        0 <= spec_hex_value(s) <= 0xFFFFFF,
        s.len() <= 5 ==> spec_hex_value(s) <= 0xFFFFF,
{
    lemma_hex_value_bound(s);
    reveal_with_fuel(pow16, 8);
}

/// Parse one hexadecimal digit character, either case.
pub(crate) fn parse_hex_digit(c: char) -> (r: Option<u8>)
    ensures
        r is Some <==> spec_is_hex_digit(c),
        r matches Some(d) ==> d < 16 && d as int == spec_hex_digit_value(c),
{
    match c {
        '0' => Some(0),
        '1' => Some(1),
        '2' => Some(2),
        '3' => Some(3),
        '4' => Some(4),
        '5' => Some(5),
        '6' => Some(6),
        '7' => Some(7),
        '8' => Some(8),
        '9' => Some(9),
        'a' | 'A' => Some(10),
        'b' | 'B' => Some(11),
        'c' | 'C' => Some(12),
        'd' | 'D' => Some(13),
        'e' | 'E' => Some(14),
        'f' | 'F' => Some(15),
        _ => None,
    }
}

// ----------------------------------------------------------------------------
// Hex
// ----------------------------------------------------------------------------

/// A hexadecimal color string split into its three two-digit channel
/// groups, kept exactly as given (case preserved).
#[derive(Debug, PartialEq)]
pub struct Hex(String, String, String);

impl Hex {
    /// The characters of the red group.
    pub closed spec fn spec_red(&self) -> Seq<char> {
        self.0@
    }

    /// The characters of the green group.
    pub closed spec fn spec_green(&self) -> Seq<char> {
        self.1@
    }

    /// The characters of the blue group.
    pub closed spec fn spec_blue(&self) -> Seq<char> {
        self.2@
    }

    /// The three channel groups as string slices, in order.
    pub fn raw(&self) -> (r: (&str, &str, &str))
        ensures
            r.0@ == self.spec_red(),
            r.1@ == self.spec_green(),
            r.2@ == self.spec_blue(),
    {
        (self.0.as_str(), self.1.as_str(), self.2.as_str())
    }

    /// Split a hexadecimal color string, with or without a leading '#',
    /// into its three two-digit groups. Exactly six hexadecimal digits
    /// split evenly; three digits are the recognized but unsupported short
    /// form; any other count, or a character that is not a hexadecimal
    /// digit, is malformed.
    pub fn from_hex(s: &str) -> (r: Result<Hex, Error>)
        ensures
            spec_stripped(s@).len() == 3 ==> r == Err::<Hex, Error>(Error::NotImplemented),
            spec_stripped(s@).len() != 3 && spec_stripped(s@).len() != 6 ==> r == Err::<
                Hex,
                Error,
            >(Error::Parse),
            spec_stripped(s@).len() == 6 && !spec_all_hex(spec_stripped(s@)) ==> r == Err::<
                Hex,
                Error,
            >(Error::Parse),
            spec_stripped(s@).len() == 6 && spec_all_hex(spec_stripped(s@)) ==> (r matches Ok(h)
                && h.spec_red() == spec_stripped(s@).subrange(0, 2) && h.spec_green()
                == spec_stripped(s@).subrange(2, 4) && h.spec_blue() == spec_stripped(
                s@,
            ).subrange(4, 6) && spec_all_hex(h.spec_red()) && spec_all_hex(h.spec_green())
                && spec_all_hex(h.spec_blue())),
    {
        let n = s.unicode_len();
        let off: usize = if n >= 1 && s.get_char(0) == '#' {
            1
        } else {
            0
        };
        proof {
            assert(spec_stripped(s@) =~= s@.subrange(off as int, n as int));
        }
        let k = n - off;
        if k == 3 {
            return Err(Error::NotImplemented);
        }
        if k != 6 {
            return Err(Error::Parse);
        }
        let ghost t = spec_stripped(s@);
        let mut i: usize = 0;
        while i < 6
            invariant
                i <= 6,
                n == s@.len(),
                off + 6 == n,
                t == spec_stripped(s@),
                t =~= s@.subrange(off as int, n as int),
                t.len() == 6,
                forall|j: int| 0 <= j < i ==> spec_is_hex_digit(#[trigger] t[j]),
            decreases 6 - i,
        {
            let c = s.get_char(off + i);
            proof {
                assert(c == t[i as int]);
            }
            if parse_hex_digit(c).is_none() {
                proof {
                    assert(!spec_all_hex(t));
                }
                return Err(Error::Parse);
            }
            i += 1;
        }
        proof {
            assert(spec_all_hex(t));
            assert(t.subrange(0, 2) =~= s@.subrange(off as int, off as int + 2));
            assert(t.subrange(2, 4) =~= s@.subrange(off as int + 2, off as int + 4));
            assert(t.subrange(4, 6) =~= s@.subrange(off as int + 4, off as int + 6));
            assert forall|j: int| 0 <= j < 2 implies spec_is_hex_digit(
                #[trigger] t.subrange(0, 2)[j],
            ) by {
                assert(t.subrange(0, 2)[j] == t[j]);
            }
            assert forall|j: int| 0 <= j < 2 implies spec_is_hex_digit(
                #[trigger] t.subrange(2, 4)[j],
            ) by {
                assert(t.subrange(2, 4)[j] == t[j + 2]);
            }
            assert forall|j: int| 0 <= j < 2 implies spec_is_hex_digit(
                #[trigger] t.subrange(4, 6)[j],
            ) by {
                assert(t.subrange(4, 6)[j] == t[j + 4]);
            }
        }
        let red = s.substring_char(off, off + 2);
        let green = s.substring_char(off + 2, off + 4);
        let blue = s.substring_char(off + 4, off + 6);
        Ok(Hex(red.to_owned(), green.to_owned(), blue.to_owned()))
    }
}

impl core::str::FromStr for Hex {
    type Err = Error;

    fn from_str(s: &str) -> Result<Hex, Error> {
        Hex::from_hex(s)
    }
}

} // verus!
