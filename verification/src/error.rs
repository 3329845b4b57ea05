use vstd::prelude::*;

verus! {

/// Failure conditions for hex-string parsing and splitting.
#[derive(Debug, Clone, Copy, PartialEq, Eq, Structural)]
pub enum Error {
    /// Malformed input: a digit count other than six (or three), or a
    /// character that is not a hexadecimal digit.
    Parse,
    /// Defensive condition: splitting a string into fixed-width digit
    /// groups lands inside a character. The character-based parsers here
    /// cannot misalign, so they never return it.
    Utf8Error,
    /// The three-digit short form is recognized but not supported; it is
    /// kept distinct from `Parse` so callers can report it as such.
    NotImplemented,
}

} // verus!
