//! Conversions between three representations of terminal colors: 24-bit RGB
//! triples, hexadecimal string notation, and the 256-entry indexed palette
//! used by terminal emulators.

pub mod color;
pub mod error;
pub mod hex;
pub mod xterm;

pub use crate::error::Error;
pub use crate::hex::Hex;
pub use crate::xterm::XTerm;
