//! The errors that the generators report.

use crate::text::{dec, push_dec, push_str, string_of};
use vstd::prelude::*;

verus! {

/// Why a generator could not produce its value.
#[derive(Debug, PartialEq, Eq)]
pub enum GivError {
    /// The requested number of pi decimal places (first) is outside `1..=max` (second).
    DecimalPlacesOutOfRange(usize, usize),
    /// Two flags that exclude each other were both given.
    ConflictingFlags(String),
    /// A random-number specification that does not parse.
    InvalidRngSpec(String),
    /// A dice total that does not fit a signed 64-bit integer.
    NumericOverflow(String),
    /// Raw byte output was requested together with JSON output.
    RawBytesNotSupportedInJson,
    /// A shortcode that no table knows.
    UnknownCharacterPattern(String),
    /// A command that needs at least one argument got none.
    RequiredArgumentsNotProvided(String),
}

/// The message text of an error.
pub open spec fn error_message(e: GivError) -> Seq<char> {
    match e {
        GivError::DecimalPlacesOutOfRange(p, m) => "Requested number of PI decimal places '"@
            + dec(p as nat) + "' is not supported please select a value between '1' and '"@
            + dec(m as nat) + "'"@,
        GivError::ConflictingFlags(d) => "Conflicting flags: "@ + d@,
        GivError::InvalidRngSpec(s) => "Invalid RNG specification: '"@ + s@
            + "'. Expected formats: 'XdY' or 'dY' for dice, 'X..Y' for ranges"@,
        GivError::NumericOverflow(d) => "Numeric overflow or underflow in calculation: "@ + d@,
        GivError::RawBytesNotSupportedInJson =>
            "Raw bytes encoding is not supported in JSON output mode. Use --encoding=hex or --encoding=base64 instead"@,
        GivError::UnknownCharacterPattern(s) => "Unknown character pattern or emoji shortcode: '"@
            + s@ + "'"@,
        GivError::RequiredArgumentsNotProvided(h) =>
            "Required arguments not provided. Use '"@ + h@ + "' for usage information"@,
    }
}

impl GivError {
    /// The human-readable message of this error.
    pub fn message(&self) -> (r: String)
        ensures
            r@ == error_message(*self),
    {
        let mut out: Vec<char> = Vec::new();
        match self {
            GivError::DecimalPlacesOutOfRange(p, m) => {
                push_str(&mut out, "Requested number of PI decimal places '");
                push_dec(&mut out, *p as u64);
                push_str(
                    &mut out,
                    "' is not supported please select a value between '1' and '",
                );
                push_dec(&mut out, *m as u64);
                push_str(&mut out, "'");
            },
            GivError::ConflictingFlags(d) => {
                push_str(&mut out, "Conflicting flags: ");
                push_str(&mut out, d.as_str());
            },
            GivError::InvalidRngSpec(s) => {
                push_str(&mut out, "Invalid RNG specification: '");
                push_str(&mut out, s.as_str());
                push_str(&mut out, "'. Expected formats: 'XdY' or 'dY' for dice, 'X..Y' for ranges");
            },
            GivError::NumericOverflow(d) => {
                push_str(&mut out, "Numeric overflow or underflow in calculation: ");
                push_str(&mut out, d.as_str());
            },
            GivError::RawBytesNotSupportedInJson => {
                push_str(
                    &mut out,
                    "Raw bytes encoding is not supported in JSON output mode. Use --encoding=hex or --encoding=base64 instead",
                );
            },
            GivError::UnknownCharacterPattern(s) => {
                push_str(&mut out, "Unknown character pattern or emoji shortcode: '");
                push_str(&mut out, s.as_str());
                push_str(&mut out, "'");
            },
            GivError::RequiredArgumentsNotProvided(h) => {
                push_str(&mut out, "Required arguments not provided. Use '");
                push_str(&mut out, h.as_str());
                push_str(&mut out, "' for usage information");
            },
        }
        proof {
            match self {
                GivError::DecimalPlacesOutOfRange(p, m) => {
                    assert(out@ =~= error_message(*self));
                },
                GivError::InvalidRngSpec(s) => {
                    assert(out@ =~= error_message(*self));
                },
                GivError::UnknownCharacterPattern(s) => {
                    assert(out@ =~= error_message(*self));
                },
                GivError::RequiredArgumentsNotProvided(h) => {
                    assert(out@ =~= error_message(*self));
                },
                _ => {
                    assert(out@ =~= error_message(*self));
                },
            }
        }
        string_of(out.as_slice())
    }
}

} // verus!
