//! The command line of the generators, as plain values.

use crate::bytes::BytesEncoding;
use crate::date::{DateFormat, DateKind};
use crate::uuid::{UuidFormat, UuidVersion};
use vstd::prelude::*;

verus! {

/// A parsed command line.
#[derive(Debug)]
pub struct Cli {
    /// Also copy the result to the clipboard.
    pub clip: bool,
    /// Print JSON instead of plain text.
    pub json: bool,
    /// The generator to run.
    pub command: Commands,
}

/// The generators and their options.
#[derive(Debug)]
pub enum Commands {
    /// Random bytes.
    Bytes { length: Option<usize>, encoding: Option<BytesEncoding>, pad: bool },
    /// Shortcodes to characters.
    Chars { inputs: Vec<String> },
    /// A random key.
    Key { size: Option<usize> },
    /// A UUID.
    Uuid { version: Option<UuidVersion>, format: Option<UuidFormat>, uppercase: bool },
    /// Digits of pi.
    Pi { places: Option<usize>, round: Option<bool>, no_round: Option<bool> },
    /// A date.
    Date { kind: DateKind, format: Option<DateFormat> },
    /// The current date and time.
    Now { format: Option<DateFormat> },
    /// Dice rolls and ranges.
    Rng { specs: Vec<String> },
    /// Lorem ipsum.
    Lorem { count: Option<usize>, words: bool, sentences: bool, paragraphs: bool },
}

} // verus!
