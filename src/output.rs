//! Plain-text rendering of every generator result, and the output options
//! of a run.

use crate::bytes::BytesOutput;
use crate::chars::{join_outputs, joined_outputs, CharsOutput};
use crate::cli::Cli;
use crate::date::DateOutput;
use crate::key::KeyOutput;
use crate::lorem::LoremOutput;
use crate::pi::PiOutput;
use crate::text::{chars_of, string_of};
use crate::uuid::UuidOutput;
use vstd::prelude::*;

verus! {

/// A value with a plain-text form.
pub trait Output {
    /// The plain text of the value.
    spec fn plain(&self) -> Seq<char>;

    /// Renders the plain text of the value.
    fn to_plain(&self) -> (r: String)
        ensures
            r@ == self.plain(),
    ;
}

fn copy_text(s: &str) -> (r: String)
    ensures
        r@ == s@,
{
    string_of(chars_of(s).as_slice())
}

impl Output for String {
    open spec fn plain(&self) -> Seq<char> {
        self@
    }

    fn to_plain(&self) -> (r: String) {
        copy_text(self.as_str())
    }
}

impl<'a> Output for &'a str {
    open spec fn plain(&self) -> Seq<char> {
        (*self)@
    }

    fn to_plain(&self) -> (r: String) {
        copy_text(*self)
    }
}

impl Output for BytesOutput {
    open spec fn plain(&self) -> Seq<char> {
        self.bytes@
    }

    fn to_plain(&self) -> (r: String) {
        copy_text(self.bytes.as_str())
    }
}

impl Output for CharsOutput {
    open spec fn plain(&self) -> Seq<char> {
        joined_outputs(self.results@)
    }

    fn to_plain(&self) -> (r: String) {
        join_outputs(&self.results)
    }
}

impl Output for DateOutput {
    open spec fn plain(&self) -> Seq<char> {
        self.date@
    }

    fn to_plain(&self) -> (r: String) {
        copy_text(self.date.as_str())
    }
}

impl Output for KeyOutput {
    open spec fn plain(&self) -> Seq<char> {
        self.key@
    }

    fn to_plain(&self) -> (r: String) {
        copy_text(self.key.as_str())
    }
}

impl Output for LoremOutput {
    open spec fn plain(&self) -> Seq<char> {
        self.lorem@
    }

    fn to_plain(&self) -> (r: String) {
        copy_text(self.lorem.as_str())
    }
}

impl Output for PiOutput {
    open spec fn plain(&self) -> Seq<char> {
        self.pi@
    }

    fn to_plain(&self) -> (r: String) {
        copy_text(self.pi.as_str())
    }
}

impl Output for UuidOutput {
    open spec fn plain(&self) -> Seq<char> {
        self.uuid@
    }

    fn to_plain(&self) -> (r: String) {
        copy_text(self.uuid.as_str())
    }
}

/// The output options of a run.
#[derive(Debug, Clone, Copy, PartialEq, Eq, Structural)]
pub struct CommandOptions {
    /// Also copy the result to the clipboard.
    pub clip: bool,
    /// Print JSON instead of plain text.
    pub json: bool,
}

impl CommandOptions {
    /// Plain output, no clipboard.
    pub fn default() -> (r: Self)
        ensures
            !r.clip && !r.json,
    {
        CommandOptions { clip: false, json: false }
    }

    /// The options given on a command line.
    pub fn from(cli: &Cli) -> (r: Self)
        ensures
            r.clip == cli.clip && r.json == cli.json,
    {
        CommandOptions { clip: cli.clip, json: cli.json }
    }
}

/// Where and how a result is written.
#[derive(Debug, Clone, Copy, PartialEq, Eq, Structural)]
pub struct Formatter {
    clip: bool,
    json: bool,
}

impl Formatter {
    pub closed spec fn spec_json(&self) -> bool {
        self.json
    }

    pub closed spec fn spec_clip(&self) -> bool {
        self.clip
    }

    /// A formatter for the options.
    pub fn new(options: CommandOptions) -> (r: Self)
        ensures
            r.spec_json() == options.json,
            r.spec_clip() == options.clip,
    {
        Formatter { clip: options.clip, json: options.json }
    }

    /// Whether results are written as JSON.
    pub fn is_json(&self) -> (r: bool)
        ensures
            r == self.spec_json(),
    {
        self.json
    }

    /// Whether results are also copied to the clipboard.
    pub fn is_clip(&self) -> (r: bool)
        ensures
            r == self.spec_clip(),
    {
        self.clip
    }
}

} // verus!
