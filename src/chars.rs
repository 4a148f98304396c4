//! Shortcodes to Unicode: `:name:` emoji shortcodes, `&name;` HTML
//! entities, and typing shortcuts such as `(c)`, `1/4` or `->`.

use crate::error::GivError;
use crate::patterns::{lookup_pattern, pair_view, pattern_of};
use crate::text::{chars_of, push_all, string_of};
use vstd::prelude::*;

verus! {

/// The emoji and its name for a shortcode (colons left out).
pub uninterp spec fn emoji_of(code: Seq<char>) -> Option<(Seq<char>, Seq<char>)>;

/// The character and its name for an HTML entity (`&` and `;` included).
pub uninterp spec fn entity_of(entity: Seq<char>) -> Option<(Seq<char>, Seq<char>)>;

/// The character and its name for a typing shortcut of the `penmanship` tables.
pub uninterp spec fn shortcut_of(pattern: Seq<char>) -> Option<(Seq<char>, Seq<char>)>;

/// The views of an owned `(text, name)` pair.
pub open spec fn owned_pair_view(r: Option<(String, String)>) -> Option<(Seq<char>, Seq<char>)> {
    match r {
        Some((a, b)) => Some((a@, b@)),
        None => None,
    }
}

/// Relies on `emojis::get_by_shortcode`: the emoji of a shortcode and its
/// name, from a fixed table.
#[verifier::external_body]
fn emoji_lookup(code: &str) -> (r: Option<(String, String)>)
    ensures
        owned_pair_view(r) == emoji_of(code@),
{
    emojis::get_by_shortcode(code).map(|e| (e.as_str().to_string(), e.name().to_string()))
}

/// Relies on `penmanship::categories::html::lookup_html`: the character of
/// an HTML named reference and its description, from a fixed table.
#[verifier::external_body]
fn entity_lookup(entity: &str) -> (r: Option<(&'static str, &'static str)>)
    ensures
        pair_view(r) == entity_of(entity@),
{
    penmanship::categories::html::lookup_html(entity)
}

/// Relies on `penmanship::lookup`: the character of a shortcut and its
/// name, from fixed tables.
#[verifier::external_body]
fn shortcut_lookup(pattern: &str) -> (r: Option<(&'static str, &'static str)>)
    ensures
        pair_view(r) == shortcut_of(pattern@),
{
    penmanship::lookup(pattern)
}

/// One converted input.
#[derive(Debug)]
pub struct CharResult {
    /// The input as given.
    pub input: String,
    /// The character or emoji.
    pub output: String,
    /// Where it came from: `emoji`, `html` or `pattern`.
    pub result_type: String,
    /// The name of the character.
    pub name: Option<String>,
}

/// Whether the text has the shape `open`, one or more characters, `close`.
pub open spec fn wrapped(s: Seq<char>, open: char, close: char) -> bool {
    s.len() > 2 && s[0] == open && s[s.len() - 1] == close
}

/// What an input converts to, as `(output, name, kind)`: an emoji for
/// `:name:`, then an HTML entity for `&name;`, then the built-in shortcut
/// table, then (for a token of neither shape) the `penmanship` shortcut
/// tables; the first that knows it wins, and the kind says which it was.
pub open spec fn conversion_of(s: Seq<char>) -> Option<(Seq<char>, Seq<char>, Seq<char>)> {
    let emoji = if wrapped(s, ':', ':') {
        emoji_of(s.subrange(1, s.len() - 1))
    } else {
        None
    };
    let entity = if wrapped(s, '&', ';') {
        entity_of(s)
    } else {
        None
    };
    match emoji {
        Some((o, n)) => Some((o, n, "emoji"@)),
        None => match entity {
            Some((o, n)) => Some((o, n, "html"@)),
            None => match pattern_of(s) {
                Some((o, n)) => Some((o, n, "pattern"@)),
                None => if wrapped(s, ':', ':') || wrapped(s, '&', ';') {
                    None
                } else {
                    match shortcut_of(s) {
                        Some((o, n)) => Some((o, n, "pattern"@)),
                        None => None,
                    }
                },
            },
        },
    }
}

/// A result that records `input` converting to `conversion_of(input)`.
pub open spec fn converts(c: CharResult, input: Seq<char>) -> bool {
    match conversion_of(input) {
        Some((o, n, k)) => c.input@ == input && c.output@ == o && c.result_type@ == k && c.name
            is Some && c.name->0@ == n,
        None => false,
    }
}

fn owned(s: &str) -> (r: String)
    ensures
        r@ == s@,
{
    string_of(chars_of(s).as_slice())
}

fn is_wrapped(cs: &Vec<char>, open: char, close: char) -> (r: bool)
    ensures
        r == wrapped(cs@, open, close),
{
    cs.len() > 2 && cs[0] == open && cs[cs.len() - 1] == close
}

fn make_result(input: &str, output: &str, name: &str, kind: &str) -> (r: CharResult)
    ensures
        r.input@ == input@,
        r.output@ == output@,
        r.name matches Some(n) && n@ == name@,
        r.result_type@ == kind@,
{
    CharResult {
        input: owned(input),
        output: owned(output),
        result_type: owned(kind),
        name: Some(owned(name)),
    }
}

/// Converts one input; `UnknownCharacterPattern` with the input when no
/// table knows it.
pub fn convert_input(input: &str) -> (r: Result<CharResult, GivError>)
    ensures
        conversion_of(input@) is Some ==> (r matches Ok(c) && converts(c, input@)),
        conversion_of(input@) is None ==> (r matches Err(e) && e matches GivError::UnknownCharacterPattern(t) && t@
            == input@),
{
    let cs = chars_of(input);
    if is_wrapped(&cs, ':', ':') {
        let mut code: Vec<char> = Vec::new();
        let mut i: usize = 1;
        while i < cs.len() - 1
            invariant
                1 <= i <= cs.len() - 1,
                cs.len() > 2,
                code@ == cs@.subrange(1, i as int),
            decreases cs.len() - 1 - i,
        {
            code.push(cs[i]);
            i = i + 1;
            assert(code@ =~= cs@.subrange(1, i as int));
        }
        let code_text = string_of(code.as_slice());
        if let Some((o, n)) = emoji_lookup(code_text.as_str()) {
            return Ok(make_result(input, o.as_str(), n.as_str(), "emoji"));
        }
    }
    if is_wrapped(&cs, '&', ';') {
        if let Some((o, n)) = entity_lookup(input) {
            return Ok(make_result(input, o, n, "html"));
        }
    }
    if let Some((o, n)) = lookup_pattern(input) {
        return Ok(make_result(input, o, n, "pattern"));
    }
    if !is_wrapped(&cs, ':', ':') && !is_wrapped(&cs, '&', ';') {
        if let Some((o, n)) = shortcut_lookup(input) {
            return Ok(make_result(input, o, n, "pattern"));
        }
    }
    Err(GivError::UnknownCharacterPattern(owned(input)))
}

/// The converted inputs, in input order.
#[derive(Debug)]
pub struct CharsOutput {
    /// One result per input.
    pub results: Vec<CharResult>,
}

impl CharsOutput {
    /// Wraps a list of results.
    pub fn new(results: Vec<CharResult>) -> (r: Self)
        ensures
            r.results@ == results@,
    {
        CharsOutput { results }
    }
}

/// The outputs of the results joined by single spaces.
pub open spec fn joined_outputs(rs: Seq<CharResult>) -> Seq<char>
    decreases rs.len(),
{
    if rs.len() == 0 {
        Seq::empty()
    } else if rs.len() == 1 {
        rs[0].output@
    } else {
        joined_outputs(rs.drop_last()) + seq![' '] + rs.last().output@
    }
}

/// The plain text of a list of results: their outputs joined by spaces.
pub fn join_outputs(results: &Vec<CharResult>) -> (r: String)
    ensures
        r@ == joined_outputs(results@),
{
    let mut out: Vec<char> = Vec::new();
    let mut i: usize = 0;
    while i < results.len()
        invariant
            i <= results.len(),
            out@ == joined_outputs(results@.take(i as int)),
        decreases results.len() - i,
    {
        if i > 0 {
            out.push(' ');
        }
        let o = chars_of(results[i].output.as_str());
        push_all(&mut out, &o);
        assert(results@.take(i + 1).drop_last() =~= results@.take(i as int));
        i = i + 1;
        assert(out@ =~= joined_outputs(results@.take(i as int)));
    }
    assert(results@.take(i as int) =~= results@);
    string_of(out.as_slice())
}

/// Converts every input, in order; the first failure is the result. No
/// inputs at all is `RequiredArgumentsNotProvided`.
pub fn chars_command(inputs: &Vec<String>) -> (r: Result<CharsOutput, GivError>)
    ensures
        inputs@.len() == 0 ==> (r matches Err(e) && e is RequiredArgumentsNotProvided),
        r matches Ok(o) ==> o.results@.len() == inputs@.len() && forall|i: int|
            0 <= i < inputs@.len() ==> converts(#[trigger] o.results@[i], inputs@[i]@),
        r is Err && inputs@.len() > 0 ==> exists|i: int|
            0 <= i < inputs@.len() && conversion_of(#[trigger] inputs@[i]@) is None,
{
    if inputs.len() == 0 {
        return Err(GivError::RequiredArgumentsNotProvided(owned("giv chars --help")));
    }
    let mut results: Vec<CharResult> = Vec::new();
    let mut i: usize = 0;
    while i < inputs.len()
        invariant
            i <= inputs.len(),
            results@.len() == i,
            forall|j: int| 0 <= j < i ==> converts(#[trigger] results@[j], inputs@[j]@),
        decreases inputs.len() - i,
    {
        match convert_input(inputs[i].as_str()) {
            Ok(c) => results.push(c),
            Err(e) => return Err(e),
        }
        i = i + 1;
    }
    Ok(CharsOutput { results })
}

} // verus!
