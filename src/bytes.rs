//! Textual encodings of byte strings: hexadecimal, base64 (padded or not),
//! lossy UTF-8, and array literals for Rust, JavaScript and TypeScript.

use crate::entropy::{cycle_draws, drawn_after, extends, words_bytes, Entropy};
use crate::error::GivError;
use crate::text::{dec, hex_pair, hex_text, push_all, push_dec, push_hex_pair, push_str, string_of, u64_text};
use vstd::prelude::*;

verus! {

/// The number of bytes when none is given.
pub const DEFAULT_BYTE_LENGTH: usize = 32;

/// How bytes are written out.
#[derive(Debug, Clone, Copy, PartialEq, Eq, Structural)]
pub enum BytesEncoding {
    /// Lowercase hexadecimal, two digits a byte.
    Hex,
    /// Standard base64.
    Base64,
    /// The bytes read as UTF-8, invalid sequences replaced (plain text only).
    Raw,
    /// A Rust array literal: `[u8; N] = [0x00, ...]`.
    Rust,
    /// A JavaScript array literal: `[0x00, ...]`.
    JavaScript,
    /// A TypeScript array literal: `number[] = [0x00, ...]`.
    TypeScript,
}

impl BytesEncoding {
    /// The encoding used when none is given: base64.
    pub fn default() -> (r: Self)
        ensures
            r == BytesEncoding::Base64,
    {
        BytesEncoding::Base64
    }
}

/// The base64 digit of a 6-bit value.
pub open spec fn b64_char(v: int) -> char {
    if v < 26 {
        (65 + v) as u8 as char
    } else if v < 52 {
        (97 + v - 26) as u8 as char
    } else if v < 62 {
        (48 + v - 52) as u8 as char
    } else if v == 62 {
        '+'
    } else {
        '/'
    }
}

/// Standard base64 (RFC 4648): each 3 bytes become 4 digits; a final 1 or 2
/// bytes become 2 or 3 digits, followed by `==` or `=` when `pad` is set.
pub open spec fn base64_text(b: Seq<u8>, pad: bool) -> Seq<char>
    decreases b.len(),
{
    if b.len() >= 3 {
        seq![
            b64_char((b[0] as int) / 4),
            b64_char(((b[0] as int) % 4) * 16 + (b[1] as int) / 16),
            b64_char(((b[1] as int) % 16) * 4 + (b[2] as int) / 64),
            b64_char((b[2] as int) % 64),
        ] + base64_text(b.skip(3), pad)
    } else if b.len() == 2 {
        seq![b64_char((b[0] as int) / 4), b64_char(((b[0] as int) % 4) * 16 + (b[1] as int) / 16), b64_char(((b[1] as int) % 16) * 4)]
            + if pad {
            seq!['=']
        } else {
            Seq::empty()
        }
    } else if b.len() == 1 {
        seq![b64_char((b[0] as int) / 4), b64_char(((b[0] as int) % 4) * 16)] + if pad {
            seq!['=', '=']
        } else {
            Seq::empty()
        }
    } else {
        Seq::empty()
    }
}

/// The text of `String::from_utf8_lossy` on these bytes.
pub uninterp spec fn lossy_text(b: Seq<u8>) -> Seq<char>;

/// Relies on `hex::encode`: two lowercase hexadecimal digits per byte.
#[verifier::external_body]
fn hex_encode(b: &[u8]) -> (r: String)
    ensures
        r@ == hex_text(b@),
{
    hex::encode(b)
}

/// Relies on `base64::engine::general_purpose::STANDARD.encode`: standard
/// base64 with `=` padding.
#[verifier::external_body]
fn base64_padded(b: &[u8]) -> (r: String)
    requires
        b@.len() <= usize::MAX / 2,
    ensures
        r@ == base64_text(b@, true),
{
    base64::Engine::encode(&base64::engine::general_purpose::STANDARD, b)
}

/// Relies on `base64::engine::general_purpose::STANDARD_NO_PAD.encode`:
/// standard base64 without padding.
#[verifier::external_body]
fn base64_unpadded(b: &[u8]) -> (r: String)
    requires
        b@.len() <= usize::MAX / 2,
    ensures
        r@ == base64_text(b@, false),
{
    base64::Engine::encode(&base64::engine::general_purpose::STANDARD_NO_PAD, b)
}

/// Relies on `String::from_utf8_lossy`: the bytes decoded as UTF-8, each
/// invalid sequence replaced by U+FFFD; the text depends on the bytes alone.
#[verifier::external_body]
fn utf8_lossy(b: &[u8]) -> (r: String)
    ensures
        r@ == lossy_text(b@),
{
    String::from_utf8_lossy(b).into_owned()
}

/// Digits grouped by three from the right with `_` between groups.
pub open spec fn underscored(s: Seq<char>) -> Seq<char>
    decreases s.len(),
{
    if s.len() <= 3 {
        s
    } else {
        underscored(s.take(s.len() - 3)) + seq!['_'] + s.skip(s.len() - 3)
    }
}

/// `0x..` entries of the bytes, separated by `, `.
pub open spec fn byte_list(b: Seq<u8>) -> Seq<char>
    decreases b.len(),
{
    if b.len() == 0 {
        Seq::empty()
    } else {
        byte_list(b.drop_last()) + (if b.len() > 1 {
            seq![',', ' ']
        } else {
            Seq::empty()
        }) + seq!['0', 'x'] + hex_pair(b.last())
    }
}

/// The text of bytes in an encoding (`pad` matters for base64 only).
pub open spec fn encoded_text(b: Seq<u8>, encoding: BytesEncoding, pad: bool) -> Seq<char> {
    match encoding {
        BytesEncoding::Hex => hex_text(b),
        BytesEncoding::Base64 => base64_text(b, pad),
        BytesEncoding::Raw => lossy_text(b),
        BytesEncoding::Rust => "[u8; "@ + underscored(dec(b.len())) + "] = ["@ + byte_list(b) + "]"@,
        BytesEncoding::JavaScript => "["@ + byte_list(b) + "]"@,
        BytesEncoding::TypeScript => "number[] = ["@ + byte_list(b) + "]"@,
    }
}

fn underscore_prefix(v: &Vec<char>, hi: usize) -> (r: Vec<char>)
    requires
        hi <= v.len(),
    ensures
        r@ == underscored(v@.take(hi as int)),
    decreases hi,
{
    if hi <= 3 {
        let mut r: Vec<char> = Vec::new();
        let mut i: usize = 0;
        while i < hi
            invariant
                i <= hi <= v.len(),
                r@ == v@.take(i as int),
            decreases hi - i,
        {
            r.push(v[i]);
            i = i + 1;
            assert(r@ =~= v@.take(i as int));
        }
        r
    } else {
        let mut r = underscore_prefix(v, hi - 3);
        r.push('_');
        r.push(v[hi - 3]);
        r.push(v[hi - 2]);
        r.push(v[hi - 1]);
        let ghost t = v@.take(hi as int);
        assert(t.take(t.len() - 3) =~= v@.take(hi - 3));
        assert(r@ =~= underscored(t));
        r
    }
}

/// The decimal digits of `num`, grouped by three from the right with `_`.
pub fn format_number_with_underscores(num: usize) -> (r: String)
    ensures
        r@ == underscored(dec(num as nat)),
{
    let digits = u64_text(num as u64);
    let r = underscore_prefix(&digits, digits.len());
    assert(digits@.take(digits.len() as int) =~= digits@);
    string_of(r.as_slice())
}

fn push_byte_list(out: &mut Vec<char>, bytes: &[u8])
    ensures
        final(out)@ == old(out)@ + byte_list(bytes@),
{
    let mut i: usize = 0;
    assert(bytes@.take(0) =~= Seq::<u8>::empty());
    while i < bytes.len()
        invariant
            i <= bytes.len(),
            out@ == old(out)@ + byte_list(bytes@.take(i as int)),
        decreases bytes.len() - i,
    {
        let ghost before = out@;
        if i > 0 {
            out.push(',');
            out.push(' ');
        }
        out.push('0');
        out.push('x');
        push_hex_pair(out, bytes[i]);
        assert(bytes@.take(i + 1).drop_last() =~= bytes@.take(i as int));
        i = i + 1;
        assert(out@ =~= old(out)@ + byte_list(bytes@.take(i as int)));
    }
    assert(bytes@.take(i as int) =~= bytes@);
}

/// `[u8; N] = [0x.., ...]` with `N` grouped by `_`.
fn format_rust_array(bytes: &[u8]) -> (r: String)
    ensures
        r@ == encoded_text(bytes@, BytesEncoding::Rust, false),
{
    let mut out: Vec<char> = Vec::new();
    push_str(&mut out, "[u8; ");
    let digits = u64_text(bytes.len() as u64);
    let grouped = underscore_prefix(&digits, digits.len());
    assert(digits@.take(digits.len() as int) =~= digits@);
    push_all(&mut out, &grouped);
    push_str(&mut out, "] = [");
    push_byte_list(&mut out, bytes);
    push_str(&mut out, "]");
    assert(out@ =~= encoded_text(bytes@, BytesEncoding::Rust, false));
    string_of(out.as_slice())
}

/// `[0x.., ...]`.
fn format_js_array(bytes: &[u8]) -> (r: String)
    ensures
        r@ == encoded_text(bytes@, BytesEncoding::JavaScript, false),
{
    let mut out: Vec<char> = Vec::new();
    push_str(&mut out, "[");
    push_byte_list(&mut out, bytes);
    push_str(&mut out, "]");
    assert(out@ =~= encoded_text(bytes@, BytesEncoding::JavaScript, false));
    string_of(out.as_slice())
}

/// `number[] = [0x.., ...]`.
fn format_ts_array(bytes: &[u8]) -> (r: String)
    ensures
        r@ == encoded_text(bytes@, BytesEncoding::TypeScript, false),
{
    let mut out: Vec<char> = Vec::new();
    push_str(&mut out, "number[] = [");
    push_byte_list(&mut out, bytes);
    push_str(&mut out, "]");
    assert(out@ =~= encoded_text(bytes@, BytesEncoding::TypeScript, false));
    string_of(out.as_slice())
}

/// Encoded bytes with what was asked for.
#[derive(Debug)]
pub struct BytesOutput {
    /// The encoded text.
    pub bytes: String,
    /// The encoding used.
    pub encoding: BytesEncoding,
    /// The number of bytes before encoding.
    pub length: usize,
    /// Whether base64 padding was used; `None` for other encodings.
    pub padding: Option<bool>,
}

impl BytesOutput {
    /// Encodes `raw_bytes`; the padding flag is recorded for base64 only.
    pub fn new(raw_bytes: &[u8], encoding: BytesEncoding, padding: bool) -> (r: Self)
        requires
            raw_bytes@.len() <= usize::MAX / 2,
        ensures
            r.bytes@ == encoded_text(raw_bytes@, encoding, padding),
            r.encoding == encoding,
            r.length == raw_bytes@.len(),
            r.padding == (if encoding == BytesEncoding::Base64 {
                Some(padding)
            } else {
                None
            }),
    {
        let bytes = match encoding {
            BytesEncoding::Hex => hex_encode(raw_bytes),
            BytesEncoding::Base64 => {
                if padding {
                    base64_padded(raw_bytes)
                } else {
                    base64_unpadded(raw_bytes)
                }
            },
            BytesEncoding::Raw => utf8_lossy(raw_bytes),
            BytesEncoding::Rust => format_rust_array(raw_bytes),
            BytesEncoding::JavaScript => format_js_array(raw_bytes),
            BytesEncoding::TypeScript => format_ts_array(raw_bytes),
        };
        let pad = match encoding {
            BytesEncoding::Base64 => Some(padding),
            _ => None,
        };
        BytesOutput { bytes, encoding, length: raw_bytes.len(), padding: pad }
    }
}

/// Random bytes, encoded: `length` bytes (32 when `None`) filled from
/// little-endian words of `entropy`, in `encoding` (base64 when `None`).
/// Raw bytes cannot be given as JSON: with `json` set that is
/// `RawBytesNotSupportedInJson`, and nothing is drawn.
pub fn bytes_command(
    entropy: &mut Entropy,
    length: Option<usize>,
    encoding: Option<BytesEncoding>,
    padding: bool,
    json: bool,
) -> (r: Result<BytesOutput, GivError>)
    requires
        (match length {
            Some(n) => n,
            None => DEFAULT_BYTE_LENGTH,
        }) <= usize::MAX / 2,
    ensures
        extends(old(entropy).history(), final(entropy).history()),
        final(entropy).fixed_words() == old(entropy).fixed_words(),
        cycle_draws(old(entropy).history(), final(entropy).history(), old(entropy).fixed_words()),
        ({
            let n = match length {
                Some(n) => n,
                None => DEFAULT_BYTE_LENGTH,
            };
            let enc = match encoding {
                Some(e) => e,
                None => BytesEncoding::Base64,
            };
            let d = drawn_after(old(entropy).history(), final(entropy).history());
            if json && enc == BytesEncoding::Raw {
                r == Err::<BytesOutput, GivError>(GivError::RawBytesNotSupportedInJson)
                    && d.len() == 0
            } else {
                r matches Ok(o) && o.bytes@ == encoded_text(words_bytes(d).take(n as int), enc, padding)
                    && o.encoding == enc && o.length == n && d.len() == (n + 7) / 8
            }
        }),
{
    let n = match length {
        Some(n) => n,
        None => DEFAULT_BYTE_LENGTH,
    };
    let enc = match encoding {
        Some(e) => e,
        None => BytesEncoding::default(),
    };
    if json && enc == BytesEncoding::Raw {
        proof {
            crate::entropy::lemma_extends_refl(entropy.history());
        }
        assert(drawn_after(old(entropy).history(), entropy.history()).len() == 0);
        return Err(GivError::RawBytesNotSupportedInJson);
    }
    let raw = entropy.fill_bytes(n);
    Ok(BytesOutput::new(raw.as_slice(), enc, padding))
}

/// The 6-bit value of a base64 digit.
pub open spec fn b64_value(c: char) -> int {
    if 'A' <= c && c <= 'Z' {
        (c as u32) as int - 65
    } else if 'a' <= c && c <= 'z' {
        (c as u32) as int - 71
    } else if '0' <= c && c <= '9' {
        (c as u32) as int + 4
    } else if c == '+' {
        62
    } else {
        63
    }
}

/// Standard base64 decoding (RFC 4648) of text with or without its `=`
/// padding: each group of 4 digits gives 3 bytes, a final group of 3 or 2
/// digits gives 2 or 1 bytes.
pub open spec fn base64_decoded(t: Seq<char>) -> Seq<u8>
    decreases t.len(),
{
    if t.len() >= 4 && t[2] != '=' && t[3] != '=' {
        seq![
            (b64_value(t[0]) * 4 + b64_value(t[1]) / 16) as u8,
            ((b64_value(t[1]) % 16) * 16 + b64_value(t[2]) / 4) as u8,
            ((b64_value(t[2]) % 4) * 64 + b64_value(t[3])) as u8,
        ] + base64_decoded(t.skip(4))
    } else if t.len() >= 3 && t[2] != '=' {
        seq![
            (b64_value(t[0]) * 4 + b64_value(t[1]) / 16) as u8,
            ((b64_value(t[1]) % 16) * 16 + b64_value(t[2]) / 4) as u8,
        ]
    } else if t.len() >= 2 {
        seq![(b64_value(t[0]) * 4 + b64_value(t[1]) / 16) as u8]
    } else {
        Seq::empty()
    }
}

proof fn lemma_b64_char(v: int)
    requires
        0 <= v < 64,
    ensures
        b64_value(b64_char(v)) == v,
        b64_char(v) != '=',
{
}

/// Decoding the base64 text of bytes, padded or not, gives the bytes back.
pub proof fn lemma_base64_round_trip(b: Seq<u8>, pad: bool)
    ensures
        base64_decoded(base64_text(b, pad)) == b,
    decreases b.len(),
{
    let t = base64_text(b, pad);
    if b.len() >= 3 {
        let x = b[0] as int;
        let y = b[1] as int;
        let z = b[2] as int;
        let v0 = x / 4;
        let v1 = (x % 4) * 16 + y / 16;
        let v2 = (y % 16) * 4 + z / 64;
        let v3 = z % 64;
        assert(0 <= v0 < 64 && 0 <= v1 < 64 && 0 <= v2 < 64 && 0 <= v3 < 64) by (nonlinear_arith)
            requires
                0 <= x < 256,
                0 <= y < 256,
                0 <= z < 256,
                v0 == x / 4,
                v1 == (x % 4) * 16 + y / 16,
                v2 == (y % 16) * 4 + z / 64,
                v3 == z % 64,
        ;
        lemma_b64_char(v0);
        lemma_b64_char(v1);
        lemma_b64_char(v2);
        lemma_b64_char(v3);
        assert(v0 * 4 + v1 / 16 == x && (v1 % 16) * 16 + v2 / 4 == y && (v2 % 4) * 64 + v3 == z)
            by (nonlinear_arith)
            requires
                0 <= x < 256,
                0 <= y < 256,
                0 <= z < 256,
                v0 == x / 4,
                v1 == (x % 4) * 16 + y / 16,
                v2 == (y % 16) * 4 + z / 64,
                v3 == z % 64,
        ;
        lemma_base64_round_trip(b.skip(3), pad);
        assert(t.skip(4) =~= base64_text(b.skip(3), pad));
        assert(base64_decoded(t) =~= seq![b[0], b[1], b[2]] + b.skip(3));
        assert(b =~= seq![b[0], b[1], b[2]] + b.skip(3));
    } else if b.len() == 2 {
        let x = b[0] as int;
        let y = b[1] as int;
        let v0 = x / 4;
        let v1 = (x % 4) * 16 + y / 16;
        let v2 = (y % 16) * 4;
        assert(0 <= v0 < 64 && 0 <= v1 < 64 && 0 <= v2 < 64 && v0 * 4 + v1 / 16 == x && (v1 % 16)
            * 16 + v2 / 4 == y) by (nonlinear_arith)
            requires
                0 <= x < 256,
                0 <= y < 256,
                v0 == x / 4,
                v1 == (x % 4) * 16 + y / 16,
                v2 == (y % 16) * 4,
        ;
        lemma_b64_char(v0);
        lemma_b64_char(v1);
        lemma_b64_char(v2);
        assert(base64_decoded(t) =~= b);
    } else if b.len() == 1 {
        let x = b[0] as int;
        let v0 = x / 4;
        let v1 = (x % 4) * 16;
        assert(0 <= v0 < 64 && 0 <= v1 < 64 && v0 * 4 + v1 / 16 == x) by (nonlinear_arith)
            requires
                0 <= x < 256,
                v0 == x / 4,
                v1 == (x % 4) * 16,
        ;
        lemma_b64_char(v0);
        lemma_b64_char(v1);
        assert(base64_decoded(t) =~= b);
    } else {
        assert(b =~= Seq::<u8>::empty());
    }
}

pub open spec fn is_lower_hex(c: char) -> bool {
    ('0' <= c && c <= '9') || ('a' <= c && c <= 'f')
}

/// The hexadecimal text of bytes has two characters per byte, each a digit
/// or a lowercase `a` to `f`.
pub proof fn lemma_hex_text_shape(b: Seq<u8>)
    ensures
        hex_text(b).len() == 2 * b.len(),
        forall|i: int| 0 <= i < hex_text(b).len() ==> is_lower_hex(#[trigger] hex_text(b)[i]),
    decreases b.len(),
{
    if b.len() > 0 {
        lemma_hex_text_shape(b.drop_last());
        let h = hex_text(b.drop_last());
        let p = hex_pair(b.last());
        assert forall|i: int| 0 <= i < hex_text(b).len() implies is_lower_hex(
            #[trigger] hex_text(b)[i],
        ) by {
            if i < h.len() {
                assert(hex_text(b)[i] == h[i]);
            } else {
                assert(hex_text(b)[i] == p[i - h.len()]);
            }
        }
    }
}

} // verus!
