//! UUIDs of version 4 or 7 in five textual layouts, in lower or upper case.

use crate::entropy::{cycle_draws, drawn_after, extends, words_bytes, Entropy};
use crate::error::GivError;
use crate::text::{chars_of, hex_char, string_of, upper_char};
use vstd::prelude::*;

verus! {

/// The UUID version to generate.
#[derive(Debug, Clone, Copy, PartialEq, Eq, Structural)]
pub enum UuidVersion {
    /// Random.
    V4,
    /// Time-ordered.
    V7,
}

impl UuidVersion {
    /// The version used when none is given: v7.
    pub fn default() -> (r: Self)
        ensures
            r == UuidVersion::V7,
    {
        UuidVersion::V7
    }

    /// The name of the version, `v4` or `v7`.
    pub fn as_str(&self) -> (r: &'static str)
        ensures
            r@ == version_name(*self),
    {
        match self {
            UuidVersion::V4 => "v4",
            UuidVersion::V7 => "v7",
        }
    }
}

pub open spec fn version_name(v: UuidVersion) -> Seq<char> {
    match v {
        UuidVersion::V4 => "v4"@,
        UuidVersion::V7 => "v7"@,
    }
}

/// A textual layout of a UUID.
#[derive(Debug, Clone, Copy, PartialEq, Eq, Structural)]
pub enum UuidFormat {
    /// `8-4-4-4-12` hexadecimal groups.
    Standard,
    /// 32 hexadecimal digits.
    Simple,
    /// The standard layout in braces.
    Braced,
    /// `urn:uuid:` and the standard layout.
    URN,
    /// `0x` and the 32 digits.
    Hex,
}

impl UuidFormat {
    /// The layout used when none is given: standard.
    pub fn default() -> (r: Self)
        ensures
            r == UuidFormat::Standard,
    {
        UuidFormat::Standard
    }

    /// The name of the layout.
    pub fn as_str(&self) -> (r: &'static str)
        ensures
            r@ == format_name(*self),
    {
        match self {
            UuidFormat::Standard => "standard",
            UuidFormat::Simple => "simple",
            UuidFormat::Braced => "braced",
            UuidFormat::URN => "urn",
            UuidFormat::Hex => "hex",
        }
    }
}

pub open spec fn format_name(f: UuidFormat) -> Seq<char> {
    match f {
        UuidFormat::Standard => "standard"@,
        UuidFormat::Simple => "simple"@,
        UuidFormat::Braced => "braced"@,
        UuidFormat::URN => "urn"@,
        UuidFormat::Hex => "hex"@,
    }
}

/// Hexadecimal digit `i` of a UUID, most significant first.
pub open spec fn uuid_nibble(v: u128, i: int) -> int {
    ((v >> ((4 * (31 - i)) as u128)) & 0xf) as int
}

/// The 32 lowercase hexadecimal digits of a UUID.
pub open spec fn simple_text(v: u128) -> Seq<char> {
    Seq::new(32, |i: int| hex_char(uuid_nibble(v, i)))
}

/// The digits in groups of 8, 4, 4, 4 and 12, joined by `-`.
pub open spec fn hyphenated_text(v: u128) -> Seq<char> {
    let h = simple_text(v);
    h.subrange(0, 8) + seq!['-'] + h.subrange(8, 12) + seq!['-'] + h.subrange(12, 16) + seq!['-']
        + h.subrange(16, 20) + seq!['-'] + h.subrange(20, 32)
}

/// A UUID in a layout, lowercase.
pub open spec fn layout_text(v: u128, f: UuidFormat) -> Seq<char> {
    match f {
        UuidFormat::Standard => hyphenated_text(v),
        UuidFormat::Simple => simple_text(v),
        UuidFormat::Braced => seq!['{'] + hyphenated_text(v) + seq!['}'],
        UuidFormat::URN => "urn:uuid:"@ + hyphenated_text(v),
        UuidFormat::Hex => seq!['0', 'x'] + simple_text(v),
    }
}

/// A UUID in a layout, with ASCII letters upper-cased when `upper` is set.
pub open spec fn uuid_text(v: u128, f: UuidFormat, upper: bool) -> Seq<char> {
    if upper {
        layout_text(v, f).map_values(|c: char| upper_char(c))
    } else {
        layout_text(v, f)
    }
}

/// The integer of bytes read big-endian.
pub open spec fn be_value(b: Seq<u8>) -> int
    decreases b.len(),
{
    if b.len() == 0 {
        0
    } else {
        be_value(b.drop_last()) * 256 + b.last()
    }
}

/// The bytes of a version-4 UUID made of 16 random bytes: byte 6 gets the
/// version 4 in its high half, byte 8 the variant bits `10`.
pub open spec fn v4_bytes(b: Seq<u8>) -> Seq<u8> {
    b.update(6, (b[6] & 0x0f) | 0x40).update(8, (b[8] & 0x3f) | 0x80)
}

/// The bytes of a version-7 UUID: the low 48 bits of the milliseconds
/// big-endian, then the 10 counter and random bytes with the version 7 in
/// the high half of the first and the variant bits `10` in the third.
pub open spec fn v7_bytes(millis: u64, b: Seq<u8>) -> Seq<u8> {
    seq![
        ((millis >> 40u64) & 0xff) as u8,
        ((millis >> 32u64) & 0xff) as u8,
        ((millis >> 24u64) & 0xff) as u8,
        ((millis >> 16u64) & 0xff) as u8,
        ((millis >> 8u64) & 0xff) as u8,
        (millis & 0xff) as u8,
        (b[0] & 0x0f) | 0x70,
        b[1],
        (b[2] & 0x3f) | 0x80,
        b[3],
        b[4],
        b[5],
        b[6],
        b[7],
        b[8],
        b[9],
    ]
}

/// Relies on `uuid::Builder::from_random_bytes`: the 16 bytes as a UUID,
/// read big-endian, with the version and variant bits set.
#[verifier::external_body]
fn v4_from_bytes(b: &[u8]) -> (r: u128)
    requires
        b@.len() == 16,
    ensures
        r as int == be_value(v4_bytes(b@)),
{
    let bytes: [u8; 16] = b.try_into().unwrap_or([0; 16]);
    uuid::Builder::from_random_bytes(bytes).into_uuid().as_u128()
}

/// Relies on `uuid::Builder::from_unix_timestamp_millis`: a version-7 UUID
/// of the milliseconds and the 10 counter and random bytes.
#[verifier::external_body]
fn v7_from_millis(millis: u64, b: &[u8]) -> (r: u128)
    requires
        b@.len() == 10,
    ensures
        r as int == be_value(v7_bytes(millis, b@)),
{
    let bytes: [u8; 10] = b.try_into().unwrap_or([0; 10]);
    uuid::Builder::from_unix_timestamp_millis(millis, &bytes).into_uuid().as_u128()
}

/// Relies on `uuid::Uuid::hyphenated`: the `8-4-4-4-12` lowercase layout.
#[verifier::external_body]
fn hyphenated(v: u128) -> (r: String)
    ensures
        r@ == hyphenated_text(v),
{
    uuid::Uuid::from_u128(v).hyphenated().to_string()
}

/// Relies on `uuid::Uuid::simple`: 32 lowercase hexadecimal digits.
#[verifier::external_body]
fn simple(v: u128) -> (r: String)
    ensures
        r@ == simple_text(v),
{
    uuid::Uuid::from_u128(v).simple().to_string()
}

/// Relies on `uuid::Uuid::braced`: the hyphenated layout in braces.
#[verifier::external_body]
fn braced(v: u128) -> (r: String)
    ensures
        r@ == seq!['{'] + hyphenated_text(v) + seq!['}'],
{
    uuid::Uuid::from_u128(v).braced().to_string()
}

/// Relies on `uuid::Uuid::urn`: `urn:uuid:` and the hyphenated layout.
#[verifier::external_body]
fn urn(v: u128) -> (r: String)
    ensures
        r@ == "urn:uuid:"@ + hyphenated_text(v),
{
    uuid::Uuid::from_u128(v).urn().to_string()
}

fn upper_ascii(c: char) -> (r: char)
    ensures
        r == upper_char(c),
{
    if 'a' <= c && c <= 'z' {
        ((c as u32 - 32) as u8) as char
    } else {
        c
    }
}

/// A UUID value in a layout and case.
pub fn format_uuid(value: u128, format: UuidFormat, uppercase: bool) -> (r: String)
    ensures
        r@ == uuid_text(value, format, uppercase),
{
    let base = match format {
        UuidFormat::Standard => hyphenated(value),
        UuidFormat::Simple => simple(value),
        UuidFormat::Braced => braced(value),
        UuidFormat::URN => urn(value),
        UuidFormat::Hex => {
            let mut out: Vec<char> = Vec::new();
            out.push('0');
            out.push('x');
            let s = chars_of(simple(value).as_str());
            crate::text::push_all(&mut out, &s);
            string_of(out.as_slice())
        },
    };
    if uppercase {
        let cs = chars_of(base.as_str());
        let mut out: Vec<char> = Vec::new();
        let mut i: usize = 0;
        while i < cs.len()
            invariant
                i <= cs.len(),
                out@ == cs@.take(i as int).map_values(|c: char| upper_char(c)),
            decreases cs.len() - i,
        {
            out.push(upper_ascii(cs[i]));
            i = i + 1;
            assert(out@ =~= cs@.take(i as int).map_values(|c: char| upper_char(c)));
        }
        assert(cs@.take(i as int) =~= cs@);
        string_of(out.as_slice())
    } else {
        base
    }
}

/// The version asked for, v7 when none is.
pub open spec fn chosen_version(v: Option<UuidVersion>) -> UuidVersion {
    match v {
        Some(v) => v,
        None => UuidVersion::V7,
    }
}

/// The layout asked for, standard when none is.
pub open spec fn chosen_format(f: Option<UuidFormat>) -> UuidFormat {
    match f {
        Some(f) => f,
        None => UuidFormat::Standard,
    }
}

/// A generated UUID with the options that shaped it.
#[derive(Debug)]
pub struct UuidOutput {
    /// The formatted UUID.
    pub uuid: String,
    /// `v4` or `v7`.
    pub version: String,
    /// The name of the layout.
    pub format: String,
    /// Whether letters were upper-cased.
    pub uppercase: bool,
}

/// The UUID value of a version from a clock reading and drawn bytes: v4
/// from the first 16 bytes, v7 from the milliseconds and the first 10.
pub open spec fn uuid_value(v: UuidVersion, millis: u64, bytes: Seq<u8>) -> int {
    match v {
        UuidVersion::V4 => be_value(v4_bytes(bytes.take(16))),
        UuidVersion::V7 => be_value(v7_bytes(millis, bytes.take(10))),
    }
}

/// A new UUID of `version` (v7 when `None`) in `format` (standard when
/// `None`), upper-cased when asked. Two words are drawn from `entropy`: a
/// v4 UUID is made of their first 16 bytes, a v7 UUID of `now_millis`
/// (milliseconds since the Unix epoch) and their first 10 bytes.
pub fn generate_uuid(
    entropy: &mut Entropy,
    now_millis: u64,
    version: Option<UuidVersion>,
    format: Option<UuidFormat>,
    uppercase: bool,
) -> (r: Result<UuidOutput, GivError>)
    ensures
        extends(old(entropy).history(), final(entropy).history()),
        final(entropy).fixed_words() == old(entropy).fixed_words(),
        cycle_draws(old(entropy).history(), final(entropy).history(), old(entropy).fixed_words()),
        ({
            let v = chosen_version(version);
            let f = chosen_format(format);
            let d = drawn_after(old(entropy).history(), final(entropy).history());
            &&& d.len() == 2
            &&& r matches Ok(o) && o.uuid@ == uuid_text(
                uuid_value(v, now_millis, words_bytes(d)) as u128,
                f,
                uppercase,
            ) && o.version@ == version_name(v) && o.format@ == format_name(f) && o.uppercase
                == uppercase
        }),
{
    let version = match version {
        Some(v) => v,
        None => UuidVersion::default(),
    };
    let bytes = entropy.fill_bytes(16);
    let value = match version {
        UuidVersion::V4 => v4_from_bytes(bytes.as_slice()),
        UuidVersion::V7 => {
            let mut first: Vec<u8> = Vec::new();
            let mut i: usize = 0;
            while i < 10
                invariant
                    i <= 10,
                    bytes@.len() == 16,
                    first@ == bytes@.take(i as int),
                decreases 10 - i,
            {
                first.push(bytes[i]);
                i = i + 1;
                assert(first@ =~= bytes@.take(i as int));
            }
            v7_from_millis(now_millis, first.as_slice())
        },
    };
    proof {
        let d = drawn_after(old(entropy).history(), entropy.history());
        assert(words_bytes(d).take(16) =~= bytes@);
        crate::entropy::lemma_words_bytes_len(d);
        assert(words_bytes(d).take(10) =~= words_bytes(d).take(16).take(10));
        assert(words_bytes(d).take(10) =~= bytes@.take(10));
    }
    let format = match format {
        Some(f) => f,
        None => UuidFormat::default(),
    };
    let text = format_uuid(value, format, uppercase);
    let version_text = string_of(chars_of(version.as_str()).as_slice());
    let format_text = string_of(chars_of(format.as_str()).as_slice());
    let out = UuidOutput { uuid: text, version: version_text, format: format_text, uppercase };
    assert(out.uuid@ == uuid_text(value, format, uppercase));
    Ok(out)
}

} // verus!
