//! Dates: an instant moved by a day or not, rendered in one of six
//! formats (RFC 3339 whole or split into date and time, Unix seconds or
//! milliseconds, RFC 2822).

use crate::error::GivError;
use crate::rng_spec::first_index;
use crate::text::{chars_of, push_signed_dec, signed_dec, string_of};
use vstd::prelude::*;

verus! {

/// Milliseconds in a day.
pub const DAY_MILLIS: i64 = 86_400_000;

/// 0000-01-01T00:00:00.000Z in milliseconds since the Unix epoch.
pub const FIRST_RENDERABLE_MILLIS: i64 = -62_167_219_200_000;

/// 9999-12-31T23:59:59.999Z in milliseconds since the Unix epoch.
pub const LAST_RENDERABLE_MILLIS: i64 = 253_402_300_799_999;

/// An instant in UTC, as milliseconds since the Unix epoch.
#[derive(Debug, Clone, Copy, PartialEq, Eq, Structural)]
pub struct UtcInstant {
    pub millis: i64,
}

/// An instant in the years 0 to 9999, which every format can render.
pub open spec fn renderable(ms: int) -> bool {
    FIRST_RENDERABLE_MILLIS <= ms <= LAST_RENDERABLE_MILLIS
}

/// What the instant is about.
#[derive(Debug, Clone, Copy, PartialEq, Eq, Structural)]
pub enum DateKind {
    /// The instant itself, as RFC 3339 by default.
    Now,
    /// The instant itself, as Unix seconds by default.
    Timestamp,
    /// The instant itself, as a date by default.
    Today,
    /// One day earlier, as a date by default.
    Yesterday,
    /// One day later, as a date by default.
    Tomorrow,
}

/// How the instant is written.
#[derive(Debug, Clone, Copy, PartialEq, Eq, Structural)]
pub enum DateFormat {
    /// `YYYY-MM-DDTHH:MM:SS.mmmZ`.
    Rfc3339,
    /// The part of RFC 3339 before the `T`.
    Rfc3339Date,
    /// The part of RFC 3339 after the `T`.
    Rfc3339Time,
    /// Whole seconds since the Unix epoch.
    Timestamp,
    /// Milliseconds since the Unix epoch.
    TimestampMs,
    /// `Mon, 15 May 2023 10:30:15 +0000`.
    Rfc2882,
}

/// The RFC 3339 text, with milliseconds and `Z`, of an instant.
pub uninterp spec fn rfc3339_of(ms: int) -> Seq<char>;

/// The RFC 2822 text of an instant.
pub uninterp spec fn rfc2822_of(ms: int) -> Seq<char>;

/// Relies on `chrono::DateTime::to_rfc3339_opts` with milliseconds and
/// `Z`: the text depends on the instant alone.
#[verifier::external_body]
fn rfc3339_text(ms: i64) -> (r: String)
    requires
        renderable(ms as int),
    ensures
        r@ == rfc3339_of(ms as int),
{
    match chrono::DateTime::from_timestamp_millis(ms) {
        Some(d) => d.to_rfc3339_opts(chrono::SecondsFormat::Millis, true),
        None => String::new(),
    }
}

/// Relies on `chrono::DateTime::to_rfc2822`: the text depends on the
/// instant alone; years 0 to 9999 are representable.
#[verifier::external_body]
fn rfc2822_text(ms: i64) -> (r: String)
    requires
        renderable(ms as int),
    ensures
        r@ == rfc2822_of(ms as int),
{
    match chrono::DateTime::from_timestamp_millis(ms) {
        Some(d) => d.to_rfc2822(),
        None => String::new(),
    }
}

/// The format used when none is given.
pub open spec fn default_format(kind: DateKind) -> DateFormat {
    match kind {
        DateKind::Now => DateFormat::Rfc3339,
        DateKind::Timestamp => DateFormat::Timestamp,
        _ => DateFormat::Rfc3339Date,
    }
}

/// The instant a kind is about.
pub open spec fn shifted(ms: int, kind: DateKind) -> int {
    match kind {
        DateKind::Yesterday => ms - DAY_MILLIS,
        DateKind::Tomorrow => ms + DAY_MILLIS,
        _ => ms,
    }
}

/// The part of a text before its first `T` (all of it without one).
pub open spec fn before_t(s: Seq<char>) -> Seq<char> {
    match first_index(s, 'T') {
        Some(i) => s.take(i),
        None => s,
    }
}

/// The part of a text after its first `T` (nothing without one).
pub open spec fn after_t(s: Seq<char>) -> Seq<char> {
    match first_index(s, 'T') {
        Some(i) => s.skip(i + 1),
        None => Seq::empty(),
    }
}

/// The text of an instant in a format.
pub open spec fn date_text(ms: int, format: DateFormat) -> Seq<char> {
    match format {
        DateFormat::Rfc3339 => rfc3339_of(ms),
        DateFormat::Rfc3339Date => before_t(rfc3339_of(ms)),
        DateFormat::Rfc3339Time => after_t(rfc3339_of(ms)),
        DateFormat::Timestamp => signed_dec(ms / 1000),
        DateFormat::TimestampMs => signed_dec(ms),
        DateFormat::Rfc2882 => rfc2822_of(ms),
    }
}

/// The given format, or the kind's default: RFC 3339 for now, seconds for
/// a timestamp, the date for today, yesterday and tomorrow.
pub fn get_date_format(kind: &DateKind, format: Option<DateFormat>) -> (r: DateFormat)
    ensures
        r == (match format {
            Some(f) => f,
            None => default_format(*kind),
        }),
{
    match format {
        Some(f) => f,
        None => match kind {
            DateKind::Now => DateFormat::Rfc3339,
            DateKind::Timestamp => DateFormat::Timestamp,
            DateKind::Today => DateFormat::Rfc3339Date,
            DateKind::Tomorrow => DateFormat::Rfc3339Date,
            DateKind::Yesterday => DateFormat::Rfc3339Date,
        },
    }
}

/// The instant a kind is about: a day (24 hours) earlier for yesterday, a
/// day later for tomorrow, the instant itself otherwise.
pub fn get_date_time(date: UtcInstant, kind: &DateKind) -> (r: UtcInstant)
    requires
        i64::MIN + DAY_MILLIS <= date.millis <= i64::MAX - DAY_MILLIS,
    ensures
        r.millis == shifted(date.millis as int, *kind),
{
    match kind {
        DateKind::Now => date,
        DateKind::Today => date,
        DateKind::Timestamp => date,
        DateKind::Tomorrow => UtcInstant { millis: date.millis + DAY_MILLIS },
        DateKind::Yesterday => UtcInstant { millis: date.millis - DAY_MILLIS },
    }
}

/// Writes an instant in a format.
pub fn format_date_time(date: &UtcInstant, format: &DateFormat) -> (r: String)
    requires
        renderable(date.millis as int),
    ensures
        r@ == date_text(date.millis as int, *format),
{
    match format {
        DateFormat::Rfc3339 => rfc3339_text(date.millis),
        DateFormat::Rfc3339Date => {
            let full = chars_of(rfc3339_text(date.millis).as_str());
            let mut out: Vec<char> = Vec::new();
            let mut i: usize = 0;
            while i < full.len() && full[i] != 'T'
                invariant
                    i <= full.len(),
                    out@ == full@.take(i as int),
                    forall|j: int| 0 <= j < i ==> full@[j] != 'T',
                decreases full.len() - i,
            {
                out.push(full[i]);
                i = i + 1;
                assert(out@ =~= full@.take(i as int));
            }
            proof {
                if i < full.len() {
                    first_t_at(full@, i as int);
                } else {
                    assert(out@ =~= full@);
                }
            }
            string_of(out.as_slice())
        },
        DateFormat::Rfc3339Time => {
            let full = chars_of(rfc3339_text(date.millis).as_str());
            let mut i: usize = 0;
            while i < full.len() && full[i] != 'T'
                invariant
                    i <= full.len(),
                    forall|j: int| 0 <= j < i ==> full@[j] != 'T',
                decreases full.len() - i,
            {
                i = i + 1;
            }
            let mut out: Vec<char> = Vec::new();
            if i < full.len() {
                let mut j: usize = i + 1;
                while j < full.len()
                    invariant
                        i < full.len(),
                        i + 1 <= j <= full.len(),
                        out@ == full@.subrange(i + 1, j as int),
                    decreases full.len() - j,
                {
                    out.push(full[j]);
                    j = j + 1;
                    assert(out@ =~= full@.subrange(i + 1, j as int));
                }
                proof {
                    first_t_at(full@, i as int);
                    assert(out@ =~= full@.skip(i + 1));
                }
            }
            string_of(out.as_slice())
        },
        DateFormat::Timestamp => {
            let ms = date.millis;
            let secs: i64 = if ms >= 0 {
                ms / 1000
            } else {
                let q: u64 = ((-ms) as u64 + 999) / 1000;
                -(q as i64)
            };
            assert(secs == ms as int / 1000) by (nonlinear_arith)
                requires
                    ms >= 0 ==> secs == ms / 1000,
                    ms < 0 ==> secs == -((-ms + 999) / 1000),
            ;
            let mut out: Vec<char> = Vec::new();
            push_signed_dec(&mut out, secs);
            string_of(out.as_slice())
        },
        DateFormat::TimestampMs => {
            let mut out: Vec<char> = Vec::new();
            push_signed_dec(&mut out, date.millis);
            string_of(out.as_slice())
        },
        DateFormat::Rfc2882 => rfc2822_text(date.millis),
    }
}

proof fn first_t_at(s: Seq<char>, i: int)
    requires
        0 <= i < s.len(),
        s[i] == 'T',
        forall|j: int| 0 <= j < i ==> s[j] != 'T',
    ensures
        first_index(s, 'T') == Some(i),
{
    let k = choose|k: int| 0 <= k < s.len() && s[k] == 'T' && forall|j: int| 0 <= j < k ==> s[j] != 'T';
    assert(0 <= i < s.len() && s[i] == 'T');
    if k < i {
    } else if k > i {
        assert(s[i] != 'T');
    }
}

/// A formatted date.
#[derive(Debug)]
pub struct DateOutput {
    /// The text of the date.
    pub date: String,
}

/// The date command on a clock reading: the instant the kind is about,
/// written in the given format or the kind's default.
pub fn date_command(now: UtcInstant, kind: DateKind, format: Option<DateFormat>) -> (r: Result<
    DateOutput,
    GivError,
>)
    requires
        FIRST_RENDERABLE_MILLIS + DAY_MILLIS <= now.millis <= LAST_RENDERABLE_MILLIS - DAY_MILLIS,
    ensures
        r matches Ok(o) && o.date@ == date_text(
            shifted(now.millis as int, kind),
            match format {
                Some(f) => f,
                None => default_format(kind),
            },
        ),
{
    let date = get_date_time(now, &kind);
    let format = get_date_format(&kind, format);
    Ok(DateOutput { date: format_date_time(&date, &format) })
}

/// Moving an instant to yesterday and then writing it in milliseconds gives
/// the instant minus 24 hours; tomorrow gives plus 24 hours.
pub proof fn lemma_day_shift(ms: int)
    ensures
        shifted(ms, DateKind::Yesterday) == ms - 24 * 60 * 60 * 1000,
        shifted(ms, DateKind::Tomorrow) == ms + 24 * 60 * 60 * 1000,
        shifted(ms, DateKind::Now) == ms && shifted(ms, DateKind::Today) == ms && shifted(
            ms,
            DateKind::Timestamp,
        ) == ms,
{
}

} // verus!
