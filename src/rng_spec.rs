//! The random-number mini-language: `[count]d<sides>[+N|-N]` for dice and
//! `start..end` for integer or decimal ranges.

use crate::error::GivError;
use crate::text::{chars_of, digit_value, is_digit, string_of};
use vstd::prelude::*;

verus! {

/// A parsed random-number specification.
#[derive(Debug, PartialEq)]
#[allow(inconsistent_fields)]
pub enum RngSpec {
    /// Roll `count` dice of `sides` sides and add `modifier`.
    Dice { count: u64, sides: u64, modifier: i64 },
    /// A uniform integer in `start..=end`.
    RangeInt { start: u64, end: u64 },
    /// A uniform real in `[start, end)`, shown with `precision` decimals;
    /// the endpoints are kept as written.
    RangeFloat { start: String, end: String, precision: usize },
}

/// The mathematical content of an [`RngSpec`].
#[allow(inconsistent_fields)]
pub enum RngSpecView {
    Dice { count: u64, sides: u64, modifier: i64 },
    RangeInt { start: u64, end: u64 },
    RangeFloat { start: Seq<char>, end: Seq<char>, precision: nat },
}

impl View for RngSpec {
    type V = RngSpecView;

    open spec fn view(&self) -> RngSpecView {
        match self {
            RngSpec::Dice { count, sides, modifier } => RngSpecView::Dice {
                count: *count,
                sides: *sides,
                modifier: *modifier,
            },
            RngSpec::RangeInt { start, end } => RngSpecView::RangeInt { start: *start, end: *end },
            RngSpec::RangeFloat { start, end, precision } => RngSpecView::RangeFloat {
                start: start@,
                end: end@,
                precision: *precision as nat,
            },
        }
    }
}

/// The value of a string of decimal digits.
pub open spec fn digits_value(s: Seq<char>) -> nat
    decreases s.len(),
{
    if s.len() == 0 {
        0
    } else {
        digits_value(s.drop_last()) * 10 + digit_value(s.last()) as nat
    }
}

pub open spec fn all_digits(s: Seq<char>) -> bool {
    forall|i: int| 0 <= i < s.len() ==> is_digit(#[trigger] s[i])
}

/// An unsigned integer: one or more digits whose value fits 64 bits.
pub open spec fn uint_of(s: Seq<char>) -> Option<u64> {
    if s.len() > 0 && all_digits(s) && digits_value(s) <= u64::MAX {
        Some(digits_value(s) as u64)
    } else {
        None
    }
}

/// The first index of `c` in `s`.
pub open spec fn first_index(s: Seq<char>, c: char) -> Option<int> {
    if exists|i: int| 0 <= i < s.len() && s[i] == c {
        Some(choose|i: int| 0 <= i < s.len() && s[i] == c && forall|j: int| 0 <= j < i ==> s[j] != c)
    } else {
        None
    }
}

pub open spec fn is_sign(c: char) -> bool {
    c == '+' || c == '-'
}

/// The first index of a sign character in `s`.
pub open spec fn first_sign(s: Seq<char>) -> Option<int> {
    if exists|i: int| 0 <= i < s.len() && is_sign(s[i]) {
        Some(
            choose|i: int|
                0 <= i < s.len() && is_sign(s[i]) && forall|j: int| 0 <= j < i ==> !is_sign(s[j]),
        )
    } else {
        None
    }
}

/// Whether `..` starts at index `i` of `s`.
pub open spec fn dots_at(s: Seq<char>, i: int) -> bool {
    s[i] == '.' && s[i + 1] == '.'
}

/// The first index at which `..` starts in `s`.
pub open spec fn first_range_dots(s: Seq<char>) -> Option<int> {
    if exists|i: int| 0 <= i < s.len() - 1 && #[trigger] dots_at(s, i) {
        Some(
            choose|i: int|
                0 <= i < s.len() - 1 && #[trigger] dots_at(s, i) && forall|j: int|
                    0 <= j < i ==> !#[trigger] dots_at(s, j),
        )
    } else {
        None
    }
}

/// The number of digits after the first `.`, or 0 without one.
pub open spec fn decimal_places(s: Seq<char>) -> nat {
    match first_index(s, '.') {
        Some(p) => (s.len() - p - 1) as nat,
        None => 0,
    }
}

/// A decimal literal: digits with at most one `.`, and at least one digit.
pub open spec fn is_decimal(s: Seq<char>) -> bool {
    &&& forall|i: int| 0 <= i < s.len() ==> is_digit(#[trigger] s[i]) || s[i] == '.'
    &&& forall|i: int, j: int| 0 <= i < j < s.len() && s[i] == '.' ==> s[j] != '.'
    &&& exists|i: int| 0 <= i < s.len() && is_digit(#[trigger] s[i])
}

/// The digits before the `.` of a decimal literal (all of them without one).
pub open spec fn whole_part(s: Seq<char>) -> Seq<char> {
    match first_index(s, '.') {
        Some(p) => s.take(p),
        None => s,
    }
}

/// The digits after the `.` of a decimal literal.
pub open spec fn frac_part(s: Seq<char>) -> Seq<char> {
    match first_index(s, '.') {
        Some(p) => s.skip(p + 1),
        None => Seq::empty(),
    }
}

pub open spec fn zeros(n: int) -> Seq<char> {
    Seq::new(n as nat, |i: int| '0')
}

/// A decimal literal written with `w` digits before the point and `f`
/// after it, padded with zeros, the point left out.
pub open spec fn aligned(s: Seq<char>, w: int, f: int) -> Seq<char> {
    zeros(w - whole_part(s).len()) + whole_part(s) + frac_part(s) + zeros(f - frac_part(s).len())
}

/// Dictionary order on digit strings of one length.
pub open spec fn lex_less(x: Seq<char>, y: Seq<char>) -> bool {
    exists|i: int| 0 <= i < x.len() && x.take(i) == y.take(i) && #[trigger] x[i] < #[trigger] y[i]
}

pub open spec fn max_int(a: int, b: int) -> int {
    if a >= b {
        a
    } else {
        b
    }
}

/// `a < b` for decimal literals: aligned on the point and padded with
/// zeros to the same width, the digits of `a` come first in dictionary order.
pub open spec fn decimal_less(a: Seq<char>, b: Seq<char>) -> bool {
    let w = max_int(whole_part(a).len() as int, whole_part(b).len() as int);
    let f = max_int(frac_part(a).len() as int, frac_part(b).len() as int);
    lex_less(aligned(a, w, f), aligned(b, w, f))
}

/// The dice part after the `d`: sides, then an optional signed modifier.
pub open spec fn dice_tail(count: u64, rest: Seq<char>) -> Option<RngSpecView> {
    match first_sign(rest) {
        Some(j) => match (uint_of(rest.take(j)), uint_of(rest.skip(j + 1))) {
            (Some(sides), Some(m)) => if sides > 0 && m <= i64::MAX {
                Some(
                    RngSpecView::Dice {
                        count,
                        sides,
                        modifier: if rest[j] == '-' {
                            -(m as int)
                        } else {
                            m as int
                        } as i64,
                    },
                )
            } else {
                None
            },
            _ => None,
        },
        None => match uint_of(rest) {
            Some(sides) => if sides > 0 {
                Some(RngSpecView::Dice { count, sides, modifier: 0 })
            } else {
                None
            },
            None => None,
        },
    }
}

/// What a specification text means, or `None` when it is invalid. A text
/// with a `d` is dice; otherwise one with `..` is a range, decimal when
/// either side has a `.`.
pub open spec fn rng_spec_of(s: Seq<char>) -> Option<RngSpecView> {
    match first_index(s, 'd') {
        Some(i) => {
            let count_text = s.take(i);
            let count: Option<u64> = if count_text.len() == 0 {
                Some(1)
            } else {
                uint_of(count_text)
            };
            match count {
                Some(c) => if c > 0 {
                    dice_tail(c, s.skip(i + 1))
                } else {
                    None
                },
                None => None,
            }
        },
        None => match first_range_dots(s) {
            Some(p) => {
                let a = s.take(p);
                let b = s.skip(p + 2);
                if first_index(a, '.') is Some || first_index(b, '.') is Some {
                    if is_decimal(a) && is_decimal(b) && decimal_less(a, b) {
                        Some(
                            RngSpecView::RangeFloat {
                                start: a,
                                end: b,
                                precision: if decimal_places(a) >= decimal_places(b) {
                                    decimal_places(a)
                                } else {
                                    decimal_places(b)
                                },
                            },
                        )
                    } else {
                        None
                    }
                } else {
                    match (uint_of(a), uint_of(b)) {
                        (Some(x), Some(y)) => if x < y {
                            Some(RngSpecView::RangeInt { start: x, end: y })
                        } else {
                            None
                        },
                        _ => None,
                    }
                }
            },
            None => None,
        },
    }
}

fn slice_of(cs: &Vec<char>, lo: usize, hi: usize) -> (r: Vec<char>)
    requires
        lo <= hi <= cs.len(),
    ensures
        r@ == cs@.subrange(lo as int, hi as int),
{
    let mut r: Vec<char> = Vec::new();
    let mut i: usize = lo;
    while i < hi
        invariant
            lo <= i <= hi,
            hi <= cs.len(),
            r@ == cs@.subrange(lo as int, i as int),
        decreases hi - i,
    {
        r.push(cs[i]);
        i = i + 1;
        assert(r@ =~= cs@.subrange(lo as int, i as int));
    }
    r
}

fn find_char(cs: &Vec<char>, c: char) -> (r: Option<usize>)
    ensures
        r matches Some(i) ==> i < cs.len() && first_index(cs@, c) == Some(i as int),
        r is None ==> first_index(cs@, c) is None,
{
    let mut i: usize = 0;
    while i < cs.len()
        invariant
            i <= cs.len(),
            forall|j: int| 0 <= j < i ==> cs@[j] != c,
        decreases cs.len() - i,
    {
        if cs[i] == c {
            let ghost k = choose|k: int|
                0 <= k < cs@.len() && cs@[k] == c && forall|j: int| 0 <= j < k ==> cs@[j] != c;
            assert(0 <= i < cs@.len() && cs@[i as int] == c && forall|j: int|
                0 <= j < i ==> cs@[j] != c);
            proof {
                if k < i {
                } else if k > i {
                    assert(cs@[i as int] != c);
                }
            }
            return Some(i);
        }
        i = i + 1;
    }
    None
}

fn find_sign(cs: &Vec<char>) -> (r: Option<usize>)
    ensures
        r matches Some(i) ==> i < cs.len() && first_sign(cs@) == Some(i as int),
        r is None ==> first_sign(cs@) is None,
{
    let mut i: usize = 0;
    while i < cs.len()
        invariant
            i <= cs.len(),
            forall|j: int| 0 <= j < i ==> !is_sign(cs@[j]),
        decreases cs.len() - i,
    {
        if cs[i] == '+' || cs[i] == '-' {
            let ghost k = choose|k: int|
                0 <= k < cs@.len() && is_sign(cs@[k]) && forall|j: int|
                    0 <= j < k ==> !is_sign(cs@[j]);
            assert(0 <= i < cs@.len() && is_sign(cs@[i as int]) && forall|j: int|
                0 <= j < i ==> !is_sign(cs@[j]));
            proof {
                if k > i {
                    assert(!is_sign(cs@[i as int]));
                }
            }
            return Some(i);
        }
        i = i + 1;
    }
    None
}

fn find_range_dots(cs: &Vec<char>) -> (r: Option<usize>)
    ensures
        r matches Some(i) ==> first_range_dots(cs@) == Some(i as int) && i + 1 < cs.len(),
        r is None ==> first_range_dots(cs@) is None,
{
    let mut i: usize = 0;
    while i < cs.len()
        invariant
            i <= cs.len(),
            forall|j: int| 0 <= j < i && j < cs@.len() - 1 ==> !#[trigger] dots_at(cs@, j),
        decreases cs.len() - i,
    {
        if i + 1 < cs.len() && cs[i] == '.' && cs[i + 1] == '.' {
            let ghost k = choose|k: int|
                0 <= k < cs@.len() - 1 && #[trigger] dots_at(cs@, k) && forall|j: int|
                    0 <= j < k ==> !#[trigger] dots_at(cs@, j);
            assert(0 <= i < cs@.len() - 1 && dots_at(cs@, i as int));
            proof {
                if k > i {
                    assert(!dots_at(cs@, i as int));
                }
            }
            return Some(i);
        }
        i = i + 1;
    }
    None
}

proof fn lemma_digits_value_grows(s: Seq<char>, k: int)
    requires
        0 <= k <= s.len(),
    ensures
        digits_value(s.take(k)) <= digits_value(s),
    decreases s.len() - k,
{
    if k < s.len() {
        lemma_digits_value_grows(s, k + 1);
        assert(s.take(k + 1).drop_last() =~= s.take(k));
    } else {
        assert(s.take(k) =~= s);
    }
}

/// The value of an unsigned integer text: one or more digits, at most `u64::MAX`.
fn parse_uint(cs: &Vec<char>) -> (r: Option<u64>)
    ensures
        r == uint_of(cs@),
{
    if cs.len() == 0 {
        return None;
    }
    let mut acc: u128 = 0;
    let mut i: usize = 0;
    while i < cs.len()
        invariant
            i <= cs.len(),
            all_digits(cs@.take(i as int)),
            acc == digits_value(cs@.take(i as int)),
            acc <= u64::MAX,
        decreases cs.len() - i,
    {
        let c = cs[i];
        if !('0' <= c && c <= '9') {
            assert(!is_digit(cs@[i as int]));
            return None;
        }
        let d: u128 = if c == '0' { 0 } else if c == '1' { 1 } else if c == '2' { 2 } else if c == '3' { 3 } else if c == '4' { 4 } else if c == '5' { 5 } else if c == '6' { 6 } else if c == '7' { 7 } else if c == '8' { 8 } else { 9 };
        assert(cs@.take(i + 1).drop_last() =~= cs@.take(i as int));
        let next: u128 = acc * 10 + d;
        i = i + 1;
        assert(all_digits(cs@.take(i as int)));
        if next > u64::MAX as u128 {
            proof {
                lemma_digits_value_grows(cs@, i as int);
            }
            return None;
        }
        acc = next;
    }
    assert(cs@.take(i as int) =~= cs@);
    Some(acc as u64)
}

fn is_decimal_text(cs: &Vec<char>) -> (r: bool)
    ensures
        r == is_decimal(cs@),
{
    let mut dots: usize = 0;
    let mut digits: usize = 0;
    let mut i: usize = 0;
    while i < cs.len()
        invariant
            i <= cs.len(),
            dots <= 1,
            digits <= i,
            forall|j: int| 0 <= j < i ==> is_digit(#[trigger] cs@[j]) || cs@[j] == '.',
            forall|a: int, b: int| 0 <= a < b < i && cs@[a] == '.' ==> cs@[b] != '.',
            dots == 0 ==> forall|j: int| 0 <= j < i ==> cs@[j] != '.',
            dots == 1 ==> exists|j: int| 0 <= j < i && cs@[j] == '.',
            digits > 0 <==> exists|j: int| 0 <= j < i && is_digit(#[trigger] cs@[j]),
        decreases cs.len() - i,
    {
        let c = cs[i];
        if c == '.' {
            if dots == 1 {
                let ghost a = choose|j: int| 0 <= j < i && cs@[j] == '.';
                assert(0 <= a < i && cs@[a] == '.' && cs@[i as int] == '.');
                return false;
            }
            dots = 1;
        } else if '0' <= c && c <= '9' {
            digits = digits + 1;
        } else {
            assert(!(is_digit(cs@[i as int]) || cs@[i as int] == '.'));
            return false;
        }
        i = i + 1;
    }
    digits > 0
}

/// The number of decimal places of a number text: the characters after
/// its first `.`, or 0 when it has none.
pub fn count_decimal_places(s: &str) -> (r: usize)
    ensures
        r == decimal_places(s@),
{
    let cs = chars_of(s);
    places_of(&cs)
}

fn places_of(cs: &Vec<char>) -> (r: usize)
    ensures
        r == decimal_places(cs@),
{
    match find_char(cs, '.') {
        Some(p) => {
            assert(p < cs.len());
            cs.len() - p - 1
        },
        None => 0,
    }
}

/// The digits before the `.` of a number text.
pub fn whole_digits(cs: &Vec<char>) -> (r: Vec<char>)
    ensures
        r@ == whole_part(cs@),
{
    match find_char(cs, '.') {
        Some(p) => {
            let r = slice_of(cs, 0, p);
            assert(r@ =~= cs@.take(p as int));
            r
        },
        None => slice_of(cs, 0, cs.len()),
    }
}

/// The digits after the `.` of a number text.
pub fn frac_digits(cs: &Vec<char>) -> (r: Vec<char>)
    ensures
        r@ == frac_part(cs@),
{
    match find_char(cs, '.') {
        Some(p) => {
            let r = slice_of(cs, p + 1, cs.len());
            assert(r@ =~= cs@.skip(p + 1));
            r
        },
        None => Vec::new(),
    }
}

fn push_zeros(out: &mut Vec<char>, n: usize)
    ensures
        final(out)@ == old(out)@ + zeros(n as int),
{
    let mut i: usize = 0;
    while i < n
        invariant
            i <= n,
            out@ == old(out)@ + zeros(i as int),
        decreases n - i,
    {
        out.push('0');
        i = i + 1;
        assert(out@ =~= old(out)@ + zeros(i as int));
    }
}

fn aligned_of(cs: &Vec<char>, w: usize, f: usize) -> (r: Vec<char>)
    requires
        whole_part(cs@).len() <= w,
        frac_part(cs@).len() <= f,
    ensures
        r@ == aligned(cs@, w as int, f as int),
{
    let whole = whole_digits(cs);
    let frac = frac_digits(cs);
    let mut r: Vec<char> = Vec::new();
    push_zeros(&mut r, w - whole.len());
    crate::text::push_all(&mut r, &whole);
    crate::text::push_all(&mut r, &frac);
    push_zeros(&mut r, f - frac.len());
    assert(r@ =~= aligned(cs@, w as int, f as int));
    r
}

fn lex_less_exec(x: &Vec<char>, y: &Vec<char>) -> (r: bool)
    requires
        x.len() == y.len(),
    ensures
        r == lex_less(x@, y@),
{
    let mut i: usize = 0;
    while i < x.len()
        invariant
            i <= x.len(),
            x.len() == y.len(),
            x@.take(i as int) == y@.take(i as int),
        decreases x.len() - i,
    {
        if x[i] != y[i] {
            let less = x[i] < y[i];
            proof {
                if !less {
                    assert forall|j: int|
                        0 <= j < x@.len() && x@.take(j) == y@.take(j) implies !(#[trigger] x@[j]
                        < #[trigger] y@[j]) by {
                        if j < i {
                            assert(x@[j] == x@.take(i as int)[j]);
                            assert(y@[j] == y@.take(i as int)[j]);
                        } else if j > i {
                            assert(x@[i as int] == x@.take(j)[i as int]);
                            assert(y@[i as int] == y@.take(j)[i as int]);
                        }
                    }
                }
            }
            return less;
        }
        i = i + 1;
        assert(x@.take(i as int) =~= y@.take(i as int));
    }
    proof {
        assert(x@ =~= x@.take(i as int));
        assert(y@ =~= y@.take(i as int));
    }
    false
}

fn decimal_less_exec(a: &Vec<char>, b: &Vec<char>) -> (r: bool)
    ensures
        r == decimal_less(a@, b@),
{
    let wa = whole_digits(a).len();
    let wb = whole_digits(b).len();
    let fa = frac_digits(a).len();
    let fb = frac_digits(b).len();
    let w = if wa >= wb { wa } else { wb };
    let f = if fa >= fb { fa } else { fb };
    let x = aligned_of(a, w, f);
    let y = aligned_of(b, w, f);
    lex_less_exec(&x, &y)
}

fn invalid(spec: &str) -> (e: GivError)
    ensures
        e matches GivError::InvalidRngSpec(t) && t@ == spec@,
{
    GivError::InvalidRngSpec(string_of(chars_of(spec).as_slice()))
}

fn parse_dice_tail(count: u64, rest: &Vec<char>) -> (r: Option<RngSpec>)
    ensures
        match dice_tail(count, rest@) {
            Some(v) => r matches Some(x) && x@ == v,
            None => r is None,
        },
{
    match find_sign(rest) {
        Some(j) => {
            let sides_text = slice_of(rest, 0, j);
            let mod_text = slice_of(rest, j + 1, rest.len());
            assert(sides_text@ =~= rest@.take(j as int));
            assert(mod_text@ =~= rest@.skip(j + 1));
            match (parse_uint(&sides_text), parse_uint(&mod_text)) {
                (Some(sides), Some(m)) => {
                    if sides > 0 && m <= i64::MAX as u64 {
                        let modifier: i64 = if rest[j] == '-' {
                            -(m as i64)
                        } else {
                            m as i64
                        };
                        Some(RngSpec::Dice { count, sides, modifier })
                    } else {
                        None
                    }
                },
                _ => None,
            }
        },
        None => match parse_uint(rest) {
            Some(sides) => {
                if sides > 0 {
                    Some(RngSpec::Dice { count, sides, modifier: 0 })
                } else {
                    None
                }
            },
            None => None,
        },
    }
}

fn parse_range(cs: &Vec<char>, p: usize) -> (r: Option<RngSpec>)
    requires
        p + 1 < cs.len(),
    ensures
        ({
            let a = cs@.take(p as int);
            let b = cs@.skip(p + 2);
            if first_index(a, '.') is Some || first_index(b, '.') is Some {
                if is_decimal(a) && is_decimal(b) && decimal_less(a, b) {
                    r matches Some(x) && x@ == RngSpecView::RangeFloat {
                        start: a,
                        end: b,
                        precision: if decimal_places(a) >= decimal_places(b) {
                            decimal_places(a)
                        } else {
                            decimal_places(b)
                        },
                    }
                } else {
                    r is None
                }
            } else {
                match (uint_of(a), uint_of(b)) {
                    (Some(x), Some(y)) => if x < y {
                        r matches Some(v) && v@ == RngSpecView::RangeInt { start: x, end: y }
                    } else {
                        r is None
                    },
                    _ => r is None,
                }
            }
        }),
{
    let a = slice_of(cs, 0, p);
    let b = slice_of(cs, p + 2, cs.len());
    assert(a@ =~= cs@.take(p as int));
    assert(b@ =~= cs@.skip(p + 2));
    if find_char(&a, '.').is_some() || find_char(&b, '.').is_some() {
        if is_decimal_text(&a) && is_decimal_text(&b) && decimal_less_exec(&a, &b) {
            let pa = places_of(&a);
            let pb = places_of(&b);
            let precision = if pa >= pb { pa } else { pb };
            Some(
                RngSpec::RangeFloat {
                    start: string_of(a.as_slice()),
                    end: string_of(b.as_slice()),
                    precision,
                },
            )
        } else {
            None
        }
    } else {
        match (parse_uint(&a), parse_uint(&b)) {
            (Some(x), Some(y)) => {
                if x < y {
                    Some(RngSpec::RangeInt { start: x, end: y })
                } else {
                    None
                }
            },
            _ => None,
        }
    }
}

/// Parses one random-number specification. A text with a `d` is dice
/// (`[count]d<sides>[+N|-N]`, count 1 when left out); otherwise a text with
/// `..` is a range, of decimals when either side has a `.`. Anything else,
/// a zero count or side, an unparsable number or a range whose start is
/// not below its end is `InvalidRngSpec` with the text.
pub fn parse_spec(spec: &str) -> (r: Result<RngSpec, GivError>)
    ensures
        match rng_spec_of(spec@) {
            Some(v) => r matches Ok(x) && x@ == v,
            None => r matches Err(e) && e matches GivError::InvalidRngSpec(t) && t@ == spec@,
        },
{
    let cs = chars_of(spec);
    let parsed = match find_char(&cs, 'd') {
        Some(i) => {
            let count_text = slice_of(&cs, 0, i);
            assert(count_text@ =~= cs@.take(i as int));
            let count: Option<u64> = if i == 0 {
                Some(1)
            } else {
                parse_uint(&count_text)
            };
            match count {
                Some(c) => {
                    if c > 0 {
                        let rest = slice_of(&cs, i + 1, cs.len());
                        assert(rest@ =~= cs@.skip(i + 1));
                        parse_dice_tail(c, &rest)
                    } else {
                        None
                    }
                },
                None => None,
            }
        },
        None => match find_range_dots(&cs) {
            Some(p) => parse_range(&cs, p),
            None => None,
        },
    };
    match parsed {
        Some(x) => Ok(x),
        None => Err(invalid(spec)),
    }
}

} // verus!
