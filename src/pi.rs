//! Pi to a requested number of decimal places, truncated or rounded half-up,
//! from a table of its first ten thousand decimals.

use crate::error::GivError;
use crate::pi_digits::PI_DECIMALS;
use crate::rng_spec::{digits_value, zeros};
use crate::text::is_digit;
use crate::text::{chars_of, push_all, string_of};
use vstd::prelude::*;

verus! {

/// Rounding is on unless a flag turns it off.
pub const DEFAULT_ROUND: bool = true;

/// The number of places when none is given: the precision of an `f64` pi.
pub const PI_DEFAULT_PLACES: usize = 15;

/// The `--round` and `--no-round` flags, as given on a command line.
pub type RoundingFlags = (Option<bool>, Option<bool>);

/// The table of decimals.
pub open spec fn pi_table() -> Seq<char> {
    PI_DECIMALS@
}

/// The next decimal digit (`'9'` has none and stays).
pub open spec fn succ_digit(c: char) -> char {
    if c == '0' {
        '1'
    } else if c == '1' {
        '2'
    } else if c == '2' {
        '3'
    } else if c == '3' {
        '4'
    } else if c == '4' {
        '5'
    } else if c == '5' {
        '6'
    } else if c == '6' {
        '7'
    } else if c == '7' {
        '8'
    } else if c == '8' {
        '9'
    } else {
        c
    }
}

/// Adds one unit in the last place: trailing `9`s become `0`s and the digit
/// before them goes up by one.
pub open spec fn round_up(d: Seq<char>) -> Seq<char>
    decreases d.len(),
{
    if d.len() == 0 {
        d
    } else if d.last() == '9' {
        round_up(d.drop_last()).push('0')
    } else {
        d.drop_last().push(succ_digit(d.last()))
    }
}

/// Whether the digit after the first `places` decimals calls for rounding up.
pub open spec fn rounds_up(places: nat) -> bool {
    places < pi_table().len() && pi_table()[places as int] >= '5'
}

/// `3.` and the first `places` decimals, rounded half-up on the next digit
/// when `round` is set and a next digit exists.
pub open spec fn pi_text(places: nat, round: bool) -> Seq<char> {
    let d = pi_table().take(places as int);
    seq!['3', '.'] + if round && rounds_up(places) {
        round_up(d)
    } else {
        d
    }
}

fn succ(c: char) -> (r: char)
    ensures
        r == succ_digit(c),
{
    if c == '0' {
        '1'
    } else if c == '1' {
        '2'
    } else if c == '2' {
        '3'
    } else if c == '3' {
        '4'
    } else if c == '4' {
        '5'
    } else if c == '5' {
        '6'
    } else if c == '6' {
        '7'
    } else if c == '7' {
        '8'
    } else if c == '8' {
        '9'
    } else {
        c
    }
}

proof fn lemma_round_up_zeros(d: Seq<char>, k: int)
    requires
        0 <= k <= d.len(),
        forall|j: int| k <= j < d.len() ==> d[j] == '9',
    ensures
        round_up(d) == round_up(d.take(k)) + zeros(d.len() - k),
    decreases d.len() - k,
{
    if k < d.len() {
        lemma_round_up_zeros(d.drop_last(), k);
        assert(d.drop_last().take(k) =~= d.take(k));
        assert(round_up(d) =~= round_up(d.take(k)) + zeros(d.len() - k));
    } else {
        assert(d.take(k) =~= d);
        assert(round_up(d) =~= round_up(d.take(k)) + zeros(0));
    }
}

fn round_up_digits(d: &mut Vec<char>)
    ensures
        final(d)@ == round_up(old(d)@),
{
    let ghost d0 = d@;
    let mut i: usize = d.len();
    while i > 0
        invariant
            i <= d.len(),
            d@.len() == d0.len(),
            d0 == old(d)@,
            d@ == d0.take(i as int) + zeros(d0.len() - i),
            forall|j: int| i <= j < d0.len() ==> d0[j] == '9',
        decreases i,
    {
        let k = i - 1;
        if d[k] == '9' {
            d.set(k, '0');
            i = k;
            assert(d@ =~= d0.take(i as int) + zeros(d0.len() - i));
        } else {
            let c = succ(d[k]);
            d.set(k, c);
            proof {
                lemma_round_up_zeros(d0, i as int);
                assert(d0.take(i as int).drop_last() =~= d0.take(k as int));
                assert(d0.take(i as int).last() == d0[k as int]);
                assert(round_up(d0.take(i as int)) == d0.take(k as int).push(c));
                assert(d@ =~= d0.take(k as int).push(c) + zeros(d0.len() - i));
                assert(d@ =~= round_up(d0.take(i as int)) + zeros(d0.len() - i));
            }
            return;
        }
    }
    proof {
        lemma_round_up_zeros(d0, 0);
        assert(round_up(d0.take(0)) =~= Seq::<char>::empty());
        assert(d@ =~= round_up(d0));
    }
}

/// Pi with `places` decimals after `3.`, rounded half-up on the next table
/// digit when `round` is set (the full table is given as it is). Zero places
/// or more than the table holds is `DecimalPlacesOutOfRange(places, max)`.
pub fn get_pi(places: usize, round: bool) -> (r: Result<String, GivError>)
    ensures
        1 <= places <= pi_table().len() ==> (r matches Ok(s) && s@ == pi_text(places as nat, round)),
        !(1 <= places <= pi_table().len()) ==> r == Err::<String, GivError>(
            GivError::DecimalPlacesOutOfRange(places, pi_table().len() as usize),
        ),
{
    let table = chars_of(PI_DECIMALS);
    let max = table.len();
    if places == 0 || places > max {
        return Err(GivError::DecimalPlacesOutOfRange(places, max));
    }
    let mut digits: Vec<char> = Vec::new();
    let mut i: usize = 0;
    while i < places
        invariant
            i <= places <= table.len(),
            table@ == pi_table(),
            digits@ == pi_table().take(i as int),
        decreases places - i,
    {
        digits.push(table[i]);
        i = i + 1;
        assert(digits@ =~= pi_table().take(i as int));
    }
    if round && places < max && table[places] >= '5' {
        round_up_digits(&mut digits);
    }
    let mut out: Vec<char> = Vec::new();
    out.push('3');
    out.push('.');
    push_all(&mut out, &digits);
    assert(out@ =~= pi_text(places as nat, round));
    Ok(string_of(out.as_slice()))
}

/// The rounding choice of the two flags: `--round` alone turns it on,
/// `--no-round` alone turns it off, neither keeps the default, and both is
/// `ConflictingFlags`.
pub fn get_rounding(rounding_flags: RoundingFlags) -> (r: Result<bool, GivError>)
    ensures
        match rounding_flags {
            (Some(true), Some(true)) => r matches Err(e) && e matches GivError::ConflictingFlags(
                d,
            ) && d@ == "cannot specify both --round and --no-round"@,
            (Some(true), _) => r == Ok::<bool, GivError>(true),
            (_, Some(true)) => r == Ok::<bool, GivError>(false),
            _ => r == Ok::<bool, GivError>(DEFAULT_ROUND),
        },
{
    match rounding_flags {
        (Some(true), Some(true)) => Err(
            GivError::ConflictingFlags(
                string_of(chars_of("cannot specify both --round and --no-round").as_slice()),
            ),
        ),
        (Some(true), _) => Ok(true),
        (_, Some(true)) => Ok(false),
        _ => Ok(DEFAULT_ROUND),
    }
}

/// The result of the pi generator.
#[derive(Debug)]
pub struct PiOutput {
    /// Pi as text.
    pub pi: String,
    /// Whether the last digit was rounded.
    pub rounded: bool,
}

/// Pi with the given places (15 when `None`) and rounding (on when `None`).
pub fn generate_pi(places: Option<usize>, round: Option<bool>) -> (r: Result<PiOutput, GivError>)
    ensures
        ({
            let p = match places {
                Some(p) => p,
                None => PI_DEFAULT_PLACES,
            };
            let rd = match round {
                Some(b) => b,
                None => DEFAULT_ROUND,
            };
            &&& 1 <= p <= pi_table().len() ==> (r matches Ok(o) && o.pi@ == pi_text(p as nat, rd)
                && o.rounded == rd)
            &&& !(1 <= p <= pi_table().len()) ==> r == Err::<PiOutput, GivError>(
                GivError::DecimalPlacesOutOfRange(p, pi_table().len() as usize),
            )
        }),
{
    let places = match places {
        Some(p) => p,
        None => PI_DEFAULT_PLACES,
    };
    let round = match round {
        Some(b) => b,
        None => DEFAULT_ROUND,
    };
    match get_pi(places, round) {
        Ok(pi) => Ok(PiOutput { pi, rounded: round }),
        Err(e) => Err(e),
    }
}

/// The pi command: places (15 when `None`) and the rounding flags.
pub fn pi_command(places: Option<usize>, rounding: RoundingFlags) -> (r: Result<PiOutput, GivError>)
    ensures
        rounding == (Some(true), Some(true)) ==> (r matches Err(e) && e is ConflictingFlags),
        rounding != (Some(true), Some(true)) ==> ({
            let p = match places {
                Some(p) => p,
                None => PI_DEFAULT_PLACES,
            };
            let rd = match rounding {
                (Some(true), _) => true,
                (_, Some(true)) => false,
                _ => DEFAULT_ROUND,
            };
            &&& 1 <= p <= pi_table().len() ==> (r matches Ok(o) && o.pi@ == pi_text(p as nat, rd)
                && o.rounded == rd)
            &&& !(1 <= p <= pi_table().len()) ==> r == Err::<PiOutput, GivError>(
                GivError::DecimalPlacesOutOfRange(p, pi_table().len() as usize),
            )
        }),
{
    match get_rounding(rounding) {
        Ok(round) => generate_pi(places, Some(round)),
        Err(e) => Err(e),
    }
}

/// Truncating to `p` places gives `3.` and exactly the first `p` decimals
/// of the table.
pub proof fn lemma_truncated_pi(p: nat)
    requires
        1 <= p <= pi_table().len(),
    ensures
        pi_text(p, false) == seq!['3', '.'] + pi_table().take(p as int),
        pi_text(p, false).len() == p + 2,
{
}

/// When the next table digit is below 5, the rounded and truncated texts
/// are the same.
pub proof fn lemma_round_down_keeps_digits(p: nat)
    requires
        1 <= p < pi_table().len(),
        pi_table()[p as int] < '5',
    ensures
        pi_text(p, true) == pi_text(p, false),
{
}

/// Rounding keeps the integer part `3.` and the number of decimals.
pub proof fn lemma_rounding_keeps_integer_part(p: nat)
    requires
        1 <= p <= pi_table().len(),
    ensures
        pi_text(p, true).take(2) == seq!['3', '.'],
        pi_text(p, true).len() == p + 2,
{
    lemma_round_up_len(pi_table().take(p as int));
    assert(pi_text(p, true).take(2) =~= seq!['3', '.']);
}

/// Rounding up a digit string with a digit other than 9 adds exactly one
/// unit in its last place, so the carry never leaves the digits; the
/// decimals of pi start with 1, so rounding never reaches the `3.`.
pub proof fn lemma_round_up_adds_one(d: Seq<char>)
    requires
        forall|i: int| 0 <= i < d.len() ==> is_digit(#[trigger] d[i]),
        exists|i: int| 0 <= i < d.len() && d[i] != '9',
    ensures
        digits_value(round_up(d)) == digits_value(d) + 1,
        round_up(d).len() == d.len(),
    decreases d.len(),
{
    lemma_round_up_len(d);
    let p = d.drop_last();
    if d.last() == '9' {
        let k = choose|i: int| 0 <= i < d.len() && d[i] != '9';
        assert(k < d.len() - 1);
        assert(p[k] != '9');
        lemma_round_up_adds_one(p);
        assert(round_up(d).drop_last() =~= round_up(p));
        assert(round_up(d).last() == '0');
    } else {
        assert(round_up(d).drop_last() =~= p);
        assert(round_up(d).last() == succ_digit(d.last()));
    }
}

proof fn lemma_round_up_len(d: Seq<char>)
    ensures
        round_up(d).len() == d.len(),
    decreases d.len(),
{
    if d.len() > 0 {
        lemma_round_up_len(d.drop_last());
    }
}

} // verus!
