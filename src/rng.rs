//! Evaluation of parsed random-number specifications: dice totals with an
//! overflow check, integer ranges, and the draw behind a decimal range, each
//! with its canonical notation.

use crate::entropy::{
    accepted_values, accepts, drawn_after, extends, lemma_accepted_values_append, lemma_extends_refl,
    lemma_cycle_draws_trans, lemma_extends_trans, reduce, cycle_draws, ends_accepted, Entropy,
    DRAW_LIMIT,
};
use crate::error::GivError;
use crate::rng_spec::{frac_part, parse_spec, rng_spec_of, whole_part, zeros, RngSpec, RngSpecView};
use crate::text::{chars_of, dec, push_all, push_dec, push_str, signed_dec, string_of};
use vstd::prelude::*;

verus! {

/// The outcome of one specification.
#[derive(Debug, PartialEq)]
#[allow(inconsistent_fields)]
pub enum RngResult {
    /// The rolls (`source`), their total plus the modifier (`value`).
    Dice { notation: String, value: i64, modifier: i64, source: Vec<u64> },
    /// A uniform integer of the range.
    RangeInt { notation: String, value: u64 },
    /// A decimal range: the word drawn for it, to be mapped onto
    /// `[start, end)` and shown with `precision` decimals.
    RangeFloat { notation: String, precision: usize, draw: u64, start: String, end: String },
}

/// Canonical dice notation: the count (left out when it is 1), `d`, the
/// sides, and the modifier with its sign unless it is 0.
pub open spec fn dice_notation_of(count: u64, sides: u64, modifier: i64) -> Seq<char> {
    (if count == 1 {
        Seq::empty()
    } else {
        dec(count as nat)
    }) + seq!['d'] + dec(sides as nat) + (if modifier == 0 {
        Seq::empty()
    } else if modifier > 0 {
        seq!['+'] + dec(modifier as nat)
    } else {
        signed_dec(modifier as int)
    })
}

/// `start..end` of an integer range.
pub open spec fn range_notation_of(start: u64, end: u64) -> Seq<char> {
    dec(start as nat) + seq!['.', '.'] + dec(end as nat)
}

/// Digits without their leading zeros.
pub open spec fn strip_zeros(s: Seq<char>) -> Seq<char>
    decreases s.len(),
{
    if s.len() > 0 && s[0] == '0' {
        strip_zeros(s.drop_first())
    } else {
        s
    }
}

/// A decimal literal written with exactly `p` decimals: its integer digits
/// without leading zeros (`0` when none are left), then `.` and its
/// fraction padded with zeros when `p > 0`. `p` is at least the literal's
/// own number of decimals.
pub open spec fn fixed_text(s: Seq<char>, p: nat) -> Seq<char> {
    let w = strip_zeros(whole_part(s));
    (if w.len() == 0 {
        seq!['0']
    } else {
        w
    }) + (if p == 0 {
        Seq::empty()
    } else {
        seq!['.'] + frac_part(s) + zeros(p - frac_part(s).len())
    })
}

/// The sum of a sequence of rolls.
pub open spec fn sum_of(s: Seq<u64>) -> int
    decreases s.len(),
{
    if s.len() == 0 {
        0
    } else {
        sum_of(s.drop_last()) + s.last()
    }
}

/// Whether a dice total with this modifier is representable.
pub open spec fn total_fits(rolls: Seq<u64>, modifier: i64) -> bool {
    sum_of(rolls) <= i64::MAX && i64::MIN <= sum_of(rolls) + modifier <= i64::MAX
}

/// A specification that can be evaluated: dice have sides, a range is not
/// reversed, and the precision covers both endpoints' decimals.
pub open spec fn executable(v: RngSpecView) -> bool {
    match v {
        RngSpecView::Dice { sides, .. } => sides >= 1,
        RngSpecView::RangeInt { start, end } => start <= end,
        RngSpecView::RangeFloat { start, end, precision } => frac_part(start).len() <= precision
            && frac_part(end).len() <= precision,
    }
}

proof fn lemma_accepted_values_concat(a: Seq<u64>, b: Seq<u64>, min: u64, max: u64)
    ensures
        accepted_values(a + b, min, max) == accepted_values(a, min, max) + accepted_values(
            b,
            min,
            max,
        ),
    decreases b.len(),
{
    if b.len() == 0 {
        assert(a + b =~= a);
        assert(accepted_values(a, min, max) + accepted_values(b, min, max) =~= accepted_values(
            a,
            min,
            max,
        ));
    } else {
        lemma_accepted_values_concat(a, b.drop_last(), min, max);
        assert((a + b).drop_last() =~= a + b.drop_last());
        assert((a + b).last() == b.last());
        if accepts(b.last(), min, max) {
            assert(accepted_values(a + b, min, max) =~= accepted_values(a, min, max)
                + accepted_values(b, min, max));
        }
    }
}

/// Rolling dice is determined by the stream of words: two evaluations on
/// the same words that each keep `count` values and stop at an accepted
/// word consume the same words, and so roll the same values.
pub proof fn lemma_dice_draws_determined(
    s: Seq<u64>,
    n1: int,
    n2: int,
    sides: u64,
    count: nat,
)
    requires
        sides >= 1,
        0 <= n1 <= s.len(),
        0 <= n2 <= s.len(),
        accepted_values(s.take(n1), 1, sides).len() == count,
        accepted_values(s.take(n2), 1, sides).len() == count,
        ends_accepted(s.take(n1), 1, sides),
        ends_accepted(s.take(n2), 1, sides),
    ensures
        n1 == n2,
        accepted_values(s.take(n1), 1, sides) == accepted_values(s.take(n2), 1, sides),
{
    if n1 < n2 {
        let rest = s.subrange(n1, n2);
        assert(s.take(n2) =~= s.take(n1) + rest);
        lemma_accepted_values_concat(s.take(n1), rest, 1, sides);
        assert(rest.last() == s.take(n2).last());
        assert(accepted_values(rest, 1, sides).len() >= 1);
    } else if n2 < n1 {
        let rest = s.subrange(n2, n1);
        assert(s.take(n1) =~= s.take(n2) + rest);
        lemma_accepted_values_concat(s.take(n2), rest, 1, sides);
        assert(rest.last() == s.take(n1).last());
        assert(accepted_values(rest, 1, sides).len() >= 1);
    }
}

/// A dice specification whose largest and smallest totals fit a signed
/// 64-bit integer, whatever is rolled; ranges never overflow.
pub open spec fn cannot_overflow(v: RngSpecView) -> bool {
    match v {
        RngSpecView::Dice { count, sides, modifier } => count * sides <= i64::MAX && count * sides
            + modifier <= i64::MAX && count + modifier >= i64::MIN,
        _ => true,
    }
}

/// What a result shows of its specification, whatever words were drawn.
pub open spec fn result_fits(v: RngSpecView, x: RngResult) -> bool {
    match (v, x) {
        (
            RngSpecView::Dice { count, sides, modifier },
            RngResult::Dice { notation, value, modifier: m, source },
        ) => {
            &&& notation@ == dice_notation_of(count, sides, modifier)
            &&& m == modifier
            &&& source@.len() == count
            &&& forall|i: int| 0 <= i < count ==> 1 <= #[trigger] source@[i] <= sides
            &&& total_fits(source@, modifier)
            &&& value == sum_of(source@) + modifier
        },
        (RngSpecView::RangeInt { start, end }, RngResult::RangeInt { notation, value }) => {
            &&& notation@ == range_notation_of(start, end)
            &&& start <= value <= end
        },
        (
            RngSpecView::RangeFloat { start, end, precision },
            RngResult::RangeFloat { notation, precision: p, start: s, end: e, .. },
        ) => {
            &&& notation@ == fixed_text(start, precision) + seq!['.', '.'] + fixed_text(
                end,
                precision,
            )
            &&& p == precision
            &&& s@ == start
            &&& e@ == end
        },
        _ => false,
    }
}

/// Every specification that parses can be evaluated.
pub proof fn lemma_parsed_is_executable(s: Seq<char>)
    requires
        rng_spec_of(s) is Some,
    ensures
        executable(rng_spec_of(s)->0),
{
}

/// The plain text of a dice or integer-range result: its value in decimal.
/// A decimal range has none here: its value is a floating-point number.
pub fn plain_value(result: &RngResult) -> (r: Option<String>)
    ensures
        match result {
            RngResult::Dice { value, .. } => r matches Some(s) && s@ == signed_dec(*value as int),
            RngResult::RangeInt { value, .. } => r matches Some(s) && s@ == dec(*value as nat),
            RngResult::RangeFloat { .. } => r is None,
        },
{
    match result {
        RngResult::Dice { value, .. } => {
            let mut out: Vec<char> = Vec::new();
            crate::text::push_signed_dec(&mut out, *value);
            Some(string_of(out.as_slice()))
        },
        RngResult::RangeInt { value, .. } => {
            let mut out: Vec<char> = Vec::new();
            push_dec(&mut out, *value);
            assert(out@ =~= dec(*value as nat));
            Some(string_of(out.as_slice()))
        },
        RngResult::RangeFloat { .. } => None,
    }
}

/// Renders canonical dice notation.
pub fn dice_notation(count: u64, sides: u64, modifier: i64) -> (r: String)
    ensures
        r@ == dice_notation_of(count, sides, modifier),
{
    let mut out: Vec<char> = Vec::new();
    if count != 1 {
        push_dec(&mut out, count);
    }
    out.push('d');
    push_dec(&mut out, sides);
    if modifier > 0 {
        out.push('+');
        push_dec(&mut out, modifier as u64);
    } else if modifier < 0 {
        crate::text::push_signed_dec(&mut out, modifier);
    }
    assert(out@ =~= dice_notation_of(count, sides, modifier));
    string_of(out.as_slice())
}

fn strip_zeros_exec(s: &Vec<char>) -> (r: Vec<char>)
    ensures
        r@ == strip_zeros(s@),
{
    let mut i: usize = 0;
    assert(s@.skip(0) =~= s@);
    while i < s.len() && s[i] == '0'
        invariant
            i <= s.len(),
            strip_zeros(s@) == strip_zeros(s@.skip(i as int)),
        decreases s.len() - i,
    {
        assert(s@.skip(i as int).drop_first() =~= s@.skip(i + 1));
        i = i + 1;
    }
    let mut r: Vec<char> = Vec::new();
    let mut j: usize = i;
    while j < s.len()
        invariant
            i <= j <= s.len(),
            r@ == s@.subrange(i as int, j as int),
        decreases s.len() - j,
    {
        r.push(s[j]);
        j = j + 1;
        assert(r@ =~= s@.subrange(i as int, j as int));
    }
    assert(r@ =~= s@.skip(i as int));
    r
}

/// Appends a decimal literal written with `p` decimals.
fn push_fixed(out: &mut Vec<char>, s: &str, p: usize)
    requires
        frac_part(s@).len() <= p,
    ensures
        final(out)@ == old(out)@ + fixed_text(s@, p as nat),
{
    let cs = chars_of(s);
    let w = strip_zeros_exec(&whole_part_exec(&cs));
    if w.len() == 0 {
        out.push('0');
    } else {
        push_all(out, &w);
    }
    let ghost mid = out@;
    if p > 0 {
        let f = frac_part_exec(&cs);
        out.push('.');
        push_all(out, &f);
        let mut k: usize = f.len();
        while k < p
            invariant
                f.len() <= k <= p,
                out@ == mid + seq!['.'] + f@ + zeros(k - f.len()),
            decreases p - k,
        {
            out.push('0');
            k = k + 1;
            assert(out@ =~= mid + seq!['.'] + f@ + zeros(k - f.len()));
        }
        assert(out@ =~= old(out)@ + fixed_text(s@, p as nat));
    } else {
        assert(out@ =~= old(out)@ + fixed_text(s@, p as nat));
    }
}

fn whole_part_exec(cs: &Vec<char>) -> (r: Vec<char>)
    ensures
        r@ == whole_part(cs@),
{
    crate::rng_spec::whole_digits(cs)
}

fn frac_part_exec(cs: &Vec<char>) -> (r: Vec<char>)
    ensures
        r@ == frac_part(cs@),
{
    crate::rng_spec::frac_digits(cs)
}

/// The total of the rolls plus the modifier, or `NumericOverflow` when the
/// sum or the total does not fit a signed 64-bit integer.
pub fn dice_total(rolls: &Vec<u64>, modifier: i64) -> (r: Result<i64, GivError>)
    ensures
        total_fits(rolls@, modifier) ==> r == Ok::<i64, GivError>(
            (sum_of(rolls@) + modifier) as i64,
        ),
        !total_fits(rolls@, modifier) ==> (r matches Err(e) && e is NumericOverflow),
{
    let mut sum: u128 = 0;
    let mut i: usize = 0;
    while i < rolls.len()
        invariant
            i <= rolls.len(),
            sum == sum_of(rolls@.take(i as int)),
            sum <= i * 0x1_0000_0000_0000_0000,
        decreases rolls.len() - i,
    {
        assert(rolls@.take(i + 1).drop_last() =~= rolls@.take(i as int));
        assert(i + 1 <= usize::MAX);
        sum = sum + rolls[i] as u128;
        i = i + 1;
    }
    assert(rolls@.take(i as int) =~= rolls@);
    if sum > i64::MAX as u128 {
        let mut msg: Vec<char> = Vec::new();
        push_str(&mut msg, "dice sum ");
        if sum <= u64::MAX as u128 {
            push_dec(&mut msg, sum as u64);
            push_str(&mut msg, " ");
        }
        push_str(&mut msg, "too large for i64");
        return Err(GivError::NumericOverflow(string_of(msg.as_slice())));
    }
    let s = sum as i64;
    match s.checked_add(modifier) {
        Some(v) => Ok(v),
        None => {
            let mut msg: Vec<char> = Vec::new();
            push_str(&mut msg, "overflow applying modifier ");
            crate::text::push_signed_dec(&mut msg, modifier);
            push_str(&mut msg, " to sum ");
            push_dec(&mut msg, s as u64);
            Err(GivError::NumericOverflow(string_of(msg.as_slice())))
        },
    }
}

/// Rolls `count` dice of `sides` sides with the unbiased sampler.
fn roll_dice(entropy: &mut Entropy, count: u64, sides: u64) -> (source: Vec<u64>)
    requires
        sides >= 1,
    ensures
        extends(old(entropy).history(), final(entropy).history()),
        final(entropy).fixed_words() == old(entropy).fixed_words(),
        cycle_draws(old(entropy).history(), final(entropy).history(), old(entropy).fixed_words()),
        source@.len() == count,
        forall|i: int| 0 <= i < count ==> 1 <= #[trigger] source@[i] <= sides,
        count <= sum_of(source@) <= count * sides,
        drawn_after(old(entropy).history(), final(entropy).history()).len() < DRAW_LIMIT
            ==> source@ == accepted_values(
            drawn_after(old(entropy).history(), final(entropy).history()),
            1,
            sides,
        ) && ends_accepted(drawn_after(old(entropy).history(), final(entropy).history()), 1, sides),
{
    let ghost h0 = entropy.history();
    proof {
        lemma_extends_refl(h0);
    }
    let mut source: Vec<u64> = Vec::new();
    let mut i: u64 = 0;
    while i < count
        invariant
            i <= count,
            sides >= 1,
            source@.len() == i,
            forall|k: int| 0 <= k < i ==> 1 <= #[trigger] source@[k] <= sides,
            i <= sum_of(source@) <= i * sides,
            extends(h0, entropy.history()),
            old(entropy).history() == h0,
            entropy.fixed_words() == old(entropy).fixed_words(),
            cycle_draws(h0, entropy.history(), old(entropy).fixed_words()),
            drawn_after(h0, entropy.history()).len() < DRAW_LIMIT ==> source@ == accepted_values(
                drawn_after(h0, entropy.history()),
                1,
                sides,
            ) && ends_accepted(drawn_after(h0, entropy.history()), 1, sides),
        decreases count - i,
    {
        let ghost hprev = entropy.history();
        let roll = entropy.bounded_int(1, sides);
        proof {
            lemma_extends_trans(h0, hprev, entropy.history());
            lemma_cycle_draws_trans(h0, hprev, entropy.history(), old(entropy).fixed_words());
            let x = drawn_after(h0, hprev);
            let e = drawn_after(hprev, entropy.history());
            assert(drawn_after(h0, entropy.history()) =~= x + e);
            if drawn_after(h0, entropy.history()).len() < DRAW_LIMIT {
                lemma_accepted_values_append(x, e, 1, sides);
                assert((x + e).last() == e.last());
            }
        }
        let ghost before = source@;
        source.push(roll);
        assert(source@.drop_last() =~= before);
        i = i + 1;
        assert(sum_of(source@) <= i * sides) by (nonlinear_arith)
            requires
                sum_of(source@) == sum_of(before) + roll,
                sum_of(before) <= (i - 1) * sides,
                roll <= sides,
        ;
    }
    source
}

/// Evaluates one specification with words from `entropy`. Dice are rolled
/// one by one with the unbiased sampler; an integer range takes one sample;
/// a decimal range takes one raw word.
#[verifier::rlimit(40)]
pub fn execute_spec(entropy: &mut Entropy, spec: &RngSpec) -> (r: Result<RngResult, GivError>)
    requires
        executable(spec@),
    ensures
        extends(old(entropy).history(), final(entropy).history()),
        final(entropy).fixed_words() == old(entropy).fixed_words(),
        cycle_draws(old(entropy).history(), final(entropy).history(), old(entropy).fixed_words()),
        r matches Ok(x) ==> result_fits(spec@, x),
        r matches Err(e) ==> e is NumericOverflow,
        match spec@ {
            RngSpecView::Dice { count, sides, modifier } => match r {
                Ok(RngResult::Dice { notation, value, modifier: m, source }) => {
                    &&& notation@ == dice_notation_of(count, sides, modifier)
                    &&& m == modifier
                    &&& source@.len() == count
                    &&& forall|i: int| 0 <= i < count ==> 1 <= #[trigger] source@[i] <= sides
                    &&& total_fits(source@, modifier)
                    &&& value == sum_of(source@) + modifier
                    &&& drawn_after(old(entropy).history(), final(entropy).history()).len()
                        < DRAW_LIMIT ==> source@ == accepted_values(
                        drawn_after(old(entropy).history(), final(entropy).history()),
                        1,
                        sides,
                    ) && ends_accepted(
                        drawn_after(old(entropy).history(), final(entropy).history()),
                        1,
                        sides,
                    )
                },
                Err(e) => {
                    let d = drawn_after(old(entropy).history(), final(entropy).history());
                    &&& e is NumericOverflow
                    &&& !cannot_overflow(spec@)
                    &&& d.len() < DRAW_LIMIT ==> !total_fits(accepted_values(d, 1, sides), modifier)
                        && accepted_values(d, 1, sides).len() == count && ends_accepted(d, 1, sides)
                },
                _ => false,
            },
            RngSpecView::RangeInt { start, end } => match r {
                Ok(RngResult::RangeInt { notation, value }) => {
                    let d = drawn_after(old(entropy).history(), final(entropy).history());
                    &&& notation@ == range_notation_of(start, end)
                    &&& start <= value <= end
                    &&& value == reduce(d.last(), start, end)
                    &&& forall|i: int| 0 <= i < d.len() - 1 ==> !accepts(#[trigger] d[i], start, end)
                    &&& d.len() < DRAW_LIMIT ==> accepts(d.last(), start, end)
                },
                _ => false,
            },
            RngSpecView::RangeFloat { start, end, precision } => match r {
                Ok(RngResult::RangeFloat { notation, precision: p, draw, start: s, end: e }) => {
                    &&& s@ == start
                    &&& e@ == end
                    &&& notation@ == fixed_text(start, precision) + seq!['.', '.'] + fixed_text(
                        end,
                        precision,
                    )
                    &&& p == precision
                    &&& drawn_after(old(entropy).history(), final(entropy).history()) == seq![draw]
                },
                _ => false,
            },
        },
{
    match spec {
        RngSpec::Dice { count, sides, modifier } => {
            let source = roll_dice(entropy, *count, *sides);
            let notation = dice_notation(*count, *sides, *modifier);
            match dice_total(&source, *modifier) {
                Ok(value) => Ok(RngResult::Dice { notation, value, modifier: *modifier, source }),
                Err(e) => Err(e),
            }
        },
        RngSpec::RangeInt { start, end } => {
            let ghost h0 = entropy.history();
            let value = entropy.bounded_int(*start, *end);
            let mut out: Vec<char> = Vec::new();
            push_dec(&mut out, *start);
            out.push('.');
            out.push('.');
            push_dec(&mut out, *end);
            assert(out@ =~= range_notation_of(*start, *end));
            Ok(RngResult::RangeInt { notation: string_of(out.as_slice()), value })
        },
        RngSpec::RangeFloat { start, end, precision } => {
            let ghost h0 = entropy.history();
            let draw = entropy.next_word();
            assert(entropy.history().take(h0.len() as int) =~= h0);
            assert(drawn_after(h0, entropy.history()) =~= seq![draw]);
            let mut out: Vec<char> = Vec::new();
            push_fixed(&mut out, start.as_str(), *precision);
            out.push('.');
            out.push('.');
            let ghost mid = out@;
            push_fixed(&mut out, end.as_str(), *precision);
            assert(out@ =~= fixed_text(start@, *precision as nat) + seq!['.', '.'] + fixed_text(
                end@,
                *precision as nat,
            ));
            Ok(
                RngResult::RangeFloat {
                    notation: string_of(out.as_slice()),
                    precision: *precision,
                    draw,
                    start: string_of(chars_of(start.as_str()).as_slice()),
                    end: string_of(chars_of(end.as_str()).as_slice()),
                },
            )
        },
    }
}

/// Parses every specification, then evaluates them in order. No
/// specifications at all is `RequiredArgumentsNotProvided`; any invalid one
/// fails the whole call before anything is drawn, and so does any overflow.
pub fn rng_command(entropy: &mut Entropy, specs: &Vec<String>) -> (r: Result<Vec<RngResult>, GivError>)
    ensures
        extends(old(entropy).history(), final(entropy).history()),
        final(entropy).fixed_words() == old(entropy).fixed_words(),
        cycle_draws(old(entropy).history(), final(entropy).history(), old(entropy).fixed_words()),
        specs@.len() == 0 ==> (r matches Err(e) && e matches GivError::RequiredArgumentsNotProvided(
            h,
        ) && h@ == "giv rng --help"@),
        (exists|i: int| 0 <= i < specs@.len() && rng_spec_of(#[trigger] specs@[i]@) is None) ==> (
        r matches Err(e) && e is InvalidRngSpec && final(entropy).history() == old(
            entropy,
        ).history()),
        (r matches Err(e) && e is InvalidRngSpec) ==> exists|i: int|
            0 <= i < specs@.len() && rng_spec_of(#[trigger] specs@[i]@) is None,
        r matches Err(e) ==> (e is RequiredArgumentsNotProvided || e is InvalidRngSpec
            || e is NumericOverflow),
        specs@.len() > 0 && (forall|i: int|
            0 <= i < specs@.len() ==> (rng_spec_of(#[trigger] specs@[i]@) is Some
                && cannot_overflow(rng_spec_of(specs@[i]@)->0))) ==> r is Ok,
        r matches Ok(v) ==> v@.len() == specs@.len() && forall|i: int|
            0 <= i < specs@.len() ==> result_fits(
                rng_spec_of(specs@[i]@)->0,
                #[trigger] v@[i],
            ),
{
    let ghost h0 = entropy.history();
    proof {
        lemma_extends_refl(h0);
    }
    if specs.len() == 0 {
        let help = chars_of("giv rng --help");
        return Err(GivError::RequiredArgumentsNotProvided(string_of(help.as_slice())));
    }
    let mut parsed: Vec<RngSpec> = Vec::new();
    let mut i: usize = 0;
    while i < specs.len()
        invariant
            i <= specs.len(),
            parsed@.len() == i,
            forall|j: int| 0 <= j < i ==> rng_spec_of(specs@[j]@) == Some((#[trigger] parsed@[j])@),
            entropy.history() == h0,
            old(entropy).history() == h0,
            entropy.fixed_words() == old(entropy).fixed_words(),
        decreases specs.len() - i,
    {
        match parse_spec(specs[i].as_str()) {
            Ok(p) => parsed.push(p),
            Err(e) => {
                proof {
                    lemma_extends_refl(h0);
                    assert(rng_spec_of(specs@[i as int]@) is None);
                    assert forall|k: int|
                        0 <= k < specs@.len() && rng_spec_of(#[trigger] specs@[k]@) is None implies k
                        >= i by {
                        if k < i {
                            assert(rng_spec_of(specs@[k]@) == Some(parsed@[k]@));
                        }
                    }
                }
                return Err(e);
            },
        }
        i = i + 1;
    }
    proof {
        assert forall|j: int| 0 <= j < specs@.len() implies rng_spec_of(#[trigger] specs@[j]@) is Some by {
            assert(rng_spec_of(specs@[j]@) == Some(parsed@[j]@));
        }
    }
    let mut results: Vec<RngResult> = Vec::new();
    let mut k: usize = 0;
    while k < parsed.len()
        invariant
            k <= parsed.len(),
            parsed@.len() == specs@.len(),
            results@.len() == k,
            forall|j: int| 0 <= j < parsed@.len() ==> rng_spec_of(specs@[j]@) == Some((#[trigger] parsed@[j])@),
            forall|j: int| 0 <= j < k ==> result_fits(parsed@[j]@, #[trigger] results@[j]),
            extends(h0, entropy.history()),
            old(entropy).history() == h0,
            entropy.fixed_words() == old(entropy).fixed_words(),
            cycle_draws(h0, entropy.history(), old(entropy).fixed_words()),
            forall|j: int| 0 <= j < specs@.len() ==> rng_spec_of(#[trigger] specs@[j]@) is Some,
        decreases parsed.len() - k,
    {
        proof {
            assert(rng_spec_of(specs@[k as int]@) == Some(parsed@[k as int]@));
            lemma_parsed_is_executable(specs@[k as int]@);
        }
        let ghost prev = entropy.history();
        let res = execute_spec(entropy, &parsed[k]);
        proof {
            lemma_extends_trans(h0, prev, entropy.history());
            lemma_cycle_draws_trans(h0, prev, entropy.history(), old(entropy).fixed_words());
        }
        match res {
            Ok(v) => results.push(v),
            Err(e) => {
                assert(rng_spec_of(specs@[k as int]@) == Some(parsed@[k as int]@));
                return Err(e);
            },
        }
        k = k + 1;
    }
    proof {
        assert forall|j: int| 0 <= j < specs@.len() implies result_fits(
            rng_spec_of(specs@[j]@)->0,
            #[trigger] results@[j],
        ) by {
            assert(rng_spec_of(specs@[j]@) == Some(parsed@[j]@));
            assert(result_fits(parsed@[j]@, results@[j]));
        }
    }
    Ok(results)
}

proof fn lemma_digit_char(d: int)
    requires
        0 <= d < 10,
    ensures
        crate::text::is_digit(crate::text::digit_char(d)),
        crate::text::digit_value(crate::text::digit_char(d)) == d,
{
}

/// The decimal rendering of a number is a digit string of that value.
proof fn lemma_dec_digits(n: nat)
    ensures
        dec(n).len() >= 1,
        crate::rng_spec::all_digits(dec(n)),
        crate::rng_spec::digits_value(dec(n)) == n,
    decreases n,
{
    if n < 10 {
        lemma_digit_char(n as int);
        assert(dec(n).drop_last() =~= Seq::<char>::empty());
        assert(dec(n).last() == crate::text::digit_char(n as int));
        assert(crate::rng_spec::digits_value(Seq::<char>::empty()) == 0);
        assert(crate::rng_spec::digits_value(dec(n)) == crate::rng_spec::digits_value(
            dec(n).drop_last(),
        ) * 10 + crate::text::digit_value(dec(n).last()) as nat);
    } else {
        lemma_dec_digits(n / 10);
        lemma_digit_char((n % 10) as int);
        assert(dec(n).drop_last() =~= dec(n / 10));
        assert(dec(n).last() == crate::text::digit_char((n % 10) as int));
        assert((n / 10) * 10 + n % 10 == n) by (nonlinear_arith);
        assert(crate::rng_spec::digits_value(dec(n)) == crate::rng_spec::digits_value(
            dec(n).drop_last(),
        ) * 10 + crate::text::digit_value(dec(n).last()) as nat);
        assert forall|i: int| 0 <= i < dec(n).len() implies crate::text::is_digit(#[trigger] dec(n)[i]) by {
            if i < dec(n / 10).len() {
                assert(dec(n)[i] == dec(n / 10)[i]);
            }
        }
    }
}

proof fn lemma_uint_of_dec(n: u64)
    ensures
        crate::rng_spec::uint_of(dec(n as nat)) == Some(n),
{
    lemma_dec_digits(n as nat);
}

proof fn lemma_first_at(s: Seq<char>, c: char, i: int)
    requires
        0 <= i < s.len(),
        s[i] == c,
        forall|j: int| 0 <= j < i ==> s[j] != c,
    ensures
        crate::rng_spec::first_index(s, c) == Some(i),
{
    let k = choose|k: int| 0 <= k < s.len() && s[k] == c && forall|j: int| 0 <= j < k ==> s[j] != c;
    assert(0 <= i < s.len() && s[i] == c);
    if k > i {
        assert(s[i] != c);
    }
}

proof fn lemma_no_char(s: Seq<char>, c: char)
    requires
        forall|j: int| 0 <= j < s.len() ==> s[j] != c,
    ensures
        crate::rng_spec::first_index(s, c) is None,
{
}

proof fn lemma_dice_tail(count: u64, sides: u64, modifier: i64)
    requires
        sides >= 1,
        modifier != i64::MIN,
    ensures
        crate::rng_spec::dice_tail(
            count,
            dec(sides as nat) + (if modifier == 0 {
                Seq::empty()
            } else if modifier > 0 {
                seq!['+'] + dec(modifier as nat)
            } else {
                signed_dec(modifier as int)
            }),
        ) == Some(RngSpecView::Dice { count, sides, modifier }),
{
    let sd = dec(sides as nat);
    lemma_dec_digits(sides as nat);
    lemma_uint_of_dec(sides);
    if modifier == 0 {
        let rest = sd + Seq::<char>::empty();
        assert(rest =~= sd);
        assert(!(exists|i: int| 0 <= i < rest.len() && crate::rng_spec::is_sign(rest[i]))) by {
            assert forall|i: int| 0 <= i < rest.len() implies !crate::rng_spec::is_sign(rest[i]) by {
                assert(crate::text::is_digit(sd[i]));
            }
        }
    } else {
        let m: u64 = if modifier > 0 {
            modifier as u64
        } else {
            (-(modifier as int)) as u64
        };
        let sign = if modifier > 0 {
            '+'
        } else {
            '-'
        };
        let tail = if modifier > 0 {
            seq!['+'] + dec(modifier as nat)
        } else {
            signed_dec(modifier as int)
        };
        assert(tail =~= seq![sign] + dec(m as nat));
        let rest = sd + tail;
        let j = sd.len() as int;
        assert(rest[j] == sign);
        assert forall|k: int| 0 <= k < j implies !crate::rng_spec::is_sign(rest[k]) by {
            assert(rest[k] == sd[k]);
            assert(crate::text::is_digit(sd[k]));
        }
        let f = choose|i: int|
            0 <= i < rest.len() && crate::rng_spec::is_sign(rest[i]) && forall|k: int|
                0 <= k < i ==> !crate::rng_spec::is_sign(rest[k]);
        assert(0 <= j < rest.len() && crate::rng_spec::is_sign(rest[j]));
        if f < j {
            assert(!crate::rng_spec::is_sign(rest[f]));
        } else if f > j {
            assert(!crate::rng_spec::is_sign(rest[j]));
        }
        assert(crate::rng_spec::first_sign(rest) == Some(j));
        assert(rest.take(j) =~= sd);
        assert(rest.skip(j + 1) =~= dec(m as nat));
        lemma_uint_of_dec(m);
    }
}

/// Canonical dice notation parses back to the same dice: rendering a parsed
/// dice specification and parsing the rendering gives the specification.
pub proof fn lemma_dice_notation_round_trip(count: u64, sides: u64, modifier: i64)
    requires
        count >= 1,
        sides >= 1,
        modifier != i64::MIN,
    ensures
        rng_spec_of(dice_notation_of(count, sides, modifier)) == Some(
            RngSpecView::Dice { count, sides, modifier },
        ),
{
    let ct: Seq<char> = if count == 1 {
        Seq::empty()
    } else {
        dec(count as nat)
    };
    let tail = dec(sides as nat) + (if modifier == 0 {
        Seq::empty()
    } else if modifier > 0 {
        seq!['+'] + dec(modifier as nat)
    } else {
        signed_dec(modifier as int)
    });
    let s = dice_notation_of(count, sides, modifier);
    assert(s =~= ct + seq!['d'] + tail);
    let i = ct.len() as int;
    lemma_dec_digits(count as nat);
    assert forall|j: int| 0 <= j < i implies s[j] != 'd' by {
        assert(s[j] == ct[j]);
        assert(crate::text::is_digit(ct[j]));
    }
    assert(s[i] == 'd');
    lemma_first_at(s, 'd', i);
    assert(s.take(i) =~= ct);
    assert(s.skip(i + 1) =~= tail);
    if count != 1 {
        lemma_uint_of_dec(count);
    }
    lemma_dice_tail(count, sides, modifier);
}

/// Canonical range notation parses back to the same integer range.
pub proof fn lemma_range_notation_round_trip(start: u64, end: u64)
    requires
        start < end,
    ensures
        rng_spec_of(range_notation_of(start, end)) == Some(RngSpecView::RangeInt { start, end }),
{
    let a = dec(start as nat);
    let b = dec(end as nat);
    let s = range_notation_of(start, end);
    lemma_dec_digits(start as nat);
    lemma_dec_digits(end as nat);
    let p = a.len() as int;
    assert forall|j: int| 0 <= j < s.len() implies s[j] != 'd' by {
        if j < p {
            assert(s[j] == a[j]);
            assert(crate::text::is_digit(a[j]));
        } else if j >= p + 2 {
            assert(s[j] == b[j - p - 2]);
            assert(crate::text::is_digit(b[j - p - 2]));
        }
    }
    lemma_no_char(s, 'd');
    assert(crate::rng_spec::dots_at(s, p));
    assert forall|j: int| 0 <= j < p implies !#[trigger] crate::rng_spec::dots_at(s, j) by {
        assert(s[j] == a[j]);
        assert(crate::text::is_digit(a[j]));
    }
    let f = choose|i: int|
        0 <= i < s.len() - 1 && #[trigger] crate::rng_spec::dots_at(s, i) && forall|j: int|
            0 <= j < i ==> !#[trigger] crate::rng_spec::dots_at(s, j);
    if f > p {
        assert(!crate::rng_spec::dots_at(s, p));
    }
    assert(crate::rng_spec::first_range_dots(s) == Some(p));
    assert(s.take(p) =~= a);
    assert(s.skip(p + 2) =~= b);
    assert forall|j: int| 0 <= j < a.len() implies a[j] != '.' by {
        assert(crate::text::is_digit(a[j]));
    }
    assert forall|j: int| 0 <= j < b.len() implies b[j] != '.' by {
        assert(crate::text::is_digit(b[j]));
    }
    lemma_no_char(a, '.');
    lemma_no_char(b, '.');
    lemma_uint_of_dec(start);
    lemma_uint_of_dec(end);
}

/// A dice or integer-range text and its canonical notation parse to the
/// same specification.
pub proof fn lemma_parse_canonical(s: Seq<char>)
    requires
        rng_spec_of(s) is Some,
        !(rng_spec_of(s)->0 is RangeFloat),
    ensures
        match rng_spec_of(s)->0 {
            RngSpecView::Dice { count, sides, modifier } => rng_spec_of(
                dice_notation_of(count, sides, modifier),
            ) == rng_spec_of(s),
            RngSpecView::RangeInt { start, end } => rng_spec_of(range_notation_of(start, end))
                == rng_spec_of(s),
            _ => true,
        },
{
    match rng_spec_of(s)->0 {
        RngSpecView::Dice { count, sides, modifier } => {
            assert(modifier != i64::MIN);
            lemma_dice_notation_round_trip(count, sides, modifier);
        },
        RngSpecView::RangeInt { start, end } => {
            lemma_range_notation_round_trip(start, end);
        },
        _ => {},
    }
}

} // verus!
