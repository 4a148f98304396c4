//! Lorem ipsum placeholder text: words, sentences or paragraphs, opened by
//! the classic "Lorem ipsum dolor sit amet" whenever the amount allows.

use crate::entropy::{
    accepted_values, drawn_after, ends_accepted, extends, lemma_accepted_values_append,
    lemma_extends_refl, lemma_extends_trans, Entropy, DRAW_LIMIT,
};
use crate::error::GivError;
use crate::text::{chars_of, push_all, string_of};
use vstd::prelude::*;

verus! {

/// The number of units when none is given.
pub const DEFAULT_COUNT: usize = 50;

/// The number of words of the classic opening.
pub const CLASSIC_OPENING_WORDS: usize = 5;

/// The number of filler words generated to draw random words from.
pub const SOURCE_WORD_COUNT: usize = 500;

/// What a count of lorem ipsum counts.
#[derive(Debug, Clone, Copy, PartialEq, Eq, Structural)]
pub enum LoremUnit {
    Words,
    Sentences,
    Paragraphs,
}

/// Word `i` of the classic opening "Lorem ipsum dolor sit amet".
pub open spec fn opening_word(i: int) -> Seq<char> {
    if i == 0 {
        seq!['L', 'o', 'r', 'e', 'm']
    } else if i == 1 {
        seq!['i', 'p', 's', 'u', 'm']
    } else if i == 2 {
        seq!['d', 'o', 'l', 'o', 'r']
    } else if i == 3 {
        seq!['s', 'i', 't']
    } else {
        seq!['a', 'm', 'e', 't']
    }
}

fn opening(i: usize) -> (r: String)
    requires
        i < CLASSIC_OPENING_WORDS,
    ensures
        r@ == opening_word(i as int),
{
    let v: Vec<char> = if i == 0 {
        vec!['L', 'o', 'r', 'e', 'm']
    } else if i == 1 {
        vec!['i', 'p', 's', 'u', 'm']
    } else if i == 2 {
        vec!['d', 'o', 'l', 'o', 'r']
    } else if i == 3 {
        vec!['s', 'i', 't']
    } else {
        vec!['a', 'm', 'e', 't']
    };
    assert(v@ =~= opening_word(i as int));
    string_of(v.as_slice())
}

/// Whitespace characters.
pub open spec fn is_blank(c: char) -> bool {
    c == ' ' || c == '\n' || c == '\t' || c == '\r'
}

/// The text of the classic lorem ipsum paragraph.
pub open spec fn classic_source() -> Seq<char> {
    "Lorem ipsum dolor sit amet, consectetur adipiscing elit, sed do\neiusmod tempor incididunt ut labore et dolore magna aliqua. Ut enim ad\nminim veniam, quis nostrud exercitation ullamco laboris nisi ut\naliquip ex ea commodo consequat. Duis aute irure dolor in\nreprehenderit in voluptate velit esse cillum dolore eu fugiat nulla\npariatur. Excepteur sint occaecat cupidatat non proident, sunt in\nculpa qui officia deserunt mollit anim id est laborum.\n"@
}

/// The whitespace-separated words of a text, as `str::split_whitespace` gives them.
pub uninterp spec fn whitespace_words(s: Seq<char>) -> Seq<Seq<char>>;

/// Whether a character is alphabetic, as `char::is_alphabetic` says.
pub uninterp spec fn alphabetic(c: char) -> bool;

/// A text without its trailing characters that are not alphabetic.
pub open spec fn letters_end(s: Seq<char>) -> Seq<char>
    decreases s.len(),
{
    if s.len() == 0 || alphabetic(s.last()) {
        s
    } else {
        letters_end(s.drop_last())
    }
}

/// A text in lowercase, as `str::to_lowercase` gives it.
pub uninterp spec fn lower_of(s: Seq<char>) -> Seq<char>;


/// The filler text of `n` words that `lipsum::lipsum` generates.
pub uninterp spec fn filler_of(n: usize) -> Seq<char>;

/// Relies on `lipsum::LOREM_IPSUM`: the classic lorem ipsum paragraph, as
/// the crate's `lorem-ipsum.txt` holds it.
#[verifier::external_body]
fn classic_text() -> (r: &'static str)
    ensures
        r@ == classic_source(),
{
    lipsum::LOREM_IPSUM
}

/// Relies on `lipsum::lipsum`: `n` words of filler text from a Markov chain
/// driven by a generator with a fixed seed, so the text depends on `n` alone.
#[verifier::external_body]
fn filler_text(n: usize) -> (r: String)
    ensures
        r@ == filler_of(n),
{
    lipsum::lipsum(n)
}

/// Relies on `str::split_whitespace`: the words between runs of
/// whitespace, each non-empty and without whitespace.
#[verifier::external_body]
fn split_words(s: &str) -> (r: Vec<String>)
    ensures
        views(r@) == whitespace_words(s@),
        forall|i: int| 0 <= i < r@.len() ==> (#[trigger] r@[i])@.len() > 0,
        forall|i: int, k: int|
            0 <= i < r@.len() && 0 <= k < r@[i]@.len() ==> !is_blank(#[trigger] r@[i]@[k]),
{
    s.split_whitespace().map(|w| w.to_string()).collect()
}

/// Relies on `char::is_alphabetic`.
#[verifier::external_body]
fn is_alphabetic(c: char) -> (r: bool)
    ensures
        r == alphabetic(c),
{
    c.is_alphabetic()
}

/// A word without its trailing characters that are not alphabetic.
fn trim_end_nonletters(s: &str) -> (r: String)
    ensures
        r@ == letters_end(s@),
{
    let cs = chars_of(s);
    let mut end: usize = cs.len();
    assert(cs@.take(end as int) =~= cs@);
    while end > 0 && !is_alphabetic(cs[end - 1])
        invariant
            end <= cs.len(),
            letters_end(cs@) == letters_end(cs@.take(end as int)),
        decreases end,
    {
        assert(cs@.take(end as int).drop_last() =~= cs@.take(end - 1));
        end = end - 1;
    }
    let mut out: Vec<char> = Vec::new();
    let mut i: usize = 0;
    while i < end
        invariant
            i <= end <= cs.len(),
            out@ == cs@.take(i as int),
        decreases end - i,
    {
        out.push(cs[i]);
        i = i + 1;
        assert(out@ =~= cs@.take(i as int));
    }
    string_of(out.as_slice())
}

/// Relies on `str::to_lowercase`.
#[verifier::external_body]
fn lowercase(s: &str) -> (r: String)
    ensures
        r@ == lower_of(s@),
{
    s.to_lowercase()
}

/// A text without a final newline.
pub open spec fn without_final_newline(s: Seq<char>) -> Seq<char> {
    if s.len() > 0 && s.last() == '\n' {
        s.drop_last()
    } else {
        s
    }
}

/// The classic paragraph: its text without the final newline of the file
/// (the text starts with a letter and has no other surrounding whitespace).
pub open spec fn classic_paragraph() -> Seq<char> {
    without_final_newline(classic_source())
}

fn classic_paragraph_text() -> (r: Vec<char>)
    ensures
        r@ == classic_paragraph(),
{
    let cs = chars_of(classic_text());
    if cs.len() > 0 && cs[cs.len() - 1] == '\n' {
        let mut out: Vec<char> = Vec::new();
        let mut i: usize = 0;
        while i + 1 < cs.len()
            invariant
                i + 1 <= cs.len(),
                out@ == cs@.take(i as int),
            decreases cs.len() - i,
        {
            out.push(cs[i]);
            i = i + 1;
            assert(out@ =~= cs@.take(i as int));
        }
        assert(out@ =~= cs@.drop_last());
        out
    } else {
        cs
    }
}

/// The views of a list of strings.
pub open spec fn views(v: Seq<String>) -> Seq<Seq<char>> {
    Seq::new(v.len(), |i: int| v[i]@)
}

/// Words joined by single spaces.
pub open spec fn words_text(ws: Seq<Seq<char>>) -> Seq<char>
    decreases ws.len(),
{
    if ws.len() == 0 {
        Seq::empty()
    } else if ws.len() == 1 {
        ws[0]
    } else {
        words_text(ws.drop_last()) + seq![' '] + ws.last()
    }
}

/// Blocks joined by blank lines.
pub open spec fn blocks_text(ps: Seq<Seq<char>>) -> Seq<char>
    decreases ps.len(),
{
    if ps.len() == 0 {
        Seq::empty()
    } else if ps.len() == 1 {
        ps[0]
    } else {
        blocks_text(ps.drop_last()) + seq!['\n', '\n'] + ps.last()
    }
}

/// The upper-case form of a character, as `char::to_uppercase` gives it.
pub uninterp spec fn upper_of(c: char) -> Seq<char>;

/// Relies on `char::to_uppercase`.
#[verifier::external_body]
fn uppercase_char(c: char) -> (r: String)
    ensures
        r@ == upper_of(c),
{
    c.to_uppercase().collect()
}

/// The first character upper-cased.
pub open spec fn capitalized(s: Seq<char>) -> Seq<char> {
    if s.len() == 0 {
        s
    } else {
        upper_of(s[0]) + s.skip(1)
    }
}

/// Capitalizes the first letter of a word.
pub fn capitalize_first(s: &str) -> (r: String)
    ensures
        r@ == capitalized(s@),
{
    let cs = chars_of(s);
    if cs.len() == 0 {
        return string_of(cs.as_slice());
    }
    let mut out: Vec<char> = chars_of(uppercase_char(cs[0]).as_str());
    let ghost head = out@;
    let mut i: usize = 1;
    while i < cs.len()
        invariant
            1 <= i <= cs.len(),
            out@ == head + cs@.subrange(1, i as int),
        decreases cs.len() - i,
    {
        out.push(cs[i]);
        i = i + 1;
        assert(out@ =~= head + cs@.subrange(1, i as int));
    }
    assert(out@ =~= capitalized(cs@));
    string_of(out.as_slice())
}

/// A space right after another space is dropped.
pub open spec fn keeps_spacing(s: Seq<char>, i: int) -> bool {
    !(s[i] == ' ' && i > 0 && s[i - 1] == ' ')
}

/// A space right before a period is dropped.
pub open spec fn keeps_before_period(s: Seq<char>, i: int) -> bool {
    !(s[i] == ' ' && i + 1 < s.len() && s[i + 1] == '.')
}

/// The characters among the first `n` that runs of spaces keep.
pub open spec fn collapsed_upto(s: Seq<char>, n: int) -> Seq<char>
    decreases n,
{
    if n <= 0 {
        Seq::empty()
    } else {
        collapsed_upto(s, n - 1) + if keeps_spacing(s, n - 1) {
            seq![s[n - 1]]
        } else {
            Seq::empty()
        }
    }
}

/// The characters among the first `n` that are not a space before a period.
pub open spec fn unspaced_upto(s: Seq<char>, n: int) -> Seq<char>
    decreases n,
{
    if n <= 0 {
        Seq::empty()
    } else {
        unspaced_upto(s, n - 1) + if keeps_before_period(s, n - 1) {
            seq![s[n - 1]]
        } else {
            Seq::empty()
        }
    }
}

/// Runs of spaces collapsed to one space (newlines kept), then every
/// space before a period removed.
pub open spec fn cleaned(s: Seq<char>) -> Seq<char> {
    let c = collapsed_upto(s, s.len() as int);
    unspaced_upto(c, c.len() as int)
}

fn collapse_spaces(cs: &Vec<char>) -> (r: Vec<char>)
    ensures
        r@ == collapsed_upto(cs@, cs@.len() as int),
{
    let mut out: Vec<char> = Vec::new();
    let mut prev_was_space = false;
    let mut i: usize = 0;
    while i < cs.len()
        invariant
            i <= cs.len(),
            out@ == collapsed_upto(cs@, i as int),
            prev_was_space == (i > 0 && cs@[i - 1] == ' '),
        decreases cs.len() - i,
    {
        let c = cs[i];
        if c == ' ' {
            if !prev_was_space {
                out.push(c);
            }
            prev_was_space = true;
        } else {
            out.push(c);
            prev_was_space = false;
        }
        i = i + 1;
        assert(out@ =~= collapsed_upto(cs@, i as int));
    }
    out
}

fn drop_space_before_period(cs: &Vec<char>) -> (r: Vec<char>)
    ensures
        r@ == unspaced_upto(cs@, cs@.len() as int),
{
    let mut out: Vec<char> = Vec::new();
    let mut i: usize = 0;
    while i < cs.len()
        invariant
            i <= cs.len(),
            out@ == unspaced_upto(cs@, i as int),
        decreases cs.len() - i,
    {
        if !(cs[i] == ' ' && i + 1 < cs.len() && cs[i + 1] == '.') {
            out.push(cs[i]);
        }
        i = i + 1;
        assert(out@ =~= unspaced_upto(cs@, i as int));
    }
    out
}

/// Collapses runs of spaces into one space (newlines are kept), then
/// removes the spaces before periods.
pub fn clean_spacing(text: &str) -> (r: String)
    ensures
        r@ == cleaned(text@),
{
    let cs = chars_of(text);
    let c = collapse_spaces(&cs);
    let d = drop_space_before_period(&c);
    string_of(d.as_slice())
}

/// A filler word: lowercase, trailing non-letters cut off.
pub open spec fn pool_word_of(w: Seq<char>) -> Seq<char> {
    lower_of(letters_end(w))
}

/// The non-empty filler words of a list of words, in order.
pub open spec fn pool_from(ws: Seq<Seq<char>>) -> Seq<Seq<char>>
    decreases ws.len(),
{
    if ws.len() == 0 {
        Seq::empty()
    } else if pool_word_of(ws.last()).len() > 0 {
        pool_from(ws.drop_last()).push(pool_word_of(ws.last()))
    } else {
        pool_from(ws.drop_last())
    }
}

/// The words that random words are drawn from.
pub open spec fn filler_pool() -> Seq<Seq<char>> {
    pool_from(whitespace_words(filler_of(SOURCE_WORD_COUNT)))
}

/// The word used when the pool is empty.
pub open spec fn fallback_word() -> Seq<char> {
    seq!['l', 'o', 'r', 'e', 'm']
}

/// A word of the filler pool (or the fallback word when the pool is empty).
pub open spec fn is_filler_word(w: Seq<char>) -> bool {
    (exists|k: int| 0 <= k < filler_pool().len() && #[trigger] filler_pool()[k] == w) || (
    filler_pool().len() == 0 && w == fallback_word())
}

/// Words that open with as much of the classic opening as fits.
pub open spec fn opens_classically(ws: Seq<Seq<char>>) -> bool {
    forall|i: int| 0 <= i < ws.len() && i < CLASSIC_OPENING_WORDS ==> #[trigger] ws[i] == opening_word(i)
}

/// Lorem words: with `classic`, the opening comes first; every other word
/// is a filler word.
pub open spec fn lorem_words(ws: Seq<Seq<char>>, classic: bool) -> bool {
    &&& classic ==> opens_classically(ws)
    &&& forall|i: int|
        0 <= i < ws.len() && (!classic || i >= CLASSIC_OPENING_WORDS) ==> is_filler_word(
            #[trigger] ws[i],
        )
}

/// The words of the classic paragraph, trailing punctuation cut off.
pub open spec fn classic_words() -> Seq<Seq<char>> {
    let ws = whitespace_words(classic_source());
    Seq::new(ws.len(), |i: int| letters_end(ws[i]))
}

/// The words of the classic lorem ipsum paragraph, trailing punctuation cut.
pub fn get_classic_words() -> (r: Vec<String>)
    ensures
        views(r@) == classic_words(),
{
    let words = split_words(classic_text());
    let mut out: Vec<String> = Vec::new();
    let mut i: usize = 0;
    while i < words.len()
        invariant
            i <= words.len(),
            views(words@) == whitespace_words(classic_source()),
            out@.len() == i,
            forall|j: int| 0 <= j < i ==> (#[trigger] out@[j])@ == letters_end(words@[j]@),
        decreases words.len() - i,
    {
        out.push(trim_end_nonletters(words[i].as_str()));
        i = i + 1;
    }
    assert(views(out@) =~= classic_words()) by {
        assert(whitespace_words(classic_source()).len() == words@.len());
        assert forall|j: int| 0 <= j < out@.len() implies views(out@)[j] == classic_words()[j] by {
            assert(whitespace_words(classic_source())[j] == words@[j]@);
        }
    }
    out
}

fn filler_pool_words() -> (r: Vec<String>)
    ensures
        views(r@) == filler_pool(),
{
    let text = filler_text(SOURCE_WORD_COUNT);
    let words = split_words(text.as_str());
    let mut pool: Vec<String> = Vec::new();
    let mut i: usize = 0;
    while i < words.len()
        invariant
            i <= words.len(),
            views(words@) == whitespace_words(filler_of(SOURCE_WORD_COUNT)),
            views(pool@) == pool_from(views(words@).take(i as int)),
        decreases words.len() - i,
    {
        let t = trim_end_nonletters(words[i].as_str());
        let w = lowercase(t.as_str());
        let ghost before = pool@;
        if !w.as_str().is_empty() {
            pool.push(w);
        }
        proof {
            let vs = views(words@);
            assert(vs.take(i + 1).drop_last() =~= vs.take(i as int));
            assert(vs.take(i + 1).last() == words@[i as int]@);
            assert(views(pool@) =~= pool_from(vs.take(i + 1)));
        }
        i = i + 1;
    }
    assert(views(words@).take(i as int) =~= views(words@));
    pool
}

fn copy_string(s: &String) -> (r: String)
    ensures
        r@ == s@,
{
    string_of(chars_of(s.as_str()).as_slice())
}

/// How many words of the classic opening `count` words start with.
pub open spec fn opening_count(count: usize, classic: bool) -> int {
    if !classic {
        0
    } else if count < CLASSIC_OPENING_WORDS {
        count as int
    } else {
        CLASSIC_OPENING_WORDS as int
    }
}

/// `count` words: with `start_with_classic`, the classic opening (as many
/// of its five words as fit) comes first; every other word is drawn
/// uniformly from the filler pool.
pub fn generate_words(entropy: &mut Entropy, count: usize, start_with_classic: bool) -> (r: Vec<String>)
    ensures
        extends(old(entropy).history(), final(entropy).history()),
        r@.len() == count,
        lorem_words(views(r@), start_with_classic),
        ({
            let d = drawn_after(old(entropy).history(), final(entropy).history());
            let k = opening_count(count, start_with_classic);
            let m = (filler_pool().len() - 1) as u64;
            &&& filler_pool().len() == 0 ==> d.len() == 0
            &&& filler_pool().len() > 0 && d.len() < DRAW_LIMIT ==> {
                &&& accepted_values(d, 0, m).len() == count - k
                &&& ends_accepted(d, 0, m)
                &&& forall|j: int|
                    k <= j < count ==> (#[trigger] r@[j])@ == filler_pool()[accepted_values(
                        d,
                        0,
                        m,
                    )[j - k] as int]
            }
        }),
{
    let ghost h0 = entropy.history();
    proof {
        lemma_extends_refl(h0);
    }
    let mut words: Vec<String> = Vec::new();
    let classic_count: usize = if start_with_classic {
        if count < CLASSIC_OPENING_WORDS {
            count
        } else {
            CLASSIC_OPENING_WORDS
        }
    } else {
        0
    };
    let mut i: usize = 0;
    while i < classic_count
        invariant
            i <= classic_count <= count,
            classic_count <= CLASSIC_OPENING_WORDS,
            start_with_classic || classic_count == 0,
            words@.len() == i,
            forall|j: int| 0 <= j < i ==> (#[trigger] words@[j])@ == opening_word(j),
        decreases classic_count - i,
    {
        words.push(opening(i));
        i = i + 1;
    }
    if count > classic_count {
        let pool = filler_pool_words();
        assert(drawn_after(h0, entropy.history()) =~= Seq::<u64>::empty());
        while words.len() < count
            invariant
                classic_count <= words@.len() <= count,
                classic_count == (if start_with_classic {
                    if count < CLASSIC_OPENING_WORDS {
                        count
                    } else {
                        CLASSIC_OPENING_WORDS
                    }
                } else {
                    0
                }),
                forall|j: int| 0 <= j < classic_count ==> (#[trigger] words@[j])@ == opening_word(j),
                forall|j: int| classic_count <= j < words@.len() ==> is_filler_word(#[trigger] words@[j]@),
                views(pool@) == filler_pool(),
                extends(h0, entropy.history()),
                old(entropy).history() == h0,
                pool@.len() == 0 ==> drawn_after(h0, entropy.history()).len() == 0,
                pool@.len() > 0 && drawn_after(h0, entropy.history()).len() < DRAW_LIMIT ==> {
                    let d = drawn_after(h0, entropy.history());
                    let m = (pool@.len() - 1) as u64;
                    &&& accepted_values(d, 0, m).len() == words@.len() - classic_count
                    &&& ends_accepted(d, 0, m)
                    &&& forall|j: int|
                        classic_count <= j < words@.len() ==> (#[trigger] words@[j])@
                            == filler_pool()[accepted_values(d, 0, m)[j - classic_count] as int]
                },
            decreases count - words.len(),
        {
            if pool.len() == 0 {
                let fallback: Vec<char> = vec!['l', 'o', 'r', 'e', 'm'];
                let w = string_of(fallback.as_slice());
                assert(w@ =~= fallback_word());
                words.push(w);
            } else {
                let ghost prev = entropy.history();
                let idx = entropy.bounded_int(0, (pool.len() - 1) as u64);
                proof {
                    lemma_extends_trans(h0, prev, entropy.history());
                    let x = drawn_after(h0, prev);
                    let e = drawn_after(prev, entropy.history());
                    assert(drawn_after(h0, entropy.history()) =~= x + e);
                    if drawn_after(h0, entropy.history()).len() < DRAW_LIMIT {
                        lemma_accepted_values_append(x, e, 0, (pool@.len() - 1) as u64);
                        assert((x + e).last() == e.last());
                    }
                }
                let w = copy_string(&pool[idx as usize]);
                assert(filler_pool()[idx as int] == w@);
                words.push(w);
            }
        }
    }
    proof {
        assert forall|j: int|
            0 <= j < words@.len() && (!start_with_classic || j >= CLASSIC_OPENING_WORDS) implies is_filler_word(
            #[trigger] views(words@)[j],
        ) by {
            assert(j >= classic_count);
        }
    }
    words
}

/// A sentence of words: the first capitalized unless it opens classically,
/// joined by spaces, ending with a period.
pub open spec fn sentence_of(ws: Seq<Seq<char>>, classic: bool) -> Seq<char> {
    words_text(
        if classic || ws.len() == 0 {
            ws
        } else {
            ws.update(0, capitalized(ws[0]))
        },
    ).push('.')
}

/// A generated sentence: 8 to 15 lorem words made into a sentence.
pub open spec fn is_sentence(s: Seq<char>, classic: bool) -> bool {
    exists|ws: Seq<Seq<char>>|
        8 <= ws.len() <= 15 && lorem_words(ws, classic) && s == #[trigger] sentence_of(ws, classic)
}

/// A generated paragraph: 3 to 6 sentences joined by spaces.
pub open spec fn is_paragraph(p: Seq<char>, classic: bool) -> bool {
    exists|ss: Seq<Seq<char>>|
        3 <= ss.len() <= 6 && (forall|i: int|
            0 <= i < ss.len() ==> is_sentence(#[trigger] ss[i], classic && i == 0)) && p
            == #[trigger] words_text(ss)
}

/// One sentence: a uniform number of words in `8..16`, the first word
/// capitalized, joined by spaces, ending with a period.
fn get_some_words(entropy: &mut Entropy, start_with_classic: bool) -> (r: String)
    ensures
        extends(old(entropy).history(), final(entropy).history()),
        is_sentence(r@, start_with_classic),
        ({
            let d = drawn_after(old(entropy).history(), final(entropy).history());
            exists|n1: int, ws: Seq<Seq<char>>|
                0 < n1 <= d.len() && (d.len() < DRAW_LIMIT ==> accepted_values(
                    #[trigger] d.take(n1),
                    8,
                    15,
                ) == seq![ws.len() as u64] && ends_accepted(d.take(n1), 8, 15)) && 8 <= ws.len()
                    <= 15 && lorem_words(ws, start_with_classic) && r@ == #[trigger] sentence_of(
                    ws,
                    start_with_classic,
                )
        }),
{
    let ghost h0 = entropy.history();
    let word_count = entropy.bounded_int(8, 15) as usize;
    let ghost h1 = entropy.history();
    proof {
        let e = drawn_after(h0, h1);
        if e.len() < DRAW_LIMIT {
            lemma_accepted_values_append(Seq::empty(), e, 8, 15);
            assert(Seq::<u64>::empty() + e =~= e);
        }
    }
    let words = generate_words(entropy, word_count, start_with_classic);
    proof {
        lemma_extends_trans(h0, h1, entropy.history());
    }
    let ghost ws = views(words@);
    let ghost shown = if start_with_classic {
        ws
    } else {
        ws.update(0, capitalized(ws[0]))
    };
    let first = if start_with_classic {
        copy_string(&words[0])
    } else {
        capitalize_first(words[0].as_str())
    };
    let mut out: Vec<char> = chars_of(first.as_str());
    assert(out@ =~= words_text(shown.take(1)));
    let mut i: usize = 1;
    while i < words.len()
        invariant
            1 <= i <= words.len(),
            ws == views(words@),
            shown.len() == ws.len(),
            forall|j: int| 1 <= j < shown.len() ==> #[trigger] shown[j] == ws[j],
            out@ == words_text(shown.take(i as int)),
        decreases words.len() - i,
    {
        out.push(' ');
        let w = chars_of(words[i].as_str());
        push_all(&mut out, &w);
        proof {
            assert(shown.take(i + 1).drop_last() =~= shown.take(i as int));
            assert(shown.take(i + 1).last() == ws[i as int]);
            assert(out@ =~= words_text(shown.take(i + 1)));
        }
        i = i + 1;
    }
    out.push('.');
    assert(shown.take(i as int) =~= shown);
    assert(out@ == sentence_of(ws, start_with_classic));
    proof {
        let d = drawn_after(h0, entropy.history());
        let n1 = drawn_after(h0, h1).len() as int;
        assert(d.take(n1) =~= drawn_after(h0, h1));
        if d.len() < DRAW_LIMIT {
            assert(accepted_values(d.take(n1), 8, 15) =~= seq![ws.len() as u64]);
        }
    }
    string_of(out.as_slice())
}

/// A paragraph: a uniform number of sentences in `3..7`, joined by spaces.
fn get_some_sentences(entropy: &mut Entropy, start_with_classic: bool) -> (r: String)
    ensures
        extends(old(entropy).history(), final(entropy).history()),
        is_paragraph(r@, start_with_classic),
{
    let ghost h0 = entropy.history();
    let n = entropy.bounded_int(3, 6);
    let ghost mut ss: Seq<Seq<char>> = Seq::empty();
    let mut out: Vec<char> = Vec::new();
    let mut i: u64 = 0;
    while i < n
        invariant
            i <= n <= 6,
            ss.len() == i,
            forall|j: int| 0 <= j < i ==> is_sentence(#[trigger] ss[j], start_with_classic && j == 0),
            out@ == words_text(ss),
            extends(h0, entropy.history()),
            old(entropy).history() == h0,
        decreases n - i,
    {
        if i > 0 {
            out.push(' ');
        }
        let ghost prev = entropy.history();
        let s = get_some_words(entropy, start_with_classic && i == 0);
        proof {
            lemma_extends_trans(h0, prev, entropy.history());
        }
        let cs = chars_of(s.as_str());
        push_all(&mut out, &cs);
        proof {
            let old_ss = ss;
            ss = ss.push(s@);
            assert(ss.drop_last() =~= old_ss);
            assert(out@ =~= words_text(ss));
        }
        i = i + 1;
    }
    string_of(out.as_slice())
}

/// What `count` units of lorem ipsum are: empty for 0; for words, `count`
/// lorem words opening classically, ending with a period; for sentences,
/// `count` sentences, the first opening classically; for paragraphs, the
/// classic paragraph and then generated ones, separated by blank lines.
/// Spacing is cleaned in every case.
pub open spec fn lorem_text_ok(s: Seq<char>, count: nat, unit: LoremUnit) -> bool {
    &&& count == 0 ==> s.len() == 0
    &&& count > 0 && unit == LoremUnit::Words ==> exists|ws: Seq<Seq<char>>|
        ws.len() == count && lorem_words(ws, true) && s == cleaned(
            #[trigger] words_text(ws).push('.'),
        )
    &&& count > 0 && unit == LoremUnit::Sentences ==> exists|ss: Seq<Seq<char>>|
        ss.len() == count && (forall|i: int| 0 <= i < ss.len() ==> is_sentence(#[trigger] ss[i], i == 0))
            && s == cleaned(#[trigger] words_text(ss))
    &&& count > 0 && unit == LoremUnit::Paragraphs ==> exists|ps: Seq<Seq<char>>|
        ps.len() == count && ps[0] == classic_paragraph() && (forall|i: int|
            1 <= i < ps.len() ==> is_paragraph(#[trigger] ps[i], false)) && s == cleaned(
            #[trigger] blocks_text(ps),
        )
}

/// `count` units of lorem ipsum, spacing cleaned (see [`lorem_text_ok`]).
pub fn generate_lorem_text(entropy: &mut Entropy, count: usize, unit: LoremUnit) -> (r: Result<String, GivError>)
    ensures
        extends(old(entropy).history(), final(entropy).history()),
        r matches Ok(s) && lorem_text_ok(s@, count as nat, unit),
{
    let ghost h0 = entropy.history();
    proof {
        lemma_extends_refl(h0);
    }
    if count == 0 {
        return Ok(string_of(Vec::<char>::new().as_slice()));
    }
    let mut text: Vec<char> = Vec::new();
    match unit {
        LoremUnit::Words => {
            let words = generate_words(entropy, count, true);
            let mut i: usize = 0;
            while i < words.len()
                invariant
                    i <= words.len(),
                    text@ == words_text(views(words@.take(i as int))),
                decreases words.len() - i,
            {
                if i > 0 {
                    text.push(' ');
                }
                let w = chars_of(words[i].as_str());
                push_all(&mut text, &w);
                proof {
                    assert(views(words@.take(i + 1)).drop_last() =~= views(words@.take(i as int)));
                    assert(views(words@.take(i + 1)).last() == words@[i as int]@);
                    if i == 0 {
                        assert(text@ =~= words_text(views(words@.take(1))));
                    } else {
                        assert(text@ =~= words_text(views(words@.take(i + 1))));
                    }
                }
                i = i + 1;
            }
            text.push('.');
            assert(words@.take(i as int) =~= words@);
            let r = clean_spacing(string_of(text.as_slice()).as_str());
            assert(r@ == cleaned(words_text(views(words@)).push('.')));
            Ok(r)
        },
        LoremUnit::Sentences => {
            let ghost mut ss: Seq<Seq<char>> = Seq::empty();
            let mut i: usize = 0;
            while i < count
                invariant
                    i <= count,
                    ss.len() == i,
                    forall|j: int| 0 <= j < i ==> is_sentence(#[trigger] ss[j], j == 0),
                    text@ == words_text(ss),
                    extends(h0, entropy.history()),
                    old(entropy).history() == h0,
                decreases count - i,
            {
                if i > 0 {
                    text.push(' ');
                }
                let ghost prev = entropy.history();
                let s = get_some_words(entropy, i == 0);
                proof {
                    lemma_extends_trans(h0, prev, entropy.history());
                }
                let cs = chars_of(s.as_str());
                push_all(&mut text, &cs);
                proof {
                    let old_ss = ss;
                    ss = ss.push(s@);
                    assert(ss.drop_last() =~= old_ss);
                    assert(text@ =~= words_text(ss));
                }
                i = i + 1;
            }
            let r = clean_spacing(string_of(text.as_slice()).as_str());
            assert(r@ == cleaned(words_text(ss)));
            Ok(r)
        },
        LoremUnit::Paragraphs => {
            let ghost mut ps: Seq<Seq<char>> = Seq::empty();
            let mut i: usize = 0;
            while i < count
                invariant
                    i <= count,
                    ps.len() == i,
                    i > 0 ==> ps[0] == classic_paragraph(),
                    forall|j: int| 1 <= j < i ==> is_paragraph(#[trigger] ps[j], false),
                    text@ == blocks_text(ps),
                    extends(h0, entropy.history()),
                    old(entropy).history() == h0,
                decreases count - i,
            {
                if i > 0 {
                    text.push('\n');
                    text.push('\n');
                }
                let ghost prev = entropy.history();
                let block = if i == 0 {
                    let t = classic_paragraph_text();
                    string_of(t.as_slice())
                } else {
                    get_some_sentences(entropy, false)
                };
                proof {
                    if i > 0 {
                        lemma_extends_trans(h0, prev, entropy.history());
                    }
                }
                let cs = chars_of(block.as_str());
                push_all(&mut text, &cs);
                proof {
                    let old_ps = ps;
                    ps = ps.push(block@);
                    assert(ps.drop_last() =~= old_ps);
                    assert(text@ =~= blocks_text(ps));
                }
                i = i + 1;
            }
            let r = clean_spacing(string_of(text.as_slice()).as_str());
            assert(r@ == cleaned(blocks_text(ps)));
            Ok(r)
        },
    }
}

/// Generated lorem ipsum.
#[derive(Debug)]
pub struct LoremOutput {
    /// The text.
    pub lorem: String,
}

/// Lorem ipsum of `count` units (50 when `None`).
pub fn generate_lorem(entropy: &mut Entropy, count: Option<usize>, unit: LoremUnit) -> (r: Result<
    LoremOutput,
    GivError,
>)
    ensures
        extends(old(entropy).history(), final(entropy).history()),
        r matches Ok(o) && lorem_text_ok(
            o.lorem@,
            (match count {
                Some(n) => n,
                None => DEFAULT_COUNT,
            }) as nat,
            unit,
        ),
{
    let n = match count {
        Some(n) => n,
        None => DEFAULT_COUNT,
    };
    match generate_lorem_text(entropy, n, unit) {
        Ok(lorem) => Ok(LoremOutput { lorem }),
        Err(e) => Err(e),
    }
}

} // verus!
