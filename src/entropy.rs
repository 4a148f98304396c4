//! The entropy source that every random generator draws from, and the
//! unbiased bounded-integer sampler built on it.
//!
//! A source yields 64-bit words. It is either an operating-system-seeded or
//! seeded pseudo-random generator, or a fixed cycle of words (useful to
//! force outcomes). Each source records, as ghost state, every word it has
//! handed out, so that contracts can state results as functions of the
//! words that were drawn.

use rand::rngs::StdRng;
use vstd::prelude::*;

verus! {

#[verifier::external_type_specification]
#[verifier::external_body]
pub struct ExStdRng(StdRng);

/// Relies on `SeedableRng::try_from_os_rng`: a generator seeded by the
/// operating system, or `None` when the system source failed.
#[verifier::external_body]
fn os_rng() -> (r: Option<StdRng>) {
    <StdRng as rand::SeedableRng>::try_from_os_rng().ok()
}

/// Relies on `SeedableRng::seed_from_u64`: a generator whose sequence
/// depends on the seed alone.
#[verifier::external_body]
fn seeded_rng(seed: u64) -> (r: StdRng) {
    <StdRng as rand::SeedableRng>::seed_from_u64(seed)
}

/// Relies on `RngCore::next_u64`: the next word of the generator.
#[verifier::external_body]
fn rng_next_u64(rng: &mut StdRng) -> (r: u64)
    no_unwind
{
    rand::RngCore::next_u64(rng)
}

/// A source of 64-bit random words: a generator, or, when `words` is not
/// empty, that fixed cycle of words (the generator is then unused).
pub struct Entropy {
    generator: StdRng,
    words: Vec<u64>,
    cursor: Cursor,
}

/// The index of the next fixed word, and every word handed out so far.
struct Cursor {
    next: usize,
    drawn: Ghost<Seq<u64>>,
}

/// Draw `i` of a fixed source with cycle `ws`.
pub open spec fn cycle_word(ws: Seq<u64>, i: int) -> u64 {
    ws[i % (ws.len() as int)]
}

/// After a draw limit this large, a sampler stops rejecting; no real run
/// comes near it.
pub const DRAW_LIMIT: u64 = 0xffff_ffff_ffff_ffff;

/// For a fixed source with cycle `f`, the words of `later` after those of
/// `earlier` continue the cycle: draw `j` is word `j` modulo its length.
pub open spec fn cycle_draws(earlier: Seq<u64>, later: Seq<u64>, f: Option<Seq<u64>>) -> bool {
    f matches Some(ws) ==> forall|j: int|
        earlier.len() <= j < later.len() ==> #[trigger] later[j] == cycle_word(ws, j)
}

pub proof fn lemma_push_extends(h: Seq<u64>, w: u64)
    ensures
        extends(h, h.push(w)),
{
    assert(h.push(w).take(h.len() as int) =~= h);
}

pub proof fn lemma_cycle_draws_trans(
    a: Seq<u64>,
    b: Seq<u64>,
    c: Seq<u64>,
    f: Option<Seq<u64>>,
)
    requires
        extends(a, b),
        extends(b, c),
        cycle_draws(a, b, f),
        cycle_draws(b, c, f),
    ensures
        cycle_draws(a, c, f),
{
    if f is Some {
        assert forall|j: int| a.len() <= j < c.len() implies #[trigger] c[j] == cycle_word(
            f->0,
            j,
        ) by {
            if j < b.len() {
                assert(c[j] == c.take(b.len() as int)[j]);
                assert(b[j] == cycle_word(f->0, j));
            }
        }
    }
}

/// `later` is `earlier` followed by more words.
pub open spec fn extends(earlier: Seq<u64>, later: Seq<u64>) -> bool {
    earlier.len() <= later.len() && later.take(earlier.len() as int) == earlier
}

/// The words in `later` after those of `earlier`.
pub open spec fn drawn_after(earlier: Seq<u64>, later: Seq<u64>) -> Seq<u64> {
    later.skip(earlier.len() as int)
}

/// The number of values in `[min, max]`.
pub open spec fn span(min: u64, max: u64) -> int {
    max - min + 1
}

/// The largest multiple of the span that is at most `2^64`: words below it
/// map uniformly onto the span.
pub open spec fn cutoff(min: u64, max: u64) -> int {
    (0x1_0000_0000_0000_0000int / span(min, max)) * span(min, max)
}

/// A word that the rejection sampler keeps.
pub open spec fn accepts(w: u64, min: u64, max: u64) -> bool {
    (w as int) < cutoff(min, max)
}

/// The value that a word stands for in `[min, max]`.
pub open spec fn reduce(w: u64, min: u64, max: u64) -> int {
    min + (w as int) % span(min, max)
}

/// Byte `j` (least significant first) of a word.
pub open spec fn word_byte(w: u64, j: int) -> u8 {
    ((w >> ((8 * j) as u64)) & 0xff) as u8
}

/// The eight bytes of a word, least significant first.
pub open spec fn word_bytes(w: u64) -> Seq<u8> {
    Seq::new(8, |j: int| word_byte(w, j))
}

/// The bytes of a sequence of words, each written little-endian.
pub open spec fn words_bytes(ws: Seq<u64>) -> Seq<u8>
    decreases ws.len(),
{
    if ws.len() == 0 {
        Seq::empty()
    } else {
        words_bytes(ws.drop_last()) + word_bytes(ws.last())
    }
}

pub proof fn lemma_extends_refl(a: Seq<u64>)
    ensures
        extends(a, a),
{
    assert(a.take(a.len() as int) =~= a);
}

pub proof fn lemma_extends_trans(a: Seq<u64>, b: Seq<u64>, c: Seq<u64>)
    requires
        extends(a, b),
        extends(b, c),
    ensures
        extends(a, c),
{
    assert(c.take(a.len() as int) =~= b.take(a.len() as int));
}

/// The values that the rejection sampler keeps from a run of words: each
/// accepted word reduced into `[min, max]`, in order; rejected words give none.
pub open spec fn accepted_values(ws: Seq<u64>, min: u64, max: u64) -> Seq<u64>
    decreases ws.len(),
{
    if ws.len() == 0 {
        Seq::empty()
    } else if accepts(ws.last(), min, max) {
        accepted_values(ws.drop_last(), min, max).push(reduce(ws.last(), min, max) as u64)
    } else {
        accepted_values(ws.drop_last(), min, max)
    }
}

/// The words drawn stop at an accepted one: no rejected word follows the
/// last value the sampler kept.
pub open spec fn ends_accepted(d: Seq<u64>, min: u64, max: u64) -> bool {
    d.len() == 0 || accepts(d.last(), min, max)
}

/// Appending a run of rejected words ended by an accepted one adds exactly
/// that word's value.
pub proof fn lemma_accepted_values_append(x: Seq<u64>, e: Seq<u64>, min: u64, max: u64)
    requires
        e.len() >= 1,
        forall|i: int| 0 <= i < e.len() - 1 ==> !accepts(#[trigger] e[i], min, max),
        accepts(e.last(), min, max),
    ensures
        accepted_values(x + e, min, max) == accepted_values(x, min, max).push(
            reduce(e.last(), min, max) as u64,
        ),
    decreases e.len(),
{
    assert((x + e).drop_last() =~= x + e.drop_last());
    assert((x + e).last() == e.last());
    lemma_accepted_values_rejected(x, e.drop_last(), min, max);
}

/// Appending rejected words keeps the values.
pub proof fn lemma_accepted_values_rejected(x: Seq<u64>, e: Seq<u64>, min: u64, max: u64)
    requires
        forall|i: int| 0 <= i < e.len() ==> !accepts(#[trigger] e[i], min, max),
    ensures
        accepted_values(x + e, min, max) == accepted_values(x, min, max),
    decreases e.len(),
{
    if e.len() == 0 {
        assert(x + e =~= x);
    } else {
        assert((x + e).drop_last() =~= x + e.drop_last());
        assert((x + e).last() == e.last());
        assert(!accepts(e[e.len() - 1], min, max));
        lemma_accepted_values_rejected(x, e.drop_last(), min, max);
    }
}

/// Rejection sampling is determined by the stream of words: two samples
/// taken from the same words consume the same number of them (up to and
/// including the first accepted one) and give the same value.
pub proof fn lemma_sample_determined(s: Seq<u64>, n1: int, n2: int, min: u64, max: u64)
    requires
        1 <= n1 <= s.len(),
        1 <= n2 <= s.len(),
        forall|i: int| 0 <= i < n1 - 1 ==> !accepts(#[trigger] s[i], min, max),
        accepts(s[n1 - 1], min, max),
        forall|i: int| 0 <= i < n2 - 1 ==> !accepts(#[trigger] s[i], min, max),
        accepts(s[n2 - 1], min, max),
    ensures
        n1 == n2,
        reduce(s[n1 - 1], min, max) == reduce(s[n2 - 1], min, max),
{
    if n1 < n2 {
        assert(!accepts(s[n1 - 1], min, max));
    } else if n2 < n1 {
        assert(!accepts(s[n2 - 1], min, max));
    }
}

pub proof fn lemma_words_bytes_len(ws: Seq<u64>)
    ensures
        words_bytes(ws).len() == 8 * ws.len(),
    decreases ws.len(),
{
    if ws.len() > 0 {
        lemma_words_bytes_len(ws.drop_last());
    }
}

impl Entropy {
    #[verifier::type_invariant]
    spec fn inv(self) -> bool {
        self.words.len() > 0 ==> {
            &&& self.cursor.next < self.words.len()
            &&& self.cursor.next as int == (self.cursor.drawn@.len() as int) % (self.words.len() as int)
            &&& forall|i: int|
                0 <= i < self.cursor.drawn@.len() ==> self.cursor.drawn@[i] == cycle_word(self.words@, i)
        }
    }

    /// Every word this source has handed out, oldest first.
    pub closed spec fn history(&self) -> Seq<u64> {
        self.cursor.drawn@
    }

    /// The cycle of words of a fixed source; `None` for a generator.
    pub closed spec fn fixed_words(&self) -> Option<Seq<u64>> {
        if self.words.len() > 0 {
            Some(self.words@)
        } else {
            None
        }
    }

    /// A generator seeded by the operating system; `None` when the system
    /// could not provide a seed.
    pub fn from_os() -> (r: Option<Entropy>)
        ensures
            r matches Some(e) ==> e.history() == Seq::<u64>::empty() && e.fixed_words() is None,
    {
        match os_rng() {
            Some(generator) => Some(
                Entropy { generator, words: Vec::new(), cursor: Cursor { next: 0, drawn: Ghost(Seq::empty()) } },
            ),
            None => None,
        }
    }

    /// A generator whose words depend on the seed alone.
    pub fn from_seed(seed: u64) -> (e: Entropy)
        ensures
            e.history() == Seq::<u64>::empty(),
            e.fixed_words() is None,
    {
        Entropy {
            generator: seeded_rng(seed),
            words: Vec::new(),
            cursor: Cursor { next: 0, drawn: Ghost(Seq::empty()) },
        }
    }

    /// A source that hands out `words` in order, starting over after the last.
    pub fn from_words(words: Vec<u64>) -> (e: Entropy)
        requires
            words.len() > 0,
        ensures
            e.history() == Seq::<u64>::empty(),
            e.fixed_words() == Some(words@),
    {
        assert(0int % (words.len() as int) == 0) by (nonlinear_arith)
            requires
                words.len() > 0,
        ;
        Entropy { generator: seeded_rng(0), words, cursor: Cursor { next: 0, drawn: Ghost(Seq::empty()) } }
    }

    /// The next word of the source.
    pub fn next_word(&mut self) -> (w: u64)
        ensures
            final(self).history() == old(self).history().push(w),
            final(self).fixed_words() == old(self).fixed_words(),
            old(self).fixed_words() matches Some(ws) ==> w == cycle_word(
                ws,
                old(self).history().len() as int,
            ),
            cycle_draws(old(self).history(), final(self).history(), old(self).fixed_words()),
    {
        proof {
            use_type_invariant(&*self);
        }
        let ghost n = self.cursor.drawn@.len() as int;
        if self.words.len() > 0 {
            let len = self.words.len();
            let w = self.words[self.cursor.next];
            let nx: usize = if self.cursor.next + 1 < len {
                self.cursor.next + 1
            } else {
                0
            };
            proof {
                let l = len as int;
                let k = self.cursor.next as int;
                assert(nx as int == (n + 1) % l) by (nonlinear_arith)
                    requires
                        l > 0,
                        0 <= k < l,
                        k == n % l,
                        n >= 0,
                        nx as int == if k + 1 < l {
                            k + 1
                        } else {
                            0
                        },
                ;
            }
            self.cursor = Cursor { next: nx, drawn: Ghost(self.cursor.drawn@.push(w)) };
            w
        } else {
            let w = rng_next_u64(&mut self.generator);
            self.cursor = Cursor { next: self.cursor.next, drawn: Ghost(self.cursor.drawn@.push(w)) };
            w
        }
    }

    /// A uniform integer in `[min, max]`, by rejection sampling: words at or
    /// above the cutoff are drawn again, and the kept word is reduced modulo
    /// the span. After `DRAW_LIMIT` draws the last word is used as it is.
    pub fn bounded_int(&mut self, min: u64, max: u64) -> (r: u64)
        requires
            min <= max,
        ensures
            extends(old(self).history(), final(self).history()),
            ({
                let d = drawn_after(old(self).history(), final(self).history());
                &&& d.len() >= 1
                &&& r == reduce(d.last(), min, max)
                &&& forall|i: int| 0 <= i < d.len() - 1 ==> !accepts(#[trigger] d[i], min, max)
                &&& d.len() < DRAW_LIMIT ==> accepts(d.last(), min, max)
            }),
            min <= r <= max,
            final(self).fixed_words() == old(self).fixed_words(),
            cycle_draws(old(self).history(), final(self).history(), old(self).fixed_words()),
    {
        let ghost h0 = self.history();
        let mut count: u64 = 1;
        let mut w = self.next_word();
        assert(self.history().take(h0.len() as int) =~= h0);
        assert(drawn_after(h0, self.history()) =~= seq![w]);
        while count < DRAW_LIMIT && sample_word(w, min, max).is_none()
            invariant
                min <= max,
                1 <= count <= DRAW_LIMIT,
                extends(h0, self.history()),
                drawn_after(h0, self.history()).len() == count,
                drawn_after(h0, self.history()).last() == w,
                forall|i: int|
                    0 <= i < count - 1 ==> !accepts(
                        #[trigger] drawn_after(h0, self.history())[i],
                        min,
                        max,
                    ),
                self.fixed_words() == old(self).fixed_words(),
                old(self).history() == h0,
                cycle_draws(h0, self.history(), old(self).fixed_words()),
            decreases DRAW_LIMIT - count,
        {
            let ghost prev = self.history();
            w = self.next_word();
            proof {
                lemma_push_extends(prev, w);
                lemma_cycle_draws_trans(h0, prev, self.history(), old(self).fixed_words());
            }
            count = count + 1;
            assert(self.history().take(h0.len() as int) =~= prev.take(h0.len() as int));
            assert(drawn_after(h0, self.history()) =~= drawn_after(h0, prev).push(w));
        }
        proof {
            if count < DRAW_LIMIT {
                assert(accepts(w, min, max));
            }
        }
        let r = reduce_word(w, min, max);
        r
    }

    /// `len` bytes: enough words are drawn and written out little-endian,
    /// and the bytes past `len` of the last word are dropped.
    pub fn fill_bytes(&mut self, len: usize) -> (r: Vec<u8>)
        ensures
            extends(old(self).history(), final(self).history()),
            ({
                let d = drawn_after(old(self).history(), final(self).history());
                &&& d.len() == (len + 7) / 8
                &&& r@ == words_bytes(d).take(len as int)
            }),
            r@.len() == len,
            final(self).fixed_words() == old(self).fixed_words(),
            cycle_draws(old(self).history(), final(self).history(), old(self).fixed_words()),
    {
        let ghost h0 = self.history();
        let n_words: usize = len / 8 + if len % 8 == 0 { 0 } else { 1 };
        assert(self.history().take(h0.len() as int) =~= h0);
        assert(drawn_after(h0, self.history()) =~= Seq::<u64>::empty());
        let mut all: Vec<u8> = Vec::new();
        let mut i: usize = 0;
        while i < n_words
            invariant
                i <= n_words,
                n_words == (len + 7) / 8,
                extends(h0, self.history()),
                drawn_after(h0, self.history()).len() == i,
                all@ == words_bytes(drawn_after(h0, self.history())),
                self.fixed_words() == old(self).fixed_words(),
                old(self).history() == h0,
                cycle_draws(h0, self.history(), old(self).fixed_words()),
            decreases n_words - i,
        {
            let ghost prev = self.history();
            let w = self.next_word();
            proof {
                lemma_push_extends(prev, w);
                lemma_cycle_draws_trans(h0, prev, self.history(), old(self).fixed_words());
            }
            assert(self.history().take(h0.len() as int) =~= prev.take(h0.len() as int));
            let mut k: u64 = 0;
            while k < 8
                invariant
                    k <= 8,
                    all@ == words_bytes(drawn_after(h0, prev)) + word_bytes(w).take(k as int),
                decreases 8 - k,
            {
                assert((w >> (8 * k)) & 0xff <= 0xff) by (bit_vector);
                all.push(((w >> (8 * k)) & 0xff) as u8);
                assert(all@ =~= words_bytes(drawn_after(h0, prev)) + word_bytes(w).take(k + 1));
                k = k + 1;
            }
            i = i + 1;
            assert(drawn_after(h0, self.history()) =~= drawn_after(h0, prev).push(w));
            assert(drawn_after(h0, self.history()).drop_last() =~= drawn_after(h0, prev));
            assert(word_bytes(w).take(8) =~= word_bytes(w));
        }
        proof {
            lemma_words_bytes_len(drawn_after(h0, self.history()));
        }
        let mut out: Vec<u8> = Vec::new();
        let mut j: usize = 0;
        while j < len
            invariant
                j <= len,
                len <= all@.len(),
                out@ == all@.take(j as int),
            decreases len - j,
        {
            out.push(all[j]);
            j = j + 1;
            assert(out@ =~= all@.take(j as int));
        }
        out
    }
}

/// The value a single word gives in `[min, max]`, or `None` when the
/// rejection sampler would draw again.
pub fn sample_word(w: u64, min: u64, max: u64) -> (r: Option<u64>)
    requires
        min <= max,
    ensures
        r == (if accepts(w, min, max) {
            Some(reduce(w, min, max) as u64)
        } else {
            None
        }),
{
    let span: u128 = (max - min) as u128 + 1;
    let whole: u128 = 0x1_0000_0000_0000_0000u128;
    let q: u128 = whole / span;
    assert(q * span <= whole) by (nonlinear_arith)
        requires
            q == whole / span,
            span > 0,
    ;
    let cut: u128 = q * span;
    if (w as u128) < cut {
        Some(reduce_word(w, min, max))
    } else {
        None
    }
}

fn reduce_word(w: u64, min: u64, max: u64) -> (r: u64)
    requires
        min <= max,
    ensures
        r == reduce(w, min, max),
        min <= r <= max,
{
    let span: u128 = (max - min) as u128 + 1;
    let m: u128 = (w as u128) % span;
    assert(m < span) by (nonlinear_arith)
        requires
            m == (w as u128) % span,
            span > 0,
    ;
    (min as u128 + m) as u64
}

} // verus!
