//! Random identifier keys: `key_` followed by characters drawn without bias
//! from the 62 ASCII letters and digits.

use crate::entropy::{
    cycle_draws, drawn_after, extends, lemma_cycle_draws_trans, lemma_extends_refl,
    lemma_extends_trans, lemma_push_extends, word_bytes, words_bytes, Entropy, DRAW_LIMIT,
};
use crate::error::GivError;
use crate::text::{push_all, push_str, string_of};
use vstd::prelude::*;

verus! {

/// The key length when none is given.
pub const DEFAULT_KEY_SIZE: usize = 36;

/// Bytes at or above this are dropped: it is the largest multiple of 62
/// that fits a byte, so the kept bytes map uniformly onto the alphabet.
pub const RNG_RANGE: u8 = 248;

/// Character `i` of the alphabet `A-Z`, `a-z`, `0-9`.
pub open spec fn key_char(i: int) -> char {
    if i < 26 {
        (65 + i) as u8 as char
    } else if i < 52 {
        (97 + i - 26) as u8 as char
    } else {
        (48 + i - 52) as u8 as char
    }
}

/// An ASCII letter or digit.
pub open spec fn is_key_char(c: char) -> bool {
    ('A' <= c && c <= 'Z') || ('a' <= c && c <= 'z') || ('0' <= c && c <= '9')
}

/// The key characters that a byte string yields: each byte below 248
/// gives the alphabet character at its value modulo 62, the others none.
pub open spec fn key_chars(b: Seq<u8>) -> Seq<char>
    decreases b.len(),
{
    if b.len() == 0 {
        Seq::empty()
    } else if b.last() < RNG_RANGE {
        key_chars(b.drop_last()).push(key_char(b.last() as int % 62))
    } else {
        key_chars(b.drop_last())
    }
}

/// The first `n` elements of `s`, or all of it when it is shorter.
pub open spec fn at_most(s: Seq<char>, n: nat) -> Seq<char> {
    if s.len() <= n {
        s
    } else {
        s.take(n as int)
    }
}

/// Below the draw limit, a key is the key characters of the drawn words'
/// bytes, cut at its size, and no more words were drawn than needed.
pub open spec fn key_from_draws(s: Seq<char>, d: Seq<u64>, size: nat) -> bool {
    d.len() < DRAW_LIMIT ==> {
        &&& s == at_most(key_chars(words_bytes(d)), size)
        &&& d.len() > 0 ==> key_chars(words_bytes(d.drop_last())).len() < size
        &&& size == 0 ==> d.len() == 0
    }
}

fn alphabet_char(i: u8) -> (c: char)
    requires
        i < 62,
    ensures
        c == key_char(i as int),
        is_key_char(c),
{
    if i < 26 {
        (65 + i) as char
    } else if i < 52 {
        (97 + i - 26) as char
    } else {
        (48 + i - 52) as char
    }
}

/// `size` key characters (without the `key_` prefix). Words are drawn one
/// at a time and their bytes taken least significant first; bytes of 248
/// or more are skipped and the rest map to `alphabet[byte % 62]`, until
/// `size` characters are there; what is left of the last word is dropped.
/// After `DRAW_LIMIT` draws, bytes are no longer skipped.
pub fn get_key(entropy: &mut Entropy, size: usize) -> (r: Result<String, GivError>)
    ensures
        extends(old(entropy).history(), final(entropy).history()),
        final(entropy).fixed_words() == old(entropy).fixed_words(),
        cycle_draws(old(entropy).history(), final(entropy).history(), old(entropy).fixed_words()),
        r matches Ok(s) && s@.len() == size && (forall|i: int|
            0 <= i < size ==> is_key_char(#[trigger] s@[i])) && key_from_draws(
            s@,
            drawn_after(old(entropy).history(), final(entropy).history()),
            size as nat,
        ),
{
    let ghost h0 = entropy.history();
    proof {
        lemma_extends_refl(h0);
        assert(drawn_after(h0, h0) =~= Seq::<u64>::empty());
    }
    let mut out: Vec<char> = Vec::new();
    let mut draws: u64 = 0;
    while out.len() < size && draws < DRAW_LIMIT
        invariant
            extends(h0, entropy.history()),
            old(entropy).history() == h0,
            entropy.fixed_words() == old(entropy).fixed_words(),
            cycle_draws(h0, entropy.history(), old(entropy).fixed_words()),
            drawn_after(h0, entropy.history()).len() == draws,
            draws <= DRAW_LIMIT,
            out@.len() <= size,
            forall|i: int| 0 <= i < out@.len() ==> is_key_char(#[trigger] out@[i]),
            out@ == at_most(key_chars(words_bytes(drawn_after(h0, entropy.history()))), size as nat),
            draws > 0 ==> key_chars(
                words_bytes(drawn_after(h0, entropy.history()).drop_last()),
            ).len() < size,
        decreases DRAW_LIMIT - draws,
    {
        let ghost prev = entropy.history();
        let ghost dprev = drawn_after(h0, prev);
        let w = entropy.next_word();
        proof {
            lemma_push_extends(prev, w);
            lemma_cycle_draws_trans(h0, prev, entropy.history(), old(entropy).fixed_words());
            assert(entropy.history().take(h0.len() as int) =~= prev.take(h0.len() as int));
            assert(drawn_after(h0, entropy.history()) =~= dprev.push(w));
            assert(drawn_after(h0, entropy.history()).drop_last() =~= dprev);
            assert(out@ == key_chars(words_bytes(dprev)));
        }
        draws = draws + 1;
        let mut k: u64 = 0;
        while k < 8
            invariant
                k <= 8,
                out@.len() <= size,
                forall|i: int| 0 <= i < out@.len() ==> is_key_char(#[trigger] out@[i]),
                out@ == at_most(
                    key_chars(words_bytes(dprev) + word_bytes(w).take(k as int)),
                    size as nat,
                ),
            decreases 8 - k,
        {
            assert((w >> (8 * k)) & 0xff <= 0xff) by (bit_vector);
            let byte: u8 = ((w >> (8 * k)) & 0xff) as u8;
            let ghost bs = words_bytes(dprev) + word_bytes(w).take(k as int);
            let ghost bs2 = words_bytes(dprev) + word_bytes(w).take(k + 1);
            assert(bs2 =~= bs.push(byte));
            assert(bs2.drop_last() =~= bs);
            if byte < RNG_RANGE && out.len() < size {
                out.push(alphabet_char(byte % 62));
            }
            k = k + 1;
        }
        assert(word_bytes(w).take(8) =~= word_bytes(w));
    }
    if out.len() < size {
        assert(draws == DRAW_LIMIT);
        let mut k: u64 = 8;
        let mut w: u64 = 0;
        while out.len() < size
            invariant
                out@.len() <= size,
                k <= 8,
                forall|i: int| 0 <= i < out@.len() ==> is_key_char(#[trigger] out@[i]),
                extends(h0, entropy.history()),
                old(entropy).history() == h0,
                entropy.fixed_words() == old(entropy).fixed_words(),
                cycle_draws(h0, entropy.history(), old(entropy).fixed_words()),
                drawn_after(h0, entropy.history()).len() >= DRAW_LIMIT,
            decreases size - out.len(), 8 - k,
        {
            if k == 8 {
                let ghost prev = entropy.history();
                w = entropy.next_word();
                proof {
                    assert(entropy.history().take(prev.len() as int) =~= prev);
                    lemma_extends_trans(h0, prev, entropy.history());
                    lemma_cycle_draws_trans(h0, prev, entropy.history(), old(entropy).fixed_words());
                }
                k = 0;
            }
            assert((w >> (8 * k)) & 0xff <= 0xff) by (bit_vector);
            let byte: u8 = ((w >> (8 * k)) & 0xff) as u8;
            out.push(alphabet_char(byte % 62));
            k = k + 1;
        }
    }
    Ok(string_of(out.as_slice()))
}

/// The result of the key generator.
#[derive(Debug)]
pub struct KeyOutput {
    /// The key, `key_` included.
    pub key: String,
}

/// A key of `size` characters (36 when `None`) after the prefix `key_`.
pub fn key_command(entropy: &mut Entropy, size: Option<usize>) -> (r: Result<KeyOutput, GivError>)
    ensures
        extends(old(entropy).history(), final(entropy).history()),
        final(entropy).fixed_words() == old(entropy).fixed_words(),
        cycle_draws(old(entropy).history(), final(entropy).history(), old(entropy).fixed_words()),
        r matches Ok(o) && key_from_draws(
            o.key@.skip(4),
            drawn_after(old(entropy).history(), final(entropy).history()),
            (match size {
                Some(n) => n,
                None => DEFAULT_KEY_SIZE,
            }) as nat,
        ) && o.key@.len() == 4 + match size {
            Some(n) => n,
            None => DEFAULT_KEY_SIZE,
        } && o.key@.take(4) == "key_"@ && forall|i: int|
            4 <= i < o.key@.len() ==> is_key_char(#[trigger] o.key@[i]),
{
    let n = match size {
        Some(n) => n,
        None => DEFAULT_KEY_SIZE,
    };
    match get_key(entropy, n) {
        Ok(body) => {
            let mut out: Vec<char> = Vec::new();
            push_str(&mut out, "key_");
            let b = crate::text::chars_of(body.as_str());
            push_all(&mut out, &b);
            proof {
                reveal_strlit("key_");
                assert(out@.take(4) =~= "key_"@);
                assert forall|i: int| 4 <= i < out@.len() implies is_key_char(#[trigger] out@[i]) by {
                    assert(out@[i] == body@[i - 4]);
                }
                assert(out@.skip(4) =~= body@);
            }
            Ok(KeyOutput { key: string_of(out.as_slice()) })
        },
        Err(e) => Err(e),
    }
}

} // verus!
