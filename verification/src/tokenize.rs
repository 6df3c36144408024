//! Tokenizer: maps a phoneme symbol string to integer token ids through a
//! fixed, ordered character vocabulary.
//!
//! The vocabulary is a static table shared by the whole process: the boundary
//! marker `$` has id 0, a small set of punctuation symbols follows, then the
//! lower-case and upper-case ASCII letters. A symbol outside the vocabulary
//! maps deterministically to the boundary id 0; it is never dropped, so the
//! token sequence always has exactly one id per input symbol.

use vstd::prelude::*;

verus! {

/// Number of ids in the fixed vocabulary; every token id is below this bound.
pub const VOCAB_SIZE: i64 = 62;

/// The id of the boundary marker `$`, also the deterministic fallback id for
/// symbols outside the vocabulary.
pub const BOUNDARY_ID: i64 = 0;

/// The vocabulary as a function from symbol to id.
pub open spec fn spec_token_id(c: char) -> i64 {
    if c == '$' {
        0
    } else if c == ';' {
        1
    } else if c == ':' {
        2
    } else if c == ',' {
        3
    } else if c == '.' {
        4
    } else if c == '!' {
        5
    } else if c == '?' {
        6
    } else if c == '-' {
        7
    } else if c == ' ' {
        8
    } else if c == '\'' {
        9
    } else if 'a' <= c && c <= 'z' {
        (10 + c as int - 'a' as int) as i64
    } else if 'A' <= c && c <= 'Z' {
        (36 + c as int - 'A' as int) as i64
    } else {
        0
    }
}

/// The token sequence of a symbol sequence: one id per symbol.
pub open spec fn spec_tokens(s: Seq<char>) -> Seq<i64> {
    s.map(|i: int, c: char| spec_token_id(c))
}

/// A phoneme string wrapped with the start and end boundary markers.
pub open spec fn spec_wrap(s: Seq<char>) -> Seq<char> {
    seq!['$'] + s + seq!['$']
}

/// Every id the vocabulary hands out lies inside the vocabulary range.
pub proof fn lemma_token_id_in_range(c: char)
    ensures
        0 <= spec_token_id(c) < VOCAB_SIZE,
{
}

/// Maps one symbol to its token id.
pub fn token_id(c: char) -> (r: i64)
    ensures
        r == spec_token_id(c),
{
    let u = c as u32;
    if c == '$' {
        0
    } else if c == ';' {
        1
    } else if c == ':' {
        2
    } else if c == ',' {
        3
    } else if c == '.' {
        4
    } else if c == '!' {
        5
    } else if c == '?' {
        6
    } else if c == '-' {
        7
    } else if c == ' ' {
        8
    } else if c == '\'' {
        9
    } else if 'a' <= c && c <= 'z' {
        10 + (u as i64 - 'a' as i64)
    } else if 'A' <= c && c <= 'Z' {
        36 + (u as i64 - 'A' as i64)
    } else {
        0
    }
}

/// Maps a phoneme symbol string to its token sequence: one id per symbol, in
/// order, every id inside the vocabulary range.
pub fn tokenize(text: &str) -> (r: Vec<i64>)
    ensures
        r@ == spec_tokens(text@),
        r@.len() == text@.len(),
        forall|i: int| 0 <= i < r@.len() ==> 0 <= #[trigger] r@[i] < VOCAB_SIZE,
{
    let n = text.unicode_len();
    let mut out: Vec<i64> = Vec::new();
    let mut i: usize = 0;
    while i < n
        invariant
            n == text@.len(),
            i <= n,
            out@ == spec_tokens(text@.take(i as int)),
        decreases n - i,
    {
        let c = text.get_char(i);
        out.push(token_id(c));
        i = i + 1;
        proof {
            assert(text@.take(i as int) =~= text@.take(i as int - 1).push(text@[i as int - 1]));
            assert(out@ =~= spec_tokens(text@.take(i as int)));
        }
    }
    proof {
        assert(text@.take(n as int) =~= text@);
        assert forall|i: int| 0 <= i < out@.len() implies 0 <= #[trigger] out@[i] < VOCAB_SIZE by {
            lemma_token_id_in_range(text@[i]);
        }
    }
    out
}

/// Wraps a phoneme string with the `$` boundary markers, one at each end.
pub fn wrap_phonemes(phonemes: &str) -> (r: String)
    ensures
        r@ == spec_wrap(phonemes@),
{
    proof {
        reveal_strlit("$");
    }
    let mut out = String::from_str("$");
    out.append(phonemes);
    out.append("$");
    proof {
        assert(out@ =~= spec_wrap(phonemes@));
    }
    out
}

/// Tokenizing a phoneme string wrapped with the boundary markers yields one
/// token per phoneme symbol plus exactly two boundary tokens, and those two
/// tokens stand first and last with the boundary id.
pub proof fn lemma_wrapped_token_count(s: Seq<char>)
    ensures
        spec_tokens(spec_wrap(s)).len() == s.len() + 2,
        spec_tokens(spec_wrap(s))[0] == BOUNDARY_ID,
        spec_tokens(spec_wrap(s))[s.len() as int + 1] == BOUNDARY_ID,
{
    assert(spec_wrap(s)[0] == '$');
    assert(spec_wrap(s)[s.len() as int + 1] == '$');
}

} // verus!
