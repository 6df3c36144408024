//! Synthesis orchestration: the decisions of one request, from raw text to a
//! ready inference request and from the engine's result to an audio buffer.
//!
//! The two outside steps — phonemization and the engine run — are performed by
//! the unverified shell; this module owns everything between them and the
//! end-to-end error contract: a failure of any step is surfaced to the
//! caller, never reported as success.

use vstd::prelude::*;

use crate::audio::AudioBuffer;
use crate::audio::render;
use crate::tensor::{
    build_request, extract_audio, rows_views, spec_find_output, spec_flatten, InferenceError,
    InferenceRequest, NamedTensor, SPEED_DECI,
};
use crate::tokenize::{spec_tokens, spec_wrap, tokenize, wrap_phonemes};
use crate::voice::{
    spec_mix_err, spec_mix_ok, spec_mix_row, StyleResolutionError, VoiceStyleTable, STYLE_DIM,
};

verus! {

/// A failed synthesis request.
#[derive(Debug, Clone, PartialEq)]
pub enum SynthesisError {
    /// The input text is empty after trimming.
    EmptyInput,
    /// The external phonemizer failed; carries its message.
    Phonemize(String),
    /// The style name did not resolve.
    Style(StyleResolutionError),
    /// The inference step failed.
    Inference(InferenceError),
    /// The rendered audio could not be written; carries the writer's message.
    AudioWrite(String),
}

/// The whitespace trimmed from request text: ASCII spaces, tabs and newlines.
pub open spec fn is_space_char(c: char) -> bool {
    c == ' ' || c == '\t' || c == '\n' || c == '\r'
}

/// A sequence without its leading whitespace.
pub open spec fn spec_trim_front(s: Seq<char>) -> Seq<char>
    decreases s.len(),
{
    if s.len() > 0 && is_space_char(s[0]) {
        spec_trim_front(s.drop_first())
    } else {
        s
    }
}

/// A sequence without its trailing whitespace.
pub open spec fn spec_trim_back(s: Seq<char>) -> Seq<char>
    decreases s.len(),
{
    if s.len() > 0 && is_space_char(s.last()) {
        spec_trim_back(s.drop_last())
    } else {
        s
    }
}

/// A sequence without leading and trailing whitespace.
pub open spec fn spec_trim(s: Seq<char>) -> Seq<char> {
    spec_trim_back(spec_trim_front(s))
}

/// Trimming the front keeps everything from the first non-space on.
proof fn lemma_trim_front_at(s: Seq<char>, a: int)
    requires
        0 <= a <= s.len(),
        forall|k: int| 0 <= k < a ==> is_space_char(#[trigger] s[k]),
        a < s.len() ==> !is_space_char(s[a]),
    ensures
        spec_trim_front(s) =~= s.skip(a),
    decreases a,
{
    if a > 0 {
        assert(is_space_char(s[0]));
        lemma_trim_front_at(s.drop_first(), a - 1);
        assert(s.drop_first().skip(a - 1) =~= s.skip(a));
    } else {
        assert(s.skip(0) =~= s);
    }
}

/// Trimming the back keeps everything before the last non-space.
proof fn lemma_trim_back_at(s: Seq<char>, z: int)
    requires
        0 <= z <= s.len(),
        forall|k: int| z <= k < s.len() ==> is_space_char(#[trigger] s[k]),
        z > 0 ==> !is_space_char(s[z - 1]),
    ensures
        spec_trim_back(s) =~= s.take(z),
    decreases s.len() - z,
{
    if z < s.len() {
        assert(is_space_char(s.last()));
        lemma_trim_back_at(s.drop_last(), z);
        assert(s.drop_last().take(z) =~= s.take(z));
    } else {
        assert(s.take(z as int) =~= s);
    }
}

/// Trims the request text; an input that is empty after trimming fails with
/// `EmptyInput` — exactly then.
pub fn prepare_text(text: &str) -> (r: Result<String, SynthesisError>)
    ensures
        r is Ok <==> spec_trim(text@).len() > 0,
        r matches Ok(t) ==> t@ == spec_trim(text@),
        r matches Err(e) ==> e == SynthesisError::EmptyInput,
{
    let n = text.unicode_len();
    let mut a: usize = 0;
    while a < n && space_at(text, a)
        invariant
            n == text@.len(),
            a <= n,
            forall|k: int| 0 <= k < a ==> is_space_char(#[trigger] text@[k]),
        decreases n - a,
    {
        a = a + 1;
    }
    proof {
        lemma_trim_front_at(text@, a as int);
    }
    if a == n {
        proof {
            assert(spec_trim_front(text@) =~= Seq::<char>::empty());
            assert(spec_trim(text@).len() == 0);
        }
        return Err(SynthesisError::EmptyInput);
    }
    let mut z: usize = n;
    while z > a && space_at(text, z - 1)
        invariant
            n == text@.len(),
            a < n,
            a <= z <= n,
            !is_space_char(text@[a as int]),
            forall|k: int| z <= k < n ==> is_space_char(#[trigger] text@[k]),
        decreases z,
    {
        z = z - 1;
    }
    // the character at `a` is not whitespace, so the scan from the back stops
    // at or after it
    proof {
        assert(z > a);
        assert(!is_space_char(text@[a as int]));
        let front = text@.skip(a as int);
        assert(forall|k: int|
            z - a <= k < front.len() ==> is_space_char(#[trigger] front[k]));
        assert(front[z - a - 1] == text@[z as int - 1]);
        lemma_trim_back_at(front, z - a as int);
        assert(spec_trim(text@) =~= text@.subrange(a as int, z as int));
    }
    let out = text.substring_char(a, z);
    Ok(out.to_owned())
}

/// Whether the character at the given position is request whitespace.
fn space_at(text: &str, i: usize) -> (r: bool)
    requires
        i < text@.len(),
    ensures
        r == is_space_char(text@[i as int]),
{
    let c = text.get_char(i);
    c == ' ' || c == '\t' || c == '\n' || c == '\r'
}

/// The concatenation of the phonemizer's symbol strings, in order.
pub open spec fn spec_join(parts: Seq<Seq<char>>) -> Seq<char>
    decreases parts.len(),
{
    if parts.len() == 0 {
        Seq::empty()
    } else {
        spec_join(parts.drop_last()) + parts.last()
    }
}

/// Joins the phonemizer's symbol strings into one phoneme string, with no
/// separator, as the model's vocabulary expects.
pub fn join_phonemes(parts: &Vec<String>) -> (r: String)
    ensures
        r@ == spec_join(parts.deep_view()),
{
    let mut out = String::new();
    let n = parts.len();
    let mut i: usize = 0;
    while i < n
        invariant
            n == parts@.len(),
            i <= n,
            out@ == spec_join(parts.deep_view().take(i as int)),
        decreases n - i,
    {
        out.append(parts[i].as_str());
        i = i + 1;
        proof {
            let pre = parts.deep_view().take(i - 1);
            let post = parts.deep_view().take(i as int);
            assert(parts.deep_view()[i - 1] == parts@[i - 1]@);
            assert(post.drop_last() =~= pre);
            assert(post.last() == parts@[i - 1]@);
        }
    }
    proof {
        assert(parts.deep_view().take(n as int) =~= parts.deep_view());
    }
    out
}

/// Builds the inference request of one synthesis step: joins the phonemizer's
/// output, wraps it with the boundary markers, tokenizes it, resolves the
/// style name, and shapes the single-row batches. Succeeds exactly when the
/// style name resolves; the token sequence then holds one token per phoneme
/// symbol plus the two boundary tokens.
pub fn plan_inference(table: &VoiceStyleTable, phonemes: &Vec<String>, style_name: &str) -> (r:
    Result<InferenceRequest, SynthesisError>)
    requires
        table.wf(),
    ensures
        r is Ok <==> spec_mix_ok(table.entries@, style_name@),
        r matches Ok(req) ==> {
            &&& req.batch == 1
            &&& req.seq_len == spec_join(phonemes.deep_view()).len() + 2
            &&& req.tokens@ == spec_tokens(spec_wrap(spec_join(phonemes.deep_view())))
            &&& req.style@.len() == STYLE_DIM
            &&& forall|j: int|
                0 <= j < STYLE_DIM ==> req.style@[j] == spec_mix_row(
                    table.entries@,
                    style_name@,
                    j,
                )
            &&& req.speed_deci == SPEED_DECI
        },
        r matches Err(e) ==> e == SynthesisError::Style(spec_mix_err(style_name@)),
{
    let joined = join_phonemes(phonemes);
    let wrapped = wrap_phonemes(joined.as_str());
    let tokens = tokenize(wrapped.as_str());
    let styles = match table.mix_styles(style_name) {
        Ok(rows) => rows,
        Err(e) => {
            return Err(SynthesisError::Style(e));
        },
    };
    let mut token_batch: Vec<Vec<i64>> = Vec::new();
    token_batch.push(tokens);
    match build_request(&token_batch, &styles) {
        Ok(req) => {
            proof {
                let tb = rows_views(token_batch@);
                assert(tb.len() == 1);
                assert(tb.drop_last() =~= Seq::<Seq<i64>>::empty());
                assert(spec_flatten(Seq::<Seq<i64>>::empty()) == Seq::<i64>::empty());
                assert(tb.last() == token_batch@[0]@);
                assert(spec_flatten(tb) =~= token_batch@[0]@);
                let sb = rows_views(styles@);
                assert(sb.len() == 1);
                assert(sb.drop_last() =~= Seq::<Seq<i128>>::empty());
                assert(spec_flatten(Seq::<Seq<i128>>::empty()) == Seq::<i128>::empty());
                assert(sb.last() == styles@[0]@);
                assert(spec_flatten(sb) =~= styles@[0]@);
            }
            Ok(req)
        },
        Err(_) => {
            // unreachable: a single-row token batch is rectangular and the
            // resolved style is a single row of STYLE_DIM components
            proof {
                assert(false);
            }
            Err(SynthesisError::EmptyInput)
        },
    }
}

/// Turns the engine's result into the request's outcome: an engine failure is
/// surfaced as an error — synthesis never reports success for a request whose
/// inference step failed — and a successful run must carry the output tensor
/// named `audio`, whose data becomes the sample buffer unchanged.
pub fn finish_synthesis(engine_result: Result<Vec<NamedTensor>, String>) -> (r: Result<
    AudioBuffer,
    SynthesisError,
>)
    ensures
        engine_result matches Err(m) ==> r == Err::<AudioBuffer, SynthesisError>(
            SynthesisError::Inference(InferenceError::Engine(m)),
        ),
        engine_result matches Ok(outs) ==> {
            &&& (r is Ok <==> spec_find_output(outs@, "audio"@) != -1)
            &&& (r matches Ok(buf) ==> buf.samples@ == outs@[spec_find_output(
                outs@,
                "audio"@,
            )].tensor.data@)
            &&& (r matches Err(e) ==> e == SynthesisError::Inference(InferenceError::MissingOutput))
        },
{
    match engine_result {
        Err(m) => Err(SynthesisError::Inference(InferenceError::Engine(m))),
        Ok(outs) => {
            match extract_audio(&outs) {
                Ok(tensor) => Ok(render(tensor)),
                Err(e) => Err(SynthesisError::Inference(e)),
            }
        },
    }
}

} // verus!
