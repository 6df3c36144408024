//! Inference request construction and output extraction: the shape checks and
//! flattening around the engine call, and the policy for reading its result.
//!
//! Audio sample values are carried as the bit patterns of 32-bit IEEE
//! samples; the unverified shell converts at the boundary.

use vstd::prelude::*;

use crate::chars::{chars_of, copy_row, string_eq_chars};
use crate::voice::STYLE_DIM;

verus! {

/// The fixed speed scalar, in tenths: 10 stands for a speed of 1.0.
pub const SPEED_DECI: u8 = 10;

/// A malformed input batch.
#[derive(Debug, Clone, Copy, PartialEq, Eq, Structural)]
pub enum TensorShapeError {
    /// The token batch holds no row.
    EmptyTokenBatch,
    /// The token batch's rows differ in length.
    RaggedTokenRows,
    /// The style batch holds no row.
    EmptyStyleBatch,
    /// The style batch's row count differs from the token batch's.
    MismatchedBatch,
    /// A style row does not hold exactly STYLE_DIM components.
    WrongStyleWidth,
}

/// A failed inference step.
#[derive(Debug, Clone, PartialEq)]
pub enum InferenceError {
    /// Inference was asked for before a session was loaded.
    SessionNotReady,
    /// An input batch was malformed.
    Shape(TensorShapeError),
    /// The engine's result carries no tensor named `audio`.
    MissingOutput,
    /// The engine itself reported a failure.
    Engine(String),
}

/// A tensor of 32-bit sample bit patterns with its shape.
pub struct AudioTensor {
    pub shape: Vec<usize>,
    pub data: Vec<u32>,
}

/// One named output tensor of the engine.
pub struct NamedTensor {
    pub name: String,
    pub tensor: AudioTensor,
}

/// The three inference inputs, flattened row-major and ready to be shaped
/// into tensors: the token batch as `[batch, seq_len]`, the style batch as
/// `[batch, STYLE_DIM]`, and the fixed speed scalar.
#[derive(Debug, Clone, PartialEq)]
pub struct InferenceRequest {
    pub batch: usize,
    pub seq_len: usize,
    pub tokens: Vec<i64>,
    pub style: Vec<i128>,
    pub speed_deci: u8,
}

/// The rows of a batch, as sequences.
pub open spec fn rows_views<T>(rows: Seq<Vec<T>>) -> Seq<Seq<T>> {
    Seq::new(rows.len(), |k: int| rows[k]@)
}

/// A batch flattened row-major.
pub open spec fn spec_flatten<T>(rows: Seq<Seq<T>>) -> Seq<T>
    decreases rows.len(),
{
    if rows.len() == 0 {
        Seq::empty()
    } else {
        spec_flatten(rows.drop_last()) + rows.last()
    }
}

/// Whether a token batch is rectangular and non-empty.
pub open spec fn token_batch_ok(tokens: Seq<Vec<i64>>) -> bool {
    &&& tokens.len() > 0
    &&& forall|k: int| 0 <= k < tokens.len() ==> (#[trigger] tokens[k])@.len() == tokens[0]@.len()
}

/// Whether a style batch matches the token batch: as many rows, each of
/// exactly STYLE_DIM components.
pub open spec fn style_batch_ok(tokens: Seq<Vec<i64>>, styles: Seq<Vec<i128>>) -> bool {
    &&& styles.len() == tokens.len()
    &&& forall|k: int| 0 <= k < styles.len() ==> (#[trigger] styles[k])@.len() == STYLE_DIM
}

/// Flattens a batch row-major.
fn flatten_rows<T: Copy>(rows: &Vec<Vec<T>>) -> (r: Vec<T>)
    ensures
        r@ == spec_flatten(rows_views(rows@)),
{
    let mut out: Vec<T> = Vec::new();
    let n = rows.len();
    let mut k: usize = 0;
    while k < n
        invariant
            n == rows@.len(),
            k <= n,
            out@ == spec_flatten(rows_views(rows@).take(k as int)),
        decreases n - k,
    {
        let row = &rows[k];
        let m = row.len();
        let mut j: usize = 0;
        while j < m
            invariant
                k < n,
                n == rows@.len(),
                m == row@.len(),
                row == rows@[k as int],
                j <= m,
                out@ == spec_flatten(rows_views(rows@).take(k as int)) + row@.take(j as int),
            decreases m - j,
        {
            out.push(row[j]);
            j = j + 1;
            proof {
                assert(out@ =~= spec_flatten(rows_views(rows@).take(k as int)) + row@.take(
                    j as int,
                ));
            }
        }
        k = k + 1;
        proof {
            let pre = rows_views(rows@).take(k - 1);
            let post = rows_views(rows@).take(k as int);
            assert(post.drop_last() =~= pre);
            assert(post.last() == rows@[k - 1]@);
            assert(row@.take(m as int) =~= row@);
            assert(out@ =~= spec_flatten(post));
        }
    }
    proof {
        assert(rows_views(rows@).take(n as int) =~= rows_views(rows@));
    }
    out
}

/// Builds the inference request from a token batch and a style batch: checks
/// that the token batch is non-empty and rectangular — a ragged batch is
/// rejected, never padded — and that the style batch matches it with rows of
/// exactly STYLE_DIM components; then flattens both row-major and fixes the
/// speed scalar.
pub fn build_request(tokens: &Vec<Vec<i64>>, styles: &Vec<Vec<i128>>) -> (r: Result<
    InferenceRequest,
    TensorShapeError,
>)
    ensures
        r is Ok <==> token_batch_ok(tokens@) && style_batch_ok(tokens@, styles@),
        r matches Ok(req) ==> {
            &&& req.batch == tokens@.len()
            &&& req.seq_len == tokens@[0]@.len()
            &&& req.tokens@ == spec_flatten(rows_views(tokens@))
            &&& req.style@ == spec_flatten(rows_views(styles@))
            &&& req.speed_deci == SPEED_DECI
        },
        r == Err::<InferenceRequest, TensorShapeError>(TensorShapeError::EmptyTokenBatch) <==> tokens@.len() == 0,
        r == Err::<InferenceRequest, TensorShapeError>(TensorShapeError::RaggedTokenRows) <==> (
        tokens@.len() > 0 && !token_batch_ok(tokens@)),
        r == Err::<InferenceRequest, TensorShapeError>(TensorShapeError::EmptyStyleBatch) <==> (
        token_batch_ok(tokens@) && styles@.len() == 0),
        r == Err::<InferenceRequest, TensorShapeError>(TensorShapeError::MismatchedBatch) <==> (
        token_batch_ok(tokens@) && styles@.len() > 0 && styles@.len() != tokens@.len()),
        r == Err::<InferenceRequest, TensorShapeError>(TensorShapeError::WrongStyleWidth) <==> (
        token_batch_ok(tokens@) && styles@.len() == tokens@.len() && styles@.len() > 0
            && !style_batch_ok(tokens@, styles@)),
{
    let n = tokens.len();
    if n == 0 {
        return Err(TensorShapeError::EmptyTokenBatch);
    }
    let seq_len = tokens[0].len();
    let mut k: usize = 1;
    while k < n
        invariant
            n == tokens@.len(),
            1 <= k <= n,
            seq_len == tokens@[0]@.len(),
            forall|t: int| 0 <= t < k ==> (#[trigger] tokens@[t])@.len() == seq_len,
        decreases n - k,
    {
        if tokens[k].len() != seq_len {
            return Err(TensorShapeError::RaggedTokenRows);
        }
        k = k + 1;
    }
    if styles.len() == 0 {
        return Err(TensorShapeError::EmptyStyleBatch);
    }
    if styles.len() != n {
        return Err(TensorShapeError::MismatchedBatch);
    }
    let m = styles.len();
    let mut k: usize = 0;
    while k < m
        invariant
            n == tokens@.len(),
            m == styles@.len(),
            m == n,
            n > 0,
            token_batch_ok(tokens@),
            k <= m,
            forall|t: int| 0 <= t < k ==> (#[trigger] styles@[t])@.len() == STYLE_DIM,
        decreases m - k,
    {
        if styles[k].len() != STYLE_DIM {
            return Err(TensorShapeError::WrongStyleWidth);
        }
        k = k + 1;
    }
    Ok(
        InferenceRequest {
            batch: n,
            seq_len,
            tokens: flatten_rows(tokens),
            style: flatten_rows(styles),
            speed_deci: SPEED_DECI,
        },
    )
}

/// The index of the first output with the given name, or -1 when absent.
pub open spec fn spec_find_output(outputs: Seq<NamedTensor>, name: Seq<char>) -> int
    decreases outputs.len(),
{
    if outputs.len() == 0 {
        -1
    } else if outputs[0].name@ == name {
        0
    } else if spec_find_output(outputs.drop_first(), name) == -1 {
        -1
    } else {
        1 + spec_find_output(outputs.drop_first(), name)
    }
}

/// The first match determines the found output.
proof fn lemma_spec_find_output_first(outputs: Seq<NamedTensor>, name: Seq<char>, i: int)
    requires
        0 <= i <= outputs.len(),
        forall|k: int| 0 <= k < i ==> (#[trigger] outputs[k]).name@ != name,
        i < outputs.len() ==> outputs[i].name@ == name,
    ensures
        i < outputs.len() ==> spec_find_output(outputs, name) == i,
        i == outputs.len() ==> spec_find_output(outputs, name) == -1,
    decreases outputs.len(),
{
    if outputs.len() > 0 && i > 0 {
        lemma_spec_find_output_first(outputs.drop_first(), name, i - 1);
    }
}

/// Extracts the output tensor named `audio` from the engine's result; fails
/// with `MissingOutput` exactly when no output carries that name.
pub fn extract_audio(outputs: &Vec<NamedTensor>) -> (r: Result<AudioTensor, InferenceError>)
    ensures
        r is Ok <==> spec_find_output(outputs@, "audio"@) != -1,
        r matches Ok(t) ==> {
            &&& t.shape@ == outputs@[spec_find_output(outputs@, "audio"@)].tensor.shape@
            &&& t.data@ == outputs@[spec_find_output(outputs@, "audio"@)].tensor.data@
        },
        r matches Err(e) ==> e == InferenceError::MissingOutput,
{
    let query = chars_of("audio");
    let n = outputs.len();
    let mut i: usize = 0;
    while i < n
        invariant
            n == outputs@.len(),
            i <= n,
            query@ == "audio"@,
            forall|k: int| 0 <= k < i ==> (#[trigger] outputs@[k]).name@ != "audio"@,
        decreases n - i,
    {
        if string_eq_chars(outputs[i].name.as_str(), &query) {
            proof {
                lemma_spec_find_output_first(outputs@, "audio"@, i as int);
            }
            let found = &outputs[i].tensor;
            return Ok(AudioTensor { shape: copy_row(&found.shape), data: copy_row(&found.data) });
        }
        i = i + 1;
    }
    proof {
        lemma_spec_find_output_first(outputs@, "audio"@, n as int);
    }
    Err(InferenceError::MissingOutput)
}

} // verus!
