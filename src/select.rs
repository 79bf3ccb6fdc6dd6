//! Turning a forward pass's scores into the next token.
use vstd::prelude::*;

verus! {

/// `i` holds a maximal score of `scores`, and no earlier index does.
pub open spec fn is_first_max(scores: Seq<u32>, i: int) -> bool {
    &&& 0 <= i < scores.len()
    &&& forall|j: int| 0 <= j < scores.len() ==> scores[j] <= scores[i]
    &&& forall|j: int| 0 <= j < i ==> scores[j] < scores[i]
}

/// Greedy choice is deterministic: a score vector has exactly one index that
/// holds a maximal score with no earlier index holding one, so ties always go to
/// the lowest index.
pub proof fn lemma_first_max_unique(scores: Seq<u32>, i: int, j: int)
    requires
        is_first_max(scores, i),
        is_first_max(scores, j),
    ensures
        i == j,
{
    if i < j {
        assert(scores[i] < scores[j]);
    } else if j < i {
        assert(scores[j] < scores[i]);
    }
}

/// Index of the highest score; among equal highest scores the lowest index wins.
pub fn argmax(scores: &[u32]) -> (r: usize)
    requires
        scores@.len() > 0,
    ensures
        is_first_max(scores@, r as int),
{
    let mut best: usize = 0;
    let mut i: usize = 1;
    while i < scores.len()
        invariant
            1 <= i <= scores@.len(),
            best < i,
            forall|j: int| 0 <= j < i ==> scores@[j] <= scores@[best as int],
            forall|j: int| 0 <= j < best ==> scores@[j] < scores@[best as int],
        decreases scores@.len() - i,
    {
        if scores[i] > scores[best] {
            best = i;
        }
        i = i + 1;
    }
    best
}

/// Order key of a score given by its IEEE-754 single-precision bit pattern.
///
/// For scores that are not NaN, `a < b` exactly when the key of `a` is below the
/// key of `b`, and `a == b` exactly when the keys are equal: negative zero takes
/// the key of positive zero, negative scores take the keys below it in reverse
/// order of their bits, and positive scores the keys above it in order.
pub open spec fn key_of_bits(bits: u32) -> u32 {
    if bits == 0x8000_0000 {
        0x8000_0000
    } else if bits > 0x8000_0000 {
        (0xFFFF_FFFF - bits) as u32
    } else {
        (bits + 0x8000_0000) as u32
    }
}

/// The value a bit pattern stands for in sign-and-magnitude form: the low 31
/// bits as a magnitude, negated when the sign bit is set. For patterns that
/// are not NaN, IEEE-754 orders scores as these integers are ordered, and
/// both zeros stand for zero.
pub open spec fn signed_magnitude(bits: u32) -> int {
    if bits >= 0x8000_0000 {
        -(bits - 0x8000_0000)
    } else {
        bits as int
    }
}

/// The bit pattern is a NaN: every exponent bit set and a non-zero fraction.
pub open spec fn is_nan_bits(bits: u32) -> bool {
    bits % 0x8000_0000 > 0x7F80_0000
}

/// Order keys follow the order of scores: one key is below another exactly
/// when its score is below the other's in sign-and-magnitude order, and two
/// keys are equal exactly when the scores are equal, so negative zero ties
/// with positive zero and every negative score falls below every positive one.
pub proof fn lemma_key_order(a: u32, b: u32)
    ensures
        key_of_bits(a) < key_of_bits(b) <==> signed_magnitude(a) < signed_magnitude(b),
        key_of_bits(a) == key_of_bits(b) <==> signed_magnitude(a) == signed_magnitude(b),
        signed_magnitude(a) < 0 && signed_magnitude(b) > 0 ==> key_of_bits(a) < key_of_bits(b),
{
}

/// Whether any score in `span` of a flat buffer of bit patterns is a NaN.
pub fn has_nan(bits: &[u32], span: Span) -> (r: bool)
    requires
        span.start + span.len <= bits@.len(),
    ensures
        r == exists|i: int| span.start <= i < span.start + span.len && is_nan_bits(#[trigger] bits@[i]),
{
    let n = bits.len();
    let mut i: usize = 0;
    while i < span.len
        invariant
            n == bits@.len(),
            span.start + span.len <= bits@.len(),
            i <= span.len,
            forall|k: int| span.start <= k < span.start + i ==> !is_nan_bits(#[trigger] bits@[k]),
        decreases span.len - i,
    {
        if bits[span.start + i] % 0x8000_0000 > 0x7F80_0000 {
            return true;
        }
        i = i + 1;
    }
    false
}

/// Maps a score's bit pattern to an integer with the same order (see `key_of_bits`).
pub fn score_key(bits: u32) -> (r: u32)
    ensures
        r == key_of_bits(bits),
{
    if bits == 0x8000_0000 {
        0x8000_0000
    } else if bits > 0x8000_0000 {
        0xFFFF_FFFF - bits
    } else {
        bits + 0x8000_0000
    }
}

/// Order keys of a run of score bit patterns.
pub open spec fn keys_of(bits: Seq<u32>) -> Seq<u32> {
    bits.map_values(|b: u32| key_of_bits(b))
}

/// Order keys of the scores that `span` marks in a flat buffer of bit patterns.
pub fn score_keys(bits: &[u32], span: Span) -> (r: Vec<u32>)
    requires
        span.start + span.len <= bits@.len(),
    ensures
        r@ == keys_of(bits@.subrange(span.start as int, span.start + span.len)),
{
    let n = bits.len();
    let mut r: Vec<u32> = Vec::with_capacity(span.len);
    let mut i: usize = 0;
    while i < span.len
        invariant
            n == bits@.len(),
            span.start + span.len <= bits@.len(),
            i <= span.len,
            r@ == keys_of(bits@.subrange(span.start as int, span.start + i)),
        decreases span.len - i,
    {
        r.push(score_key(bits[span.start + i]));
        proof {
            assert(bits@.subrange(span.start as int, span.start + i + 1) =~= bits@.subrange(
                span.start as int,
                span.start + i,
            ).push(bits@[span.start + i]));
            assert(r@ =~= keys_of(bits@.subrange(span.start as int, span.start + i + 1)));
        }
        i = i + 1;
    }
    r
}

/// A contiguous run of a flat output buffer: `len` entries from `start`.
#[derive(Clone, Copy, Debug, PartialEq, Eq)]
pub struct Span {
    pub start: usize,
    pub len: usize,
}

/// Why a forward pass's output could not be read as a score vector.
#[derive(Clone, Copy, Debug, PartialEq, Eq)]
pub enum ShapeError {
    /// Not of the form `[vocab]`, `[sequence, vocab]` or either with a leading
    /// batch dimension of size one, or a dimension is zero.
    Unsupported,
    /// The buffer does not hold exactly as many entries as the shape says.
    LengthMismatch,
}

/// The shape with a leading batch dimension of size one removed.
pub open spec fn squeeze_batch(dims: Seq<usize>) -> Seq<usize> {
    if dims.len() >= 2 && dims[0] == 1 {
        dims.drop_first()
    } else {
        dims
    }
}

/// The shape is one that `last_position` reads: after squeezing, a vocabulary
/// vector or a sequence of them, with no dimension of size zero.
pub open spec fn supported_shape(dims: Seq<usize>) -> bool {
    let d = squeeze_batch(dims);
    (d.len() == 1 && d[0] > 0) || (d.len() == 2 && d[0] > 0 && d[1] > 0)
}

/// Number of entries that a buffer of a supported shape holds.
pub open spec fn shape_size(dims: Seq<usize>) -> int {
    let d = squeeze_batch(dims);
    if d.len() == 1 {
        d[0] as int
    } else {
        d[0] * d[1]
    }
}

/// Where the scores for the final sequence position lie in a buffer of a
/// supported shape.
pub open spec fn last_position_span(dims: Seq<usize>) -> Span {
    let d = squeeze_batch(dims);
    if d.len() == 1 {
        Span { start: 0, len: d[0] }
    } else {
        Span { start: ((d[0] - 1) * d[1]) as usize, len: d[1] }
    }
}

/// Reduces a forward pass's output of shape `dims`, stored flat in `total`
/// entries, to the scores for the next token: a leading batch dimension of
/// size one is dropped, and where a sequence dimension remains, the final
/// position is taken.
pub fn last_position(dims: &[usize], total: usize) -> (r: Result<Span, ShapeError>)
    ensures
        !supported_shape(dims@) ==> r == Err::<Span, ShapeError>(ShapeError::Unsupported),
        supported_shape(dims@) && shape_size(dims@) != total ==> r == Err::<Span, ShapeError>(
            ShapeError::LengthMismatch,
        ),
        supported_shape(dims@) && shape_size(dims@) == total ==> r == Ok::<Span, ShapeError>(
            last_position_span(dims@),
        ),
        r is Ok ==> r->Ok_0.len > 0 && r->Ok_0.start + r->Ok_0.len == total,
{
    let skip: usize = if dims.len() >= 2 && dims[0] == 1 { 1 } else { 0 };
    let rank = dims.len() - skip;
    proof {
        assert(squeeze_batch(dims@) =~= dims@.subrange(skip as int, dims@.len() as int));
    }
    if rank == 1 {
        let vocab = dims[skip];
        if vocab == 0 {
            Err(ShapeError::Unsupported)
        } else if vocab != total {
            Err(ShapeError::LengthMismatch)
        } else {
            Ok(Span { start: 0, len: vocab })
        }
    } else if rank == 2 {
        let rows = dims[skip];
        let vocab = dims[skip + 1];
        if rows == 0 || vocab == 0 {
            Err(ShapeError::Unsupported)
        } else {
            match rows.checked_mul(vocab) {
                None => Err(ShapeError::LengthMismatch),
                Some(size) => {
                    if size != total {
                        Err(ShapeError::LengthMismatch)
                    } else {
                        proof {
                            assert((rows - 1) * vocab + vocab == rows * vocab) by (nonlinear_arith);
                        }
                        Ok(Span { start: (rows - 1) * vocab, len: vocab })
                    }
                }
            }
        }
    } else {
        Err(ShapeError::Unsupported)
    }
}

} // verus!
