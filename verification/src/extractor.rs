use vstd::prelude::*;

use crate::errors::PipelineError;
use vstd::arithmetic::div_mod::{lemma_fundamental_div_mod, lemma_mod_bound};

verus! {

/// The mask that keeps the low `num_lsb` bits of a difference's raw
/// IEEE-754 bit pattern. Only the noise-dominated low mantissa bits
/// survive; the more predictable sign and exponent structure is dropped.
pub open spec fn lsb_mask(num_lsb: u32) -> u32 {
    ((1u32 << num_lsb) - 1) as u32
}

/// One more than the largest value an extracted byte can take: an
/// output byte always lies strictly below `1 << num_lsb`.
pub open spec fn lsb_bound(num_lsb: u32) -> u32 {
    1u32 << num_lsb
}

/// The extractor walks the differences with this step: integer (floor)
/// division of the number of available differences by the requested
/// output length.
pub open spec fn stride_of(diff_count: int, output_length: int) -> int {
    diff_count / output_length
}

/// Parameters are valid when the bit window fits in one byte, at least
/// one byte is requested, and enough differences exist for a non-zero
/// stride.
pub open spec fn valid_extraction_params(diff_count: int, num_lsb: u32, output_length: int) -> bool {
    &&& 1 <= num_lsb <= 8
    &&& 1 <= output_length
    &&& output_length <= diff_count
}

/// Output byte `j` of the stride walk: the low `num_lsb` bits of the
/// difference at index `j * stride`, truncated to one byte (the mask
/// keeps at most 8 bits, so nothing is lost).
pub open spec fn extracted_byte(diffs: Seq<u32>, num_lsb: u32, output_length: int, j: int) -> u8 {
    (diffs[j * stride_of(diffs.len() as int, output_length)] & lsb_mask(num_lsb)) as u8
}

/// The whole extracted sequence: exactly `output_length` bytes, byte `j`
/// drawn from the difference at index `j * stride`.
pub open spec fn extraction_bytes(diffs: Seq<u32>, num_lsb: u32, output_length: int) -> Seq<u8> {
    Seq::new(output_length as nat, |j: int| extracted_byte(diffs, num_lsb, output_length, j))
}

/// Every index the stride walk visits stays inside the difference
/// sequence, so a valid request always yields a full-length output.
proof fn lemma_walk_in_range(diff_count: int, output_length: int, j: int)
    requires
        1 <= output_length <= diff_count,
        0 <= j < output_length,
    ensures
        0 <= j * stride_of(diff_count, output_length),
        j * stride_of(diff_count, output_length) < diff_count,
        1 <= stride_of(diff_count, output_length),
{
    let s = diff_count / output_length;
    lemma_fundamental_div_mod(diff_count, output_length);
    lemma_mod_bound(diff_count, output_length);
    assert(output_length * s <= diff_count);
    assert(1 <= s) by (nonlinear_arith)
        requires
            output_length * s + diff_count % output_length == diff_count,
            0 <= diff_count % output_length < output_length,
            1 <= output_length <= diff_count,
    ;
    assert(0 <= j * s && j * s < diff_count) by (nonlinear_arith)
        requires
            1 <= s,
            0 <= j < output_length,
            output_length * s <= diff_count,
    ;
}

/// Extraction never sets a bit at or above position `num_lsb`: each
/// output byte is bounded by `1 << num_lsb`.
pub proof fn lemma_extraction_masked(diffs: Seq<u32>, num_lsb: u32, output_length: int, j: int)
    requires
        valid_extraction_params(diffs.len() as int, num_lsb, output_length),
        0 <= j < output_length,
    ensures
        (extraction_bytes(diffs, num_lsb, output_length)[j] as u32) < lsb_bound(num_lsb),
{
    let idx = j * stride_of(diffs.len() as int, output_length);
    lemma_walk_in_range(diffs.len() as int, output_length, j);
    let word = diffs[idx];
    assert((1u32 << num_lsb) > ((word & (((1u32 << num_lsb) - 1) as u32)) as u8) as u32) by (bit_vector)
        requires
            1 <= num_lsb <= 8,
    ;
}

/// Extraction is a pure function: equal difference sequences and equal
/// parameters always yield the same byte sequence.
pub proof fn lemma_extraction_deterministic(
    diffs1: Seq<u32>,
    diffs2: Seq<u32>,
    num_lsb: u32,
    output_length: int,
)
    requires
        diffs1 == diffs2,
    ensures
        extraction_bytes(diffs1, num_lsb, output_length) == extraction_bytes(
            diffs2,
            num_lsb,
            output_length,
        ),
{
}

/// Derives `output_length` bytes from the given sample differences.
///
/// `diffs[k]` must hold the IEEE-754 bit pattern of the difference
/// between conditioned samples `k + 1` and `k`. Starting at the first
/// difference the walk advances by `stride = diffs.len() / output_length`
/// and keeps the low `num_lsb` bits of each visited pattern, one output
/// byte per step.
///
/// Success is owed exactly on valid parameters; each rejected input is
/// mapped to the one error its kind names, and no partial output is ever
/// returned.
pub fn extract_random_data(diffs: &Vec<u32>, num_lsb: u32, output_length: usize) -> (r: Result<
    Vec<u8>,
    PipelineError,
>)
    ensures
        (num_lsb < 1 || num_lsb > 8 || output_length == 0) ==> r == Err::<Vec<u8>, PipelineError>(
            PipelineError::InvalidParameter,
        ),
        (1 <= num_lsb <= 8 && 1 <= output_length && diffs@.len() < output_length) ==> r == Err::<
            Vec<u8>,
            PipelineError,
        >(PipelineError::InsufficientSamples),
        valid_extraction_params(diffs@.len() as int, num_lsb, output_length as int) ==> {
            &&& r matches Ok(bytes)
            &&& bytes@ == extraction_bytes(diffs@, num_lsb, output_length as int)
            &&& bytes@.len() == output_length
            &&& forall|j: int|
                0 <= j < output_length ==> (bytes@[j] as u32) < lsb_bound(num_lsb)
        },
{
    if num_lsb < 1 || num_lsb > 8 || output_length == 0 {
        return Err(PipelineError::InvalidParameter);
    }
    if diffs.len() < output_length {
        return Err(PipelineError::InsufficientSamples);
    }
    let stride: usize = diffs.len() / output_length;
    proof {
        assert(1u32 << num_lsb >= 1) by (bit_vector)
            requires
                num_lsb <= 8,
        ;
    }
    let mask: u32 = (1u32 << num_lsb) - 1;
    let mut out: Vec<u8> = Vec::new();
    let mut j: usize = 0;
    while j < output_length
        invariant
            1 <= num_lsb <= 8,
            1 <= output_length <= diffs@.len(),
            diffs@.len() <= usize::MAX,
            stride == stride_of(diffs@.len() as int, output_length as int),
            mask == lsb_mask(num_lsb),
            j <= output_length,
            out@.len() == j,
            forall|k: int|
                0 <= k < j ==> out@[k] == extracted_byte(
                    diffs@,
                    num_lsb,
                    output_length as int,
                    k,
                ),
        decreases output_length - j,
    {
        proof {
            lemma_walk_in_range(diffs@.len() as int, output_length as int, j as int);
        }
        let idx: usize = j * stride;
        let word: u32 = diffs[idx];
        proof {
            assert(word & (((1u32 << num_lsb) - 1) as u32) <= 0xFF) by (bit_vector)
                requires
                    num_lsb <= 8,
            ;
        }
        let byte: u8 = (word & mask) as u8;
        out.push(byte);
        j += 1;
    }
    proof {
        assert(out@ =~= extraction_bytes(diffs@, num_lsb, output_length as int));
        assert forall|k: int| 0 <= k < output_length implies (out@[k] as u32) < lsb_bound(
            num_lsb,
        ) by {
            lemma_extraction_masked(diffs@, num_lsb, output_length as int, k);
        }
    }
    Ok(out)
}

} // verus!
