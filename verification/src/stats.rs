use vstd::prelude::*;

use crate::errors::PipelineError;
use vstd::arithmetic::div_mod::lemma_fundamental_div_mod_converse;

verus! {

// ----- monobit (frequency) test -----

/// The number of set bits in one byte.
pub open spec fn byte_ones(b: u8) -> int {
    ((b as u32) & 1) + (((b as u32) >> 1) & 1) + (((b as u32) >> 2) & 1) + (((b as u32) >> 3) & 1)
        + (((b as u32) >> 4) & 1) + (((b as u32) >> 5) & 1) + (((b as u32) >> 6) & 1) + (((b as u32)
        >> 7) & 1)
}

/// The number of set bits in the first `k` bytes of `data`.
pub open spec fn ones_prefix(data: Seq<u8>, k: int) -> int
    decreases k,
{
    if k <= 0 {
        0
    } else {
        ones_prefix(data, k - 1) + byte_ones(data[k - 1])
    }
}

/// The total number of set bits in `data`.
pub open spec fn total_ones(data: Seq<u8>) -> int {
    ones_prefix(data, data.len() as int)
}

/// The monobit verdict over `N = 8 * len` bits with `k` set: pass iff
/// the proportion `k / N` lies strictly between 0.45 and 0.55. Stated
/// exactly over the rationals: `9 * N < 20 * k < 11 * N`.
pub open spec fn monobit_verdict(data: Seq<u8>) -> bool {
    let n = 8 * data.len() as int;
    let k = total_ones(data);
    9 * n < 20 * k && 20 * k < 11 * n
}

/// Counts the set bits of one byte.
fn count_byte_ones(b: u8) -> (r: u32)
    ensures
        r as int == byte_ones(b),
        r <= 8,
{
    let w: u32 = b as u32;
    proof {
        assert((w & 1) + ((w >> 1) & 1) + ((w >> 2) & 1) + ((w >> 3) & 1) + ((w >> 4) & 1) + ((w
            >> 5) & 1) + ((w >> 6) & 1) + ((w >> 7) & 1) <= 8) by (bit_vector);
    }
    (w & 1) + ((w >> 1) & 1) + ((w >> 2) & 1) + ((w >> 3) & 1) + ((w >> 4) & 1) + ((w >> 5) & 1) + (
    (w >> 6) & 1) + ((w >> 7) & 1)
}

/// Monobit (frequency) test: counts the set bits of the whole byte
/// sequence and passes iff their proportion lies strictly between 0.45
/// and 0.55 of the total bit count. An empty sequence is rejected
/// rather than divided by.
pub fn monobit_test(data: &Vec<u8>) -> (r: Result<bool, PipelineError>)
    ensures
        data@.len() == 0 ==> r == Err::<bool, PipelineError>(PipelineError::EmptyInput),
        data@.len() > 0 ==> r == Ok::<bool, PipelineError>(monobit_verdict(data@)),
{
    if data.len() == 0 {
        return Err(PipelineError::EmptyInput);
    }
    let mut count: u128 = 0;
    let mut i: usize = 0;
    while i < data.len()
        invariant
            i <= data@.len(),
            data@.len() <= usize::MAX,
            count as int == ones_prefix(data@, i as int),
            count <= 8 * i,
        decreases data@.len() - i,
    {
        let ones = count_byte_ones(data[i]);
        count = count + (ones as u128);
        i += 1;
    }
    let n: u128 = 8 * (data.len() as u128);
    Ok(9 * n < 20 * count && 20 * count < 11 * n)
}

// ----- runs test -----

/// Bit `i` of the byte sequence read as a bitstream, most-significant
/// bit first within each byte.
pub open spec fn bit_of(data: Seq<u8>, i: int) -> bool {
    ((data[i / 8] as u32) >> ((7 - i % 8) as u32)) & 1 == 1
}

/// Whether any two consecutive bits among the first `p` bits differ.
pub open spec fn transition_before(data: Seq<u8>, p: int) -> bool {
    exists|i: int| 1 <= i < p && #[trigger] bit_of(data, i) != bit_of(data, i - 1)
}

/// Whether the bitstream changes value anywhere.
pub open spec fn has_transition(data: Seq<u8>) -> bool {
    transition_before(data, 8 * data.len() as int)
}

/// The first cell of the run-length histogram. The scan increments a
/// transition counter and, while that counter is at most 6, increments
/// the cell at `counter - 1`; cell 0 is therefore touched exactly once,
/// by the first transition, so it holds 1 iff any transition occurs.
pub open spec fn runs_bucket_zero(data: Seq<u8>) -> int {
    if has_transition(data) {
        1
    } else {
        0
    }
}

/// The runs verdict over `N = 8 * len` bits: pass iff
/// `|2 * bucket_zero - N| / (2 * sqrt(N)) < 1.96`. Stated exactly over
/// the rationals by squaring both sides: with `d = N - 2 * bucket_zero`
/// (non-negative, as `N >= 8`), the verdict is `625 * d * d < 9604 * N`,
/// since `1.96^2 * 4 = 9604 / 625`.
pub open spec fn runs_verdict(data: Seq<u8>) -> bool {
    let n = 8 * data.len() as int;
    let d = n - 2 * runs_bucket_zero(data);
    625 * d * d < 9604 * n
}

/// Reads bit `bit_idx` of byte `byte_idx`, most-significant bit first.
fn read_bit(data: &Vec<u8>, byte_idx: usize, bit_idx: usize) -> (r: bool)
    requires
        byte_idx < data@.len(),
        bit_idx < 8,
    ensures
        r == bit_of(data@, 8 * byte_idx + bit_idx),
{
    let b: u8 = data[byte_idx];
    let r = ((b as u32) >> (7 - bit_idx as u32)) & 1 == 1;
    proof {
        let p = 8 * byte_idx + bit_idx;
        lemma_fundamental_div_mod_converse(p as int, 8, byte_idx as int, bit_idx as int);
        assert(p as int / 8 == byte_idx as int);
        assert(p as int % 8 == bit_idx as int);
    }
    r
}

/// On 24 bits or more the runs statistic always reaches the threshold:
/// `d >= N - 2 >= 22`, and `625 * d * d >= 9604 * (d + 2) >= 9604 * N`.
proof fn lemma_runs_fail_on_long_input(data: Seq<u8>)
    requires
        data.len() >= 3,
    ensures
        !runs_verdict(data),
{
    let n = 8 * data.len() as int;
    let b = runs_bucket_zero(data);
    let d = n - 2 * b;
    assert(0 <= b <= 1);
    assert(625 * d * d >= 9604 * n) by (nonlinear_arith)
        requires
            n >= 24,
            d >= n - 2,
            n >= d,
    ;
}

/// Runs test: scans the byte sequence as a bitstream, tracks where the
/// bit value changes, and passes iff the bucket-zero statistic stays
/// under the 1.96 threshold. An empty sequence is rejected rather than
/// indexed.
pub fn runs_test(data: &Vec<u8>) -> (r: Result<bool, PipelineError>)
    ensures
        data@.len() == 0 ==> r == Err::<bool, PipelineError>(PipelineError::EmptyInput),
        data@.len() > 0 ==> r == Ok::<bool, PipelineError>(runs_verdict(data@)),
{
    if data.len() == 0 {
        return Err(PipelineError::EmptyInput);
    }
    let mut prev: bool = read_bit(data, 0, 0);
    let mut found: bool = false;
    let mut j: usize = 0;
    while j < data.len()
        invariant
            data@.len() > 0,
            data@.len() <= usize::MAX,
            j <= data@.len(),
            prev == bit_of(data@, if j == 0 {
                0
            } else {
                8 * j - 1
            }),
            found == transition_before(data@, 8 * j as int),
        decreases data@.len() - j,
    {
        let mut k: usize = 0;
        while k < 8
            invariant
                data@.len() > 0,
                data@.len() <= usize::MAX,
                j < data@.len(),
                k <= 8,
                prev == bit_of(data@, if j == 0 && k == 0 {
                    0
                } else {
                    8 * j + k - 1
                }),
                found == transition_before(data@, 8 * j + k as int),
            decreases 8 - k,
        {
            if j > 0 || k > 0 {
                let cur = read_bit(data, j, k);
                proof {
                    let p = 8 * (j as int) + (k as int);
                    if cur != prev {
                        assert(bit_of(data@, p) != bit_of(data@, p - 1));
                        assert(transition_before(data@, p + 1));
                    } else if found {
                        let i = choose|i: int|
                            1 <= i < p && #[trigger] bit_of(data@, i) != bit_of(data@, i - 1);
                        assert(transition_before(data@, p + 1));
                    } else {
                        assert(!transition_before(data@, p + 1)) by {
                            if transition_before(data@, p + 1) {
                                let i = choose|i: int|
                                    1 <= i < p + 1 && #[trigger] bit_of(data@, i) != bit_of(
                                        data@,
                                        i - 1,
                                    );
                                if i < p {
                                    assert(transition_before(data@, p));
                                }
                            }
                        }
                    }
                }
                if cur != prev {
                    found = true;
                }
                prev = cur;
            }
            k += 1;
        }
        j += 1;
    }
    proof {
        assert(found == has_transition(data@));
    }
    let bucket_zero: u64 = if found {
        1
    } else {
        0
    };
    if data.len() > 2 {
        proof {
            lemma_runs_fail_on_long_input(data@);
        }
        Ok(false)
    } else {
        let n: u64 = 8 * (data.len() as u64);
        let d: u64 = n - 2 * bucket_zero;
        proof {
            assert(625 * d * d <= 160000) by (nonlinear_arith)
                requires
                    d <= 16,
            ;
        }
        Ok(625 * d * d < 9604 * n)
    }
}

} // verus!
