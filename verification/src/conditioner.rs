use vstd::prelude::*;

use crate::errors::PipelineError;

verus! {

/// A sample sequence is degenerate when it is empty, or when its peak
/// absolute amplitude after DC-offset removal is zero (pure silence or
/// digital zero): normalization would divide by zero and leak NaN or
/// infinity into every downstream byte.
pub open spec fn degenerate_signal(sample_count: int, peak_is_zero: bool) -> bool {
    sample_count == 0 || peak_is_zero
}

/// The conditioner's acceptance rule. The caller removes the DC offset
/// and measures the peak absolute amplitude of the offset-free sequence;
/// this function decides whether normalization may proceed. It must be
/// consulted before any sample is scaled.
pub fn check_conditioned(sample_count: usize, peak_is_zero: bool) -> (r: Result<(), PipelineError>)
    ensures
        degenerate_signal(sample_count as int, peak_is_zero) ==> r == Err::<(), PipelineError>(
            PipelineError::DegenerateSignal,
        ),
        !degenerate_signal(sample_count as int, peak_is_zero) ==> r == Ok::<(), PipelineError>(()),
{
    if sample_count == 0 || peak_is_zero {
        Err(PipelineError::DegenerateSignal)
    } else {
        Ok(())
    }
}

} // verus!
