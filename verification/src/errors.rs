use vstd::prelude::*;

verus! {

/// The failure kinds of the pipeline. Every failure is detected at the
/// point of violation and is terminal for the run: there is no retry and
/// no partial output.
#[derive(Clone, Copy, Debug, PartialEq, Eq, Structural)]
pub enum PipelineError {
    /// The sample sequence is empty, or pure silence: after DC-offset
    /// removal its peak absolute amplitude is zero, so normalization
    /// would divide by zero.
    DegenerateSignal,
    /// `num_lsb` lies outside `1..=8`, or `output_length` is zero.
    InvalidParameter,
    /// Too few samples to honour `output_length` with a non-zero stride.
    InsufficientSamples,
    /// A statistical test was handed an empty byte sequence.
    EmptyInput,
}

} // verus!
