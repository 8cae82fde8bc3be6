use vstd::prelude::*;

use crate::errors::PipelineError;
use crate::extractor::{extract_random_data, extraction_bytes, valid_extraction_params};
use crate::hexfmt::{hex_render, render_hex};
use crate::stats::{monobit_test, monobit_verdict, runs_test, runs_verdict};

verus! {

/// The outcome of one pipeline run: the extracted bytes, their
/// lowercase hex rendering (as ASCII bytes), and the two statistical
/// verdicts computed over the extracted bytes.
pub struct PipelineReport {
    pub random_data: Vec<u8>,
    pub hex: Vec<u8>,
    pub monobit_pass: bool,
    pub runs_pass: bool,
}

/// Runs the computational pipeline over a conditioned sample sequence,
/// handed in as the IEEE-754 bit patterns of its successive sample
/// differences: extraction, hex rendering, then both statistical tests
/// over the extracted bytes. Any step's failure aborts the run with
/// that step's error and no partial output.
pub fn run_pipeline(diffs: &Vec<u32>, num_lsb: u32, output_length: usize) -> (r: Result<
    PipelineReport,
    PipelineError,
>)
    ensures
        (num_lsb < 1 || num_lsb > 8 || output_length == 0) ==> (r matches Err(e) && e
            == PipelineError::InvalidParameter),
        (1 <= num_lsb <= 8 && 1 <= output_length && diffs@.len() < output_length) ==> (r matches Err(
            e,
        ) && e == PipelineError::InsufficientSamples),
        valid_extraction_params(diffs@.len() as int, num_lsb, output_length as int) ==> {
            &&& r matches Ok(rep)
            &&& rep.random_data@ == extraction_bytes(diffs@, num_lsb, output_length as int)
            &&& rep.hex@ == hex_render(rep.random_data@)
            &&& rep.monobit_pass == monobit_verdict(rep.random_data@)
            &&& rep.runs_pass == runs_verdict(rep.random_data@)
        },
{
    let random_data = match extract_random_data(diffs, num_lsb, output_length) {
        Ok(bytes) => bytes,
        Err(e) => { return Err(e) },
    };
    let hex = render_hex(&random_data);
    let monobit_pass = match monobit_test(&random_data) {
        Ok(v) => v,
        Err(e) => { return Err(e) },
    };
    let runs_pass = match runs_test(&random_data) {
        Ok(v) => v,
        Err(e) => { return Err(e) },
    };
    Ok(PipelineReport { random_data, hex, monobit_pass, runs_pass })
}

} // verus!
