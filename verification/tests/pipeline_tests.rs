use noise_entropy::conditioner::check_conditioned;
use noise_entropy::errors::PipelineError;
use noise_entropy::hexfmt::render_hex;
use noise_entropy::pipeline::run_pipeline;
use noise_entropy::stats::{monobit_test, runs_test};

#[test]
fn hex_renders_lowercase_pairs() {
    let data: Vec<u8> = vec![0x0f, 0xa0, 0x5b];
    assert_eq!(render_hex(&data), b"0fa05b".to_vec());
}

#[test]
fn hex_of_empty_is_empty() {
    let data: Vec<u8> = vec![];
    assert_eq!(render_hex(&data), Vec::<u8>::new());
}

#[test]
fn conditioner_rejects_empty() {
    assert_eq!(check_conditioned(0, false), Err(PipelineError::DegenerateSignal));
}

#[test]
fn conditioner_rejects_silence() {
    // An all-zero or all-equal capture leaves a zero peak after offset
    // removal and must be refused before any sample is scaled.
    assert_eq!(check_conditioned(5, true), Err(PipelineError::DegenerateSignal));
    assert_eq!(check_conditioned(5, false), Ok(()));
}

#[test]
fn pipeline_reports_extractor_error() {
    let diffs: Vec<u32> = vec![1, 2, 3];
    assert!(matches!(run_pipeline(&diffs, 8, 4), Err(PipelineError::InsufficientSamples)));
    assert!(matches!(run_pipeline(&diffs, 12, 2), Err(PipelineError::InvalidParameter)));
}

#[test]
fn pipeline_verdicts_match_direct_tests() {
    let diffs: Vec<u32> = (0..40u32).map(|i| i.wrapping_mul(0x2545f491).rotate_left(11)).collect();
    let report = run_pipeline(&diffs, 8, 8).unwrap();
    assert_eq!(report.random_data.len(), 8);
    assert_eq!(report.hex, render_hex(&report.random_data));
    assert_eq!(Ok(report.monobit_pass), monobit_test(&report.random_data));
    assert_eq!(Ok(report.runs_pass), runs_test(&report.random_data));
}

/// Mirrors the conditioning the capture front end performs: DC-offset
/// removal, then normalization of the peak to 1.0, with the library's
/// `check_conditioned` deciding whether the capture is degenerate.
fn condition(samples: &mut Vec<f32>) -> Result<(), PipelineError> {
    check_conditioned(samples.len(), false)?;
    let mut sum = 0.0f32;
    for &x in samples.iter() {
        sum += x;
    }
    let mean = sum / samples.len() as f32;
    for x in samples.iter_mut() {
        *x -= mean;
    }
    let mut max_abs = 0.0f32;
    for &x in samples.iter() {
        let a = x.abs();
        if a > max_abs {
            max_abs = a;
        }
    }
    check_conditioned(samples.len(), max_abs == 0.0)?;
    let factor = 1.0f32 / max_abs;
    for x in samples.iter_mut() {
        *x *= factor;
    }
    Ok(())
}

#[test]
fn conditioning_rejects_all_zero_capture() {
    let mut samples = vec![0.0f32; 100];
    assert_eq!(condition(&mut samples), Err(PipelineError::DegenerateSignal));
}

#[test]
fn conditioning_rejects_all_equal_capture() {
    // 0.5 sums and averages exactly in 32-bit floats, so offset removal
    // leaves a residue of exactly zero in every slot.
    let mut samples = vec![0.5f32; 100];
    assert_eq!(condition(&mut samples), Err(PipelineError::DegenerateSignal));
}

fn difference_bits(samples: &[f32]) -> Vec<u32> {
    let mut diffs = Vec::new();
    for i in 1..samples.len() {
        diffs.push((samples[i] - samples[i - 1]).to_bits());
    }
    diffs
}

#[test]
fn pipeline_end_to_end_regression() {
    // 100 samples from a fixed linear congruential generator, offset so
    // the raw mean is known to be non-zero.
    let mut seed: u64 = 42;
    let mut samples: Vec<f32> = Vec::new();
    for _ in 0..100 {
        seed = seed.wrapping_mul(6364136223846793005).wrapping_add(1442695040888963407);
        let u = (seed >> 33) as f32;
        samples.push(u / (1u64 << 31) as f32 + 0.1f32);
    }
    assert_eq!(condition(&mut samples), Ok(()));
    // The conditioned sequence has mean near zero and peak magnitude at
    // the target of 1.0, within floating-point tolerance.
    let mean: f32 = samples.iter().sum::<f32>() / samples.len() as f32;
    assert!(mean.abs() < 1e-5);
    let max_abs = samples.iter().fold(0.0f32, |m, x| m.max(x.abs()));
    assert!((max_abs - 1.0).abs() < 1e-6);
    let diffs = difference_bits(&samples);
    let report = run_pipeline(&diffs, 8, 5).unwrap();
    assert_eq!(report.random_data.len(), 5);
    assert_eq!(report.hex, b"fc30804eea".to_vec());
}
