//! A raw-entropy pipeline over ambient noise samples.
//!
//! Amplitude samples enter as IEEE-754 bit patterns of the differences
//! between successive conditioned samples; the library extracts a
//! fixed-length byte buffer from the low-order bits of those differences,
//! renders it as lowercase hex, and runs two bit-level sanity checks
//! (a monobit frequency test and a runs test) over the result.

pub mod conditioner;
pub mod errors;
pub mod extractor;
pub mod hexfmt;
pub mod pipeline;
pub mod stats;
