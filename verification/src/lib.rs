//! Spectral analysis and audio ingestion for a real-time visualizer.
//!
//! The library turns raw PCM samples into perceptually useful, temporally
//! smoothed frequency bands and bass-energy signals, and keeps a synchronized,
//! fixed-size, always-available sliding window of the most recent samples.
//! Samples and magnitudes are fixed-point integers; the scale constants say
//! what stands for 1.0.

pub mod analyzer;
pub mod bands;
pub mod bins;
pub mod math;
pub mod mic;
pub mod queue;
pub mod sliding;
pub mod stream;
pub mod wav;
