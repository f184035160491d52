//! Decoding of frame-by-pitch activation grids into ordered note events.
//!
//! Every real quantity is held in fixed point: activation levels and
//! amplitudes in millionths of full scale, times in sample periods.

pub mod activation;
pub mod detector;
pub mod laws;
pub mod parameters;
pub mod segmenter;
