//! Core of a microtonal, polyphonic software synthesizer.
//!
//! The crate is organised around a fixed-point numeric model: audio samples
//! and low-frequency control values are `Fx` values (signed 64-bit, 32
//! fractional bits), while pitches and frequency ratios live in a logarithmic
//! representation (signed 64-bit, 2^-52 octaves).  `f64` values cross the
//! boundary only as IEEE-754 bit patterns, decoded and encoded by verified
//! integer code.

pub mod assets;
pub mod buffer;
pub mod control;
pub mod creator;
pub mod envelope;
pub mod filter;
pub mod float_bits;
pub mod functions;
pub mod fx;
pub mod kernel;
pub mod math;
pub mod midi;
pub mod options;
pub mod oscillator;
pub mod parse;
pub mod piano;
pub mod pitch;
pub mod scala;
pub mod signal;
pub mod source;
pub mod synth;
pub mod text;
pub mod waveform;
pub mod waveguide;
