//! Signal-generation core of a polyphonic software synthesizer.
//!
//! All quantities are modelled with integers so that every formula can be
//! verified exactly: time is counted in sample ticks (one tick per sample at
//! the fixed sample rate) and amplitudes, gains and waveform samples are
//! fixed-point values scaled by [`fixed::ONE`].  The floating-point edges of
//! the synthesizer (the host protocol, the spectral transform, asset
//! decoding) live outside this crate and exchange plain values with it.

pub mod dsp;
pub mod fixed;
pub mod notes;
