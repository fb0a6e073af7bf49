//! Frequency-domain brick-wall low-pass filtering.
//!
//! The spectral transform itself runs outside this crate; what is verified
//! here is the spectral stage between the two transforms: normalizing every
//! bin by the block length and zeroing every bin at or above the cutoff.
//! The cutoff is a normalized fraction of the representable band (half the
//! sample rate), so the cutoff bin index is that fraction of the spectrum
//! length.

use vstd::arithmetic::div_mod::{lemma_div_pos_is_pos, lemma_multiply_divide_le};
use vstd::prelude::*;

use crate::fixed::{div_trunc, div_trunc_spec, ONE};

verus! {

/// One spectrum bin: a complex amplitude in fixed-point units.
#[derive(Clone, Copy, PartialEq, Eq, Structural, Debug)]
pub struct Bin {
    pub re: i64,
    pub im: i64,
}

/// The bin index corresponding to the cutoff frequency
/// `norm * sample_rate / 2`: the same normalized fraction applied to the
/// spectrum length.
pub open spec fn cutoff_index_spec(norm: int, spectrum_size: int) -> int {
    norm * spectrum_size / (ONE as int)
}

/// Attenuates a spectrum in place.
pub trait Filter {
    /// The filter's normalized cutoff, a fixed-point fraction of half the
    /// sample rate.
    spec fn cutoff_norm(&self) -> int;

    /// Normalizes every bin of `spectrum` by `buffer_size` (the block
    /// length the spectrum was computed from) and zeroes every bin at or
    /// above the cutoff index.
    fn process(&self, spectrum: &mut Vec<Bin>, buffer_size: usize)
        requires
            0 <= self.cutoff_norm() <= ONE,
            1 <= buffer_size,
            old(spectrum)@.len() <= 0x1_0000_0000,
            forall|i: int|
                0 <= i < old(spectrum)@.len() ==> -0x7FFF_FFFF_FFFF_FFFF <= (#[trigger] old(
                    spectrum,
                )@[i]).re && -0x7FFF_FFFF_FFFF_FFFF <= old(spectrum)@[i].im,
        ensures
            final(spectrum)@.len() == old(spectrum)@.len(),
            forall|i: int|
                0 <= i < old(spectrum)@.len() && i >= cutoff_index_spec(
                    self.cutoff_norm(),
                    old(spectrum)@.len() as int,
                ) ==> final(spectrum)@[i] == (Bin { re: 0, im: 0 }),
            forall|i: int|
                0 <= i < old(spectrum)@.len() && i < cutoff_index_spec(
                    self.cutoff_norm(),
                    old(spectrum)@.len() as int,
                ) ==> (#[trigger] final(spectrum)@[i]).re == div_trunc_spec(
                    old(spectrum)@[i].re as int,
                    buffer_size as int,
                ) && final(spectrum)@[i].im == div_trunc_spec(
                    old(spectrum)@[i].im as int,
                    buffer_size as int,
                ),
    ;
}

/// A brick-wall low-pass filter described by its normalized cutoff.
pub struct SimpleFilter {
    /// Fixed-point fraction of half the sample rate above which bins are
    /// zeroed.
    pub frequency_norm: i64,
    /// Samples per second of the surrounding synthesis.
    pub sample_rate: u32,
}

impl SimpleFilter {
    /// Builds a filter from a normalized cutoff parameter, clamped into
    /// `[0, ONE]`.
    pub fn new(frequency_norm: i64, sample_rate: u32) -> (filter: SimpleFilter)
        ensures
            filter.frequency_norm == if frequency_norm < 0 {
                0i64
            } else if frequency_norm > ONE {
                ONE
            } else {
                frequency_norm
            },
            filter.sample_rate == sample_rate,
            0 <= filter.frequency_norm <= ONE,
    {
        SimpleFilter {
            frequency_norm: if frequency_norm < 0 {
                0
            } else if frequency_norm > 65536 {
                65536
            } else {
                frequency_norm
            },
            sample_rate,
        }
    }

    /// The first bin index the filter silences.
    pub fn cutoff_bucket_index(&self, spectrum_size: usize) -> (idx: usize)
        requires
            0 <= self.frequency_norm <= ONE,
            spectrum_size <= 0x1_0000_0000,
        ensures
            idx == cutoff_index_spec(self.frequency_norm as int, spectrum_size as int),
            idx <= spectrum_size,
    {
        proof {
            let w = self.frequency_norm as int;
            let m = spectrum_size as int;
            assert(w * m <= 65536 * m) by (nonlinear_arith)
                requires 0 <= w <= 65536 && m >= 0;
            lemma_div_pos_is_pos(w * m, 65536);
            lemma_multiply_divide_le(w * m, 65536, m);
        }
        let prod: u64 = (self.frequency_norm as u64) * (spectrum_size as u64);
        (prod / 65536) as usize
    }
}

impl Filter for SimpleFilter {
    open spec fn cutoff_norm(&self) -> int {
        self.frequency_norm as int
    }

    fn process(&self, spectrum: &mut Vec<Bin>, buffer_size: usize) {
        let spectrum_size = spectrum.len();
        let cutoff = self.cutoff_bucket_index(spectrum_size);
        let divisor: u64 = buffer_size as u64;
        let mut i: usize = 0;
        while i < spectrum_size
            invariant
                spectrum_size == spectrum@.len(),
                spectrum@.len() == old(spectrum)@.len(),
                i <= spectrum_size,
                1 <= divisor,
                divisor == buffer_size,
                cutoff == cutoff_index_spec(self.frequency_norm as int, spectrum_size as int),
                forall|p: int|
                    i <= p < spectrum_size ==> spectrum@[p] == old(spectrum)@[p],
                forall|p: int|
                    i <= p < spectrum_size ==> -0x7FFF_FFFF_FFFF_FFFF <= (#[trigger] old(
                        spectrum,
                    )@[p]).re && -0x7FFF_FFFF_FFFF_FFFF <= old(spectrum)@[p].im,
                forall|p: int|
                    0 <= p < i && p >= cutoff as int ==> spectrum@[p] == (Bin { re: 0, im: 0 }),
                forall|p: int|
                    0 <= p < i && p < cutoff as int ==> (#[trigger] spectrum@[p]).re
                        == div_trunc_spec(old(spectrum)@[p].re as int, buffer_size as int)
                        && spectrum@[p].im == div_trunc_spec(
                        old(spectrum)@[p].im as int,
                        buffer_size as int,
                    ),
            decreases spectrum_size - i,
        {
            if i >= cutoff {
                spectrum[i] = Bin { re: 0, im: 0 };
            } else {
                let bin = spectrum[i];
                let scaled = Bin {
                    re: div_trunc(bin.re, divisor),
                    im: div_trunc(bin.im, divisor),
                };
                spectrum[i] = scaled;
            }
            i = i + 1;
        }
    }
}

} // verus!
