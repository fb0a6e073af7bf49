//! Wavetable oscillators.
//!
//! A waveform table holds a fixed family of fixed-length sample arrays,
//! loaded once at startup and immutable afterwards.  A wavetable oscillator
//! reads the table at a position derived from the elapsed time and the
//! note's frequency, and morphs between two adjacent waveforms of the
//! family by linear interpolation.
//!
//! Frequencies are fixed-point numbers scaled by 65536 (so `440 * 65536`
//! stands for 440 Hz); waveform samples and morph fractions are fixed-point
//! values scaled by [`ONE`].

use vstd::arithmetic::div_mod::{
    lemma_div_by_self, lemma_div_of0, lemma_div_pos_is_pos, lemma_fundamental_div_mod,
    lemma_mod_division_less_than_divisor, lemma_multiply_divide_le, lemma_multiply_divide_lt,
};
use vstd::prelude::*;

use crate::fixed::{fx_scale, fx_scale_spec, ONE};
use crate::fixed::{lemma_fx_scale_bounds, lemma_fx_scale_one, lemma_fx_scale_zero};

verus! {

/// Number of samples in every waveform of the table.
pub const WAVE_TABLE_LENGTH: usize = 4096;

/// A source of samples as a function of absolute elapsed time (in ticks),
/// reading an immutable waveform table.
pub trait Oscillator {
    /// Validity of the oscillator's parameters against a table of
    /// `n_waves` waveforms.
    spec fn wf(&self, n_waves: int) -> bool;

    /// The sample yielded at `time` ticks.
    spec fn sample_at(&self, table: WaveTable, time: int) -> int;

    /// Computes the sample exactly; the result stays within `[-ONE, ONE]`.
    fn process(&self, time: u64, table: &WaveTable) -> (sample: i64)
        requires
            table.wf(),
            self.wf(table.waves@.len() as int),
        ensures
            sample == self.sample_at(*table, time as int),
            -ONE <= sample <= ONE,
    ;
}

/// True if `samples` can form a waveform: the fixed length, every value a
/// fixed-point amplitude within `[-ONE, ONE]`.
pub open spec fn valid_wave_samples(samples: Seq<i64>) -> bool {
    &&& samples.len() == WAVE_TABLE_LENGTH
    &&& forall|i: int| 0 <= i < samples.len() ==> -ONE <= #[trigger] samples[i] <= ONE
}

/// One immutable waveform.
pub struct Wave {
    pub samples: Vec<i64>,
}

impl Wave {
    /// The waveform has the fixed length and bounded sample values.
    pub open spec fn wf(self) -> bool {
        valid_wave_samples(self.samples@)
    }

    /// Accepts sample data as a waveform, rejecting data of the wrong
    /// length or with out-of-range values; a rejected asset is a fatal
    /// startup condition for the caller.
    pub fn new(samples: Vec<i64>) -> (wave: Option<Wave>)
        ensures
            wave is Some <==> valid_wave_samples(samples@),
            wave is Some ==> wave->0.samples@ == samples@ && wave->0.wf(),
    {
        if samples.len() != WAVE_TABLE_LENGTH {
            return None;
        }
        let n = samples.len();
        let mut i: usize = 0;
        while i < n
            invariant
                n == samples.len(),
                i <= n,
                forall|k: int| 0 <= k < i ==> -ONE <= #[trigger] samples@[k] <= ONE,
            decreases n - i,
        {
            let v = samples[i];
            if v < -65536 || v > 65536 {
                return None;
            }
            i = i + 1;
        }
        Some(Wave { samples })
    }
}

/// The immutable family of waveforms an oscillator morphs between.
pub struct WaveTable {
    pub waves: Vec<Wave>,
}

impl WaveTable {
    /// At least two waveforms (and no more than the supported maximum),
    /// each well-formed.
    pub open spec fn wf(self) -> bool {
        &&& 2 <= self.waves@.len() <= 65536
        &&& forall|i: int| 0 <= i < self.waves@.len() ==> (#[trigger] self.waves@[i]).wf()
    }

    /// Builds the table from already-validated waveforms; a family of fewer
    /// than two waveforms, or more than the supported maximum, is rejected,
    /// which the caller must treat as fatal at startup.
    pub fn new(waves: Vec<Wave>) -> (table: Option<WaveTable>)
        requires
            forall|i: int| 0 <= i < waves@.len() ==> (#[trigger] waves@[i]).wf(),
        ensures
            table is Some <==> 2 <= waves@.len() <= 65536,
            table is Some ==> table->0.waves@ == waves@ && table->0.wf(),
    {
        if waves.len() < 2 || waves.len() > 65536 {
            None
        } else {
            Some(WaveTable { waves })
        }
    }
}

/// A morph position clamped into the oscillator's valid range `[0, ONE]`.
pub open spec fn clamp_warp(warp: int) -> int {
    if warp < 0 {
        0
    } else if warp > ONE {
        ONE as int
    } else {
        warp
    }
}

/// Which of the `n_waves - 1` equal-width morph segments contains `warp`
/// (already clamped), the last segment taking the top endpoint.
pub open spec fn morph_segment(warp: int, n_waves: int) -> int {
    let seg = warp * (n_waves - 1) / (ONE as int);
    if seg > n_waves - 2 {
        n_waves - 2
    } else {
        seg
    }
}

/// `warp` rescaled to a fixed-point fraction within its segment.
pub open spec fn morph_local(warp: int, n_waves: int) -> int {
    let local = warp * (n_waves - 1) - morph_segment(warp, n_waves) * (ONE as int);
    if local < 0 {
        0
    } else if local > ONE {
        ONE as int
    } else {
        local
    }
}

/// The oscillator [`WaveTableOscillator::new`] builds for a morph
/// position `wave_warp` over a family of `n_waves` waveforms.
pub open spec fn morphed_oscillator(
    frequency: u64,
    sample_rate: u32,
    wave_warp: int,
    n_waves: int,
) -> WaveTableOscillator {
    let w = clamp_warp(wave_warp);
    WaveTableOscillator {
        frequency,
        sample_rate,
        wave_index_a: morph_segment(w, n_waves) as usize,
        wave_index_b: (morph_segment(w, n_waves) + 1) as usize,
        scaled_warp: morph_local(w, n_waves) as i64,
    }
}

/// Reads a waveform family at a table position derived from time and
/// frequency, interpolating between two adjacent waveforms.
pub struct WaveTableOscillator {
    /// Fixed-point frequency: the frequency in Hz times 65536, so 440 Hz
    /// is stored as `440 * 65536`.
    pub frequency: u64,
    /// Samples per second of the surrounding synthesis.
    pub sample_rate: u32,
    /// Index of the lower waveform of the morph pair.
    pub wave_index_a: usize,
    /// Index of the upper waveform of the morph pair.
    pub wave_index_b: usize,
    /// Fixed-point interpolation fraction between the pair.
    pub scaled_warp: i64,
}

impl WaveTableOscillator {
    /// Picks the morph pair and local fraction for `wave_warp`, which is
    /// clamped into `[0, ONE]` and then partitioned over the `n_waves - 1`
    /// adjacent waveform pairs.
    pub fn new(frequency: u64, sample_rate: u32, wave_warp: i64, n_waves: usize) -> (osc:
        WaveTableOscillator)
        requires
            1 <= frequency <= 0x10_0000_0000,
            1 <= sample_rate,
            2 <= n_waves <= 0x1_0000_0000,
        ensures
            osc.frequency == frequency,
            osc.sample_rate == sample_rate,
            osc.wave_index_a == morph_segment(clamp_warp(wave_warp as int), n_waves as int),
            osc.wave_index_b == osc.wave_index_a + 1,
            osc.scaled_warp == morph_local(clamp_warp(wave_warp as int), n_waves as int),
            osc == morphed_oscillator(frequency, sample_rate, wave_warp as int, n_waves as int),
            osc.wf(n_waves as int),
    {
        let warp: i64 = if wave_warp < 0 {
            0
        } else if wave_warp > 65536 {
            65536
        } else {
            wave_warp
        };
        let nm1: u64 = (n_waves as u64) - 1;
        proof {
            let w = warp as int;
            let m = nm1 as int;
            assert(w * m <= 65536 * m) by (nonlinear_arith)
                requires 0 <= w <= 65536 && m >= 0;
            lemma_div_pos_is_pos(w * m, 65536);
            lemma_multiply_divide_le(w * m, 65536, m);
            lemma_fundamental_div_mod(w * m, 65536);
            lemma_mod_division_less_than_divisor(w * m, 65536);
        }
        let prod: u64 = (warp as u64) * nm1;
        let floor_seg: u64 = prod / 65536;
        let seg: u64 = if floor_seg > nm1 - 1 {
            nm1 - 1
        } else {
            floor_seg
        };
        let local_raw: u64 = prod - seg * 65536;
        let local: i64 = if local_raw > 65536 {
            65536
        } else {
            local_raw as i64
        };
        WaveTableOscillator {
            frequency,
            sample_rate,
            wave_index_a: seg as usize,
            wave_index_b: (seg as usize) + 1,
            scaled_warp: local,
        }
    }

    /// The table position read at `time`: the phase within the current
    /// cycle, rescaled to table length and clamped defensively to the last
    /// valid position.
    pub open spec fn table_index_at(self, time: int) -> int {
        let sr16 = (self.sample_rate as int) * (ONE as int);
        let phase = (time * (self.frequency as int)) % sr16;
        let idx = phase * (WAVE_TABLE_LENGTH as int) / sr16;
        if idx > WAVE_TABLE_LENGTH - 1 {
            WAVE_TABLE_LENGTH - 1
        } else {
            idx
        }
    }
}

impl Oscillator for WaveTableOscillator {
    /// Frequency and sample rate are positive (with the frequency small
    /// enough for exact arithmetic), the morph pair is adjacent and within
    /// the table, and the morph fraction lies in `[0, ONE]`.
    open spec fn wf(&self, n_waves: int) -> bool {
        &&& 1 <= self.frequency <= 0x10_0000_0000
        &&& 1 <= self.sample_rate
        &&& self.wave_index_b == self.wave_index_a + 1
        &&& self.wave_index_b < n_waves
        &&& 0 <= self.scaled_warp <= ONE
    }

    /// Linear interpolation between the two adjacent waveforms of the
    /// morph pair, both read at the same table position.
    open spec fn sample_at(&self, table: WaveTable, time: int) -> int {
        let idx = self.table_index_at(time);
        let sample_a = table.waves@[self.wave_index_a as int].samples@[idx];
        let sample_b = table.waves@[self.wave_index_b as int].samples@[idx];
        sample_a + fx_scale_spec(sample_b - sample_a, self.scaled_warp as int)
    }

    fn process(&self, time: u64, table: &WaveTable) -> (sample: i64) {
        let sr16: u64 = (self.sample_rate as u64) * 65536;
        proof {
            let t = time as int;
            let f = self.frequency as int;
            assert(t * f <= 0xFFFF_FFFF_FFFF_FFFF * 0x10_0000_0000) by (nonlinear_arith)
                requires 0 <= t <= 0xFFFF_FFFF_FFFF_FFFF && 0 <= f <= 0x10_0000_0000;
            lemma_mod_division_less_than_divisor(t * f, sr16 as int);
            lemma_div_pos_is_pos(t * f, sr16 as int);
        }
        let phase: u128 = ((time as u128) * (self.frequency as u128)) % (sr16 as u128);
        proof {
            let ph = phase as int;
            let s = sr16 as int;
            assert(ph * 4096 < s * 4096) by (nonlinear_arith)
                requires ph < s;
            lemma_div_pos_is_pos(ph * 4096, s);
            lemma_multiply_divide_lt(ph * 4096, s, 4096);
        }
        let idx128: u128 = phase * 4096 / (sr16 as u128);
        let mut idx: usize = idx128 as usize;
        if idx > WAVE_TABLE_LENGTH - 1 {
            idx = WAVE_TABLE_LENGTH - 1;
        }
        let sample_a: i64 = table.waves[self.wave_index_a].samples[idx];
        let sample_b: i64 = table.waves[self.wave_index_b].samples[idx];
        proof {
            lemma_fx_scale_bounds(sample_b as int - sample_a as int, self.scaled_warp as int);
        }
        sample_a + fx_scale(sample_b - sample_a, self.scaled_warp)
    }
}

/// At the bottom of a segment the oscillator reproduces the lower waveform
/// of its morph pair exactly, at every table position; at the top, the
/// upper waveform exactly.
pub proof fn lemma_morph_endpoints(osc: WaveTableOscillator, table: WaveTable, time: int)
    requires
        table.wf(),
        osc.wf(table.waves@.len() as int),
    ensures
        osc.scaled_warp == 0 ==> osc.sample_at(table, time) == table.waves@[
            osc.wave_index_a as int].samples@[osc.table_index_at(time)],
        osc.scaled_warp == ONE ==> osc.sample_at(table, time) == table.waves@[
            osc.wave_index_b as int].samples@[osc.table_index_at(time)],
{
    let idx = osc.table_index_at(time);
    let sample_a = table.waves@[osc.wave_index_a as int].samples@[idx];
    let sample_b = table.waves@[osc.wave_index_b as int].samples@[idx];
    lemma_fx_scale_zero(sample_b - sample_a);
    lemma_fx_scale_one(sample_b - sample_a);
}

/// With exactly two waveforms, an oscillator built at the bottom of the
/// morph range reproduces waveform 0 exactly at every table position, and
/// one built at the top reproduces waveform 1 exactly.
pub proof fn lemma_two_wave_morph_reproduces(
    frequency: u64,
    sample_rate: u32,
    table: WaveTable,
    time: int,
)
    requires
        table.wf(),
        table.waves@.len() == 2,
        1 <= frequency <= 0x10_0000_0000,
        1 <= sample_rate,
    ensures
        ({
            let osc = morphed_oscillator(frequency, sample_rate, 0, 2);
            osc.sample_at(table, time) == table.waves@[0].samples@[osc.table_index_at(time)]
        }),
        ({
            let osc = morphed_oscillator(frequency, sample_rate, ONE as int, 2);
            osc.sample_at(table, time) == table.waves@[1].samples@[osc.table_index_at(time)]
        }),
{
    lemma_div_of0(65536);
    lemma_div_by_self(65536);
    let bottom = morphed_oscillator(frequency, sample_rate, 0, 2);
    assert(bottom.wave_index_a == 0 && bottom.scaled_warp == 0);
    lemma_morph_endpoints(bottom, table, time);
    let top = morphed_oscillator(frequency, sample_rate, ONE as int, 2);
    assert(top.wave_index_b == 1 && top.scaled_warp == ONE);
    lemma_morph_endpoints(top, table, time);
}

} // verus!
