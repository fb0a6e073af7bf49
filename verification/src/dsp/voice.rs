//! A synth voice: one note bound to an oscillator and envelopes for the
//! duration of one block.
//!
//! A voice is ephemeral: it is created per block per active note from the
//! note and a parameter snapshot, and owns no state beyond producing one
//! buffer.

use vstd::arithmetic::div_mod::{
    lemma_div_by_self, lemma_div_is_ordered, lemma_div_nonincreasing, lemma_div_pos_is_pos,
};
use vstd::prelude::*;

use crate::dsp::envelope::{clamped_adsr, Envelope, ADSR};
use crate::dsp::oscillator::{morphed_oscillator, Oscillator, WaveTable, WaveTableOscillator};
use crate::dsp::SynthParams;
use crate::fixed::{fx_scale, fx_scale_spec, ONE};
use crate::notes::Note;

verus! {

/// The fixed-point semitone ratio `2^(k / 12)`, scaled by `2^24`, for a
/// pitch-class offset `k` of `0..=11` semitones above the octave base.
pub open spec fn semitone_q24(k: int) -> int {
    if k == 0 {
        16777216
    } else if k == 1 {
        17774841
    } else if k == 2 {
        18831788
    } else if k == 3 {
        19951585
    } else if k == 4 {
        21137968
    } else if k == 5 {
        22394897
    } else if k == 6 {
        23726566
    } else if k == 7 {
        25137421
    } else if k == 8 {
        26632170
    } else if k == 9 {
        28215802
    } else if k == 10 {
        29893600
    } else {
        31671166
    }
}

/// The power-of-two divisor that shifts an octave-zero fixed-point ratio
/// (scaled by `2^24`) to octave `o - 10` and down to the frequency scale
/// of `2^16`.
pub open spec fn octave_divisor(o: int) -> int {
    if o <= 4 {
        16384
    } else if o == 5 {
        8192
    } else if o == 6 {
        4096
    } else if o == 7 {
        2048
    } else if o == 8 {
        1024
    } else if o == 9 {
        512
    } else if o == 10 {
        256
    } else if o == 11 {
        128
    } else if o == 12 {
        64
    } else if o == 13 {
        32
    } else {
        16
    }
}

/// The fixed-point frequency of a MIDI pitch: `440 * 2^((pitch - 69) / 12)`
/// hertz, evaluated over the semitone ratio table, scaled by `2^16`.
pub open spec fn pitch_freq_spec(pitch: int) -> int {
    let m = pitch + 51;
    (440 * semitone_q24(m % 12)) / octave_divisor(m / 12)
}

/// Converts a MIDI pitch to its fixed-point frequency; pitch 69 (A4) maps
/// to exactly 440 Hz.
pub fn midi_pitch_to_freq(pitch: u8) -> (freq: u64)
    requires
        pitch <= 127,
    ensures
        freq == pitch_freq_spec(pitch as int),
        1 <= freq <= 0x10_0000_0000,
{
    let m: u32 = pitch as u32 + 51;
    let k: u32 = m % 12;
    let o: u32 = m / 12;
    let ratio: u64 = if k == 0 {
        16777216
    } else if k == 1 {
        17774841
    } else if k == 2 {
        18831788
    } else if k == 3 {
        19951585
    } else if k == 4 {
        21137968
    } else if k == 5 {
        22394897
    } else if k == 6 {
        23726566
    } else if k == 7 {
        25137421
    } else if k == 8 {
        26632170
    } else if k == 9 {
        28215802
    } else if k == 10 {
        29893600
    } else {
        31671166
    };
    let base: u64 = 440 * ratio;
    let divisor: u64 = if o <= 4 {
        16384
    } else if o == 5 {
        8192
    } else if o == 6 {
        4096
    } else if o == 7 {
        2048
    } else if o == 8 {
        1024
    } else if o == 9 {
        512
    } else if o == 10 {
        256
    } else if o == 11 {
        128
    } else if o == 12 {
        64
    } else if o == 13 {
        32
    } else {
        16
    };
    proof {
        assert(ratio == semitone_q24(m as int % 12));
        assert(divisor == octave_divisor(m as int / 12));
        lemma_div_pos_is_pos(base as int, divisor as int);
        lemma_div_nonincreasing(base as int, divisor as int);
        lemma_div_is_ordered(divisor as int, base as int, divisor as int);
        lemma_div_by_self(divisor as int);
    }
    base / divisor
}

/// One note bound to the current parameter snapshot.
pub struct Voice {
    pub note: Note,
    pub params: SynthParams,
    pub sample_rate: u32,
    pub wave_warp: i64,
}

impl Voice {
    /// The note and the snapshot are valid, and the cached fields agree
    /// with the snapshot.
    pub open spec fn wf(self) -> bool {
        &&& self.note.wf()
        &&& self.params.wf()
        &&& self.sample_rate == self.params.sample_rate
        &&& self.wave_warp == self.params.wave_warp
    }

    /// Binds a note to the snapshot, caching the sample rate and base
    /// morph position the block will use.
    pub fn new(note: Note, params: SynthParams) -> (voice: Voice)
        ensures
            voice == (Voice {
                note,
                params,
                sample_rate: params.sample_rate,
                wave_warp: params.wave_warp,
            }),
    {
        let sample_rate = params.sample_rate;
        let wave_warp = params.wave_warp;
        Voice { note, params, sample_rate, wave_warp }
    }

    /// The amplitude envelope this block derives from the snapshot.
    pub open spec fn amp_envelope(self) -> ADSR {
        clamped_adsr(self.params.attack, self.params.decay, self.params.sustain, self.params.release)
    }

    /// The envelope that modulates the oscillator's morph position.
    pub open spec fn warp_envelope(self) -> ADSR {
        clamped_adsr(
            self.params.warp_attack,
            self.params.warp_decay,
            self.params.warp_sustain,
            self.params.warp_release,
        )
    }

    /// The morph offset contributed by the warp envelope at the block's
    /// start time: the warp ratio, centred around one half, scaled by the
    /// envelope's amplitude.
    pub open spec fn warp_alpha(self) -> int {
        fx_scale_spec(
            self.params.warp_ratio - 32768,
            self.warp_envelope().alpha(
                self.note.time as int,
                self.note.on,
                self.note.off_time as int,
            ),
        )
    }

    /// The morph position fixed for this whole block: the base position
    /// plus the warp envelope's offset (the oscillator clamps it into its
    /// valid range on construction; morph is not re-evaluated per sample).
    pub open spec fn block_morph(self) -> int {
        self.wave_warp + self.warp_alpha()
    }

    /// The oscillator this block constructs.
    pub open spec fn oscillator(self, n_waves: int) -> WaveTableOscillator {
        morphed_oscillator(
            pitch_freq_spec(self.note.number as int) as u64,
            self.sample_rate,
            self.block_morph(),
            n_waves,
        )
    }

    /// The sample this voice produces at offset `i` within the block: the
    /// oscillator's sample at absolute time `note.time + i`, scaled by the
    /// amplitude envelope at the same time.
    pub open spec fn sample_spec(self, table: WaveTable, i: int) -> int {
        let time = self.note.time + i;
        fx_scale_spec(
            self.oscillator(table.waves@.len() as int).sample_at(table, time),
            self.amp_envelope().alpha(time, self.note.on, self.note.off_time as int),
        )
    }

    /// Synthesizes one block of samples for this voice.
    pub fn play(&self, buffer_len: usize, table: &WaveTable) -> (output: Vec<i64>)
        requires
            self.wf(),
            table.wf(),
            self.note.time + buffer_len <= u64::MAX,
        ensures
            output@ == voice_output(*self, *table, buffer_len as int),
            output@.len() == buffer_len,
            forall|j: int| 0 <= j < buffer_len ==> -ONE <= #[trigger] output@[j] <= ONE,
    {
        let warp_envelope = ADSR::new(
            self.params.warp_attack,
            self.params.warp_decay,
            self.params.warp_sustain,
            self.params.warp_release,
        );
        let warp_gate_alpha: i64 = warp_envelope.process(
            self.note.time,
            self.note.on,
            self.note.off_time,
        );
        let ratio_offset: i64 = self.params.warp_ratio - 32768;
        let warp_alpha: i64 = fx_scale(ratio_offset, warp_gate_alpha);
        let morph: i64 = self.wave_warp + warp_alpha;
        let frequency = midi_pitch_to_freq(self.note.number);
        let oscillator = WaveTableOscillator::new(
            frequency,
            self.sample_rate,
            morph,
            table.waves.len(),
        );
        let envelope = ADSR::new(
            self.params.attack,
            self.params.decay,
            self.params.sustain,
            self.params.release,
        );
        let n_waves: Ghost<int> = Ghost(table.waves@.len() as int);
        proof {
            assert(oscillator == self.oscillator(n_waves@));
            assert(envelope == self.amp_envelope());
        }
        let mut output: Vec<i64> = Vec::new();
        let mut i: usize = 0;
        while i < buffer_len
            invariant
                i <= buffer_len,
                self.wf(),
                table.wf(),
                self.note.time + buffer_len <= u64::MAX,
                n_waves@ == table.waves@.len() as int,
                oscillator == self.oscillator(n_waves@),
                oscillator.wf(n_waves@),
                envelope == self.amp_envelope(),
                envelope.wf(),
                output@.len() == i,
                forall|j: int|
                    0 <= j < i ==> #[trigger] output@[j] == self.sample_spec(*table, j) as i64,
                forall|j: int| 0 <= j < i ==> -ONE <= #[trigger] output@[j] <= ONE,
            decreases buffer_len - i,
        {
            let time: u64 = self.note.time + (i as u64);
            let alpha = envelope.process(time, self.note.on, self.note.off_time);
            let osc_sample = oscillator.process(time, table);
            let sample = fx_scale(osc_sample, alpha);
            output.push(sample);
            i = i + 1;
        }
        proof {
            assert(output@ =~= voice_output(*self, *table, buffer_len as int));
        }
        output
    }
}

/// The block of samples a voice produces: the voice's sample at every
/// offset within the block.
pub open spec fn voice_output(voice: Voice, table: WaveTable, len: int) -> Seq<i64> {
    Seq::new(len as nat, |j: int| voice.sample_spec(table, j) as i64)
}

} // verus!
