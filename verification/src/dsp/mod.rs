//! Digital signal processing: envelopes, oscillators, voices, mixing,
//! filtering, and the per-block orchestrator.

use vstd::prelude::*;

pub mod envelope;
pub mod filter;
pub mod mixer;
pub mod oscillator;
pub mod voice;

use crate::dsp::mixer::{mix_sum, mixable, MixInput, Mixer, SimpleMixer, MIX_SAMPLE_BOUND};
use crate::dsp::oscillator::WaveTable;
use crate::dsp::voice::{voice_output, Voice};
use crate::fixed::ONE;
use crate::notes::{
    advanced_notes, lemma_unique_pitches_bound, outlives_purge, Note, Notebook,
};

verus! {

/// A self-consistent snapshot of the continuous parameters, read once per
/// block.  Durations are sample ticks; levels, gains and morph positions
/// are fixed-point values scaled by [`ONE`].
#[derive(Clone, Copy)]
pub struct SynthParams {
    pub sample_rate: u32,
    pub main_volume: i64,
    pub attack: u64,
    pub decay: u64,
    pub sustain: i64,
    pub release: u64,
    pub filter_cutoff: i64,
    pub wave_warp: i64,
    pub warp_attack: u64,
    pub warp_decay: u64,
    pub warp_sustain: i64,
    pub warp_release: u64,
    pub warp_ratio: i64,
}

impl SynthParams {
    /// The sample rate is positive and every normalized parameter lies in
    /// its normalized range.
    pub open spec fn wf(self) -> bool {
        &&& 1 <= self.sample_rate
        &&& 0 <= self.main_volume <= ONE
        &&& 0 <= self.filter_cutoff <= ONE
        &&& -ONE <= self.wave_warp <= ONE
        &&& 0 <= self.warp_ratio <= ONE
    }

    /// Ticks a released note may linger before a purge removes it: half a
    /// second at the snapshot's sample rate.
    pub open spec fn purge_threshold(self) -> u64 {
        (self.sample_rate / 2) as u64
    }
}

/// The mixer inputs one block derives from the active notes: one voice
/// buffer per note, each mixed at unit gain.
pub open spec fn block_inputs(
    notes: Seq<Note>,
    params: SynthParams,
    table: WaveTable,
    len: int,
) -> Seq<MixInput> {
    Seq::new(
        notes.len(),
        |k: int|
            (
                voice_output(
                    Voice {
                        note: notes[k],
                        params,
                        sample_rate: params.sample_rate,
                        wave_warp: params.wave_warp,
                    },
                    table,
                    len,
                ),
                ONE,
            ),
    )
}

/// Sequences one audio block: a registry snapshot, per-voice synthesis and
/// mixing before the spectral stage, and the registry bookkeeping after
/// it.
pub struct PluginDsp {
    pub params: SynthParams,
}

impl PluginDsp {
    /// A block orchestrator over the given parameter snapshot.
    pub fn new(params: SynthParams) -> (dsp: PluginDsp)
        ensures
            dsp.params == params,
    {
        PluginDsp { params }
    }

    /// Synthesizes one block: one voice per active note, summed at unit
    /// gain.  With no active notes it yields nothing and the caller leaves
    /// the output and the registry untouched.  The caller passes the
    /// result through the spectral filter and the gain stage, then calls
    /// [`PluginDsp::finish_block`].
    pub fn process(&self, notebook: &Notebook, num_samples: usize, table: &WaveTable) -> (out:
        Option<Vec<i64>>)
        requires
            notebook.wf(),
            self.params.wf(),
            table.wf(),
            forall|i: int|
                0 <= i < notebook@.len() ==> (#[trigger] notebook@[i]).time + num_samples
                    <= u64::MAX,
        ensures
            out is Some <==> notebook@.len() > 0,
            out is Some ==> out->0@.len() == num_samples,
            out is Some ==> forall|j: int|
                0 <= j < num_samples ==> #[trigger] out->0@[j] == mix_sum(
                    block_inputs(notebook@, self.params, *table, num_samples as int),
                    j,
                ),
            out is Some ==> forall|j: int|
                0 <= j < num_samples ==> -0x4000_0000_0000 <= #[trigger] out->0@[j]
                    <= 0x4000_0000_0000,
    {
        let notes = notebook.get_notes();
        if notes.len() == 0 {
            return None;
        }
        proof {
            lemma_unique_pitches_bound(notebook@);
        }
        let inputs: Ghost<Seq<MixInput>> = Ghost(
            block_inputs(notebook@, self.params, *table, num_samples as int),
        );
        let mut mixer = SimpleMixer::new();
        let n = notes.len();
        proof {
            assert(mixer.inputs() =~= inputs@.subrange(0, 0));
        }
        let mut k: usize = 0;
        while k < n
            invariant
                n == notes@.len(),
                notes@ == notebook@,
                notebook.wf(),
                self.params.wf(),
                table.wf(),
                n <= 128,
                k <= n,
                forall|i: int|
                    0 <= i < notebook@.len() ==> (#[trigger] notebook@[i]).time + num_samples
                        <= u64::MAX,
                inputs@ == block_inputs(notebook@, self.params, *table, num_samples as int),
                mixer.wf(),
                mixer.inputs() == inputs@.subrange(0, k as int),
                forall|p: int, j: int|
                    0 <= p < k && 0 <= j < num_samples ==> -ONE <= #[trigger] inputs@[p].0[j]
                        <= ONE,
            decreases n - k,
        {
            let voice = Voice::new(notes[k], self.params);
            proof {
                assert(notebook@[k as int].wf());
            }
            let voice_out = voice.play(num_samples, table);
            mixer.add_input(voice_out, 65536);
            proof {
                assert((voice_out@, 65536i64) == inputs@[k as int]);
                assert(inputs@.subrange(0, k as int).push(inputs@[k as int]) =~= inputs@.subrange(
                    0,
                    k as int + 1,
                ));
            }
            k = k + 1;
        }
        proof {
            assert(inputs@.subrange(0, n as int) =~= inputs@);
            assert(mixable(mixer.inputs()));
        }
        let mixed = mixer.process();
        proof {
            assert(mixer.inputs().len() * MIX_SAMPLE_BOUND <= 128 * 0x8000_0000)
                by (nonlinear_arith)
                requires 0 < mixer.inputs().len() <= 128;
        }
        Some(mixed)
    }

    /// Finishes the block after synthesis: advances every note's clock by
    /// the block's duration, then purges notes whose release is older than
    /// the purge threshold.
    pub fn finish_block(&self, notebook: &mut Notebook, num_samples: usize)
        requires
            old(notebook).wf(),
            forall|i: int|
                0 <= i < old(notebook)@.len() ==> (#[trigger] old(notebook)@[i]).time
                    + num_samples <= u64::MAX,
        ensures
            final(notebook).wf(),
            final(notebook)@ == advanced_notes(old(notebook)@, num_samples as u64).filter(
                |note: Note| outlives_purge(note, self.params.purge_threshold()),
            ),
    {
        notebook.update_note_times(num_samples as u64);
        proof {
            assert(notebook@ =~= advanced_notes(old(notebook)@, num_samples as u64));
        }
        notebook.purge_old_notes((self.params.sample_rate / 2) as u64);
    }
}

} // verus!
