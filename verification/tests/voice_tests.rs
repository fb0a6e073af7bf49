use synth_one::dsp::oscillator::{Wave, WaveTable, WAVE_TABLE_LENGTH};
use synth_one::dsp::voice::Voice;
use synth_one::dsp::SynthParams;
use synth_one::fixed::ONE;
use synth_one::notes::Note;

fn flat_wave(value: i64) -> Wave {
    Wave::new(vec![value; WAVE_TABLE_LENGTH]).unwrap()
}

fn table() -> WaveTable {
    WaveTable::new(vec![flat_wave(1000), flat_wave(2000)]).unwrap()
}

// Instant attack and decay, full sustain: the amplitude envelope is at one
// for any note older than two ticks, so the voice output shows the
// oscillator's value directly.
fn params(wave_warp: i64, warp_ratio: i64) -> SynthParams {
    SynthParams {
        sample_rate: 48000,
        main_volume: ONE,
        attack: 0,
        decay: 0,
        sustain: ONE,
        release: 0,
        filter_cutoff: ONE,
        wave_warp,
        warp_attack: 0,
        warp_decay: 0,
        warp_sustain: ONE,
        warp_release: 0,
        warp_ratio,
    }
}

fn held_note() -> Note {
    Note { number: 69, velocity: 100, time: 100, off_time: 0, on: true }
}

#[test]
fn warp_envelope_pushes_the_morph_up() {
    // Ratio at the top: the warp envelope (at full level) adds half the
    // morph range to the base position, reaching waveform 1.
    let voice = Voice::new(held_note(), params(ONE / 2, ONE));
    let output = voice.play(4, &table());
    assert_eq!(output, vec![2000, 2000, 2000, 2000]);
}

#[test]
fn warp_envelope_pulls_the_morph_down() {
    // Ratio at the bottom: half the morph range is subtracted, landing at
    // waveform 0.
    let voice = Voice::new(held_note(), params(ONE / 2, 0));
    let output = voice.play(4, &table());
    assert_eq!(output, vec![1000, 1000, 1000, 1000]);
}

#[test]
fn centred_warp_ratio_leaves_the_morph_alone() {
    let voice = Voice::new(held_note(), params(ONE, ONE / 2));
    let output = voice.play(4, &table());
    assert_eq!(output, vec![2000, 2000, 2000, 2000]);
}

#[test]
fn released_note_goes_silent_after_its_release() {
    // Released at tick 50 with a one-tick release: by tick 100 the voice
    // only produces zeros.
    let note = Note { number: 69, velocity: 100, time: 100, off_time: 50, on: false };
    let voice = Voice::new(note, params(0, ONE / 2));
    let output = voice.play(4, &table());
    assert_eq!(output, vec![0, 0, 0, 0]);
}
