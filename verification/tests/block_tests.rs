use synth_one::dsp::oscillator::{Wave, WaveTable, WAVE_TABLE_LENGTH};
use synth_one::dsp::voice::Voice;
use synth_one::dsp::{PluginDsp, SynthParams};
use synth_one::fixed::ONE;
use synth_one::notes::Notebook;

fn sine_wave() -> Wave {
    let samples: Vec<i64> = (0..WAVE_TABLE_LENGTH)
        .map(|i| {
            let phase = 2.0 * std::f64::consts::PI * (i as f64) / (WAVE_TABLE_LENGTH as f64);
            (phase.sin() * 65536.0).round() as i64
        })
        .collect();
    Wave::new(samples).unwrap()
}

fn flat_wave(value: i64) -> Wave {
    Wave::new(vec![value; WAVE_TABLE_LENGTH]).unwrap()
}

fn sine_table() -> WaveTable {
    WaveTable::new(vec![sine_wave(), flat_wave(0)]).unwrap()
}

// 10 ms attack, decay and release at 48 kHz; full sustain; morph fixed at
// waveform 0; warp ratio centred so the warp envelope contributes nothing.
fn params() -> SynthParams {
    SynthParams {
        sample_rate: 48000,
        main_volume: ONE,
        attack: 480,
        decay: 480,
        sustain: ONE,
        release: 480,
        filter_cutoff: ONE,
        wave_warp: 0,
        warp_attack: 0,
        warp_decay: 0,
        warp_sustain: ONE,
        warp_release: 0,
        warp_ratio: ONE / 2,
    }
}

#[test]
fn single_voice_at_a4_traces_sine_times_rising_ramp() {
    let table = sine_table();
    let mut book = Notebook::new();
    book.note_on(69, 100);
    let dsp = PluginDsp::new(params());

    let output = dsp.process(&book, 48, &table).unwrap();
    assert_eq!(output.len(), 48);

    // The envelope starts at zero.
    assert_eq!(output[0], 0);

    // Spot values of the sine-times-ramp shape: at 440 Hz and 48 kHz the
    // table position advances by 4096 * 440 / 48000 per sample, and the
    // attack ramp climbs by ONE / 480 per sample.
    assert_eq!(output[1], 7);
    assert_eq!(output[2], 31);
    assert_eq!(output[3], 69);
    assert_eq!(output[4], 124);
    assert_eq!(output[5], 192);
    assert_eq!(output[47], 2707);

    // The whole block follows sample = sine[position] * ramp exactly.
    let sine = sine_wave();
    let freq: u128 = 440 * 65536;
    let span: u128 = 48000 * 65536;
    for i in 0..48u128 {
        let position = ((i * freq) % span) * 4096 / span;
        let osc = sine_sample(&sine, position as usize);
        let alpha = (i as i64) * ONE / 480;
        let expected = scale(osc, alpha);
        assert_eq!(output[i as usize], expected);
    }
}

fn sine_sample(wave: &Wave, position: usize) -> i64 {
    wave.samples[position]
}

fn scale(value: i64, alpha: i64) -> i64 {
    let product = (value as i128) * (alpha as i128);
    if product >= 0 {
        (product / 65536) as i64
    } else {
        -((-product) / 65536) as i64
    }
}

#[test]
fn a_lone_voice_mixed_at_unit_gain_equals_its_own_buffer() {
    let table = sine_table();
    let mut book = Notebook::new();
    book.note_on(69, 100);
    let dsp = PluginDsp::new(params());
    let mixed = dsp.process(&book, 48, &table).unwrap();

    let note = book.get_notes()[0];
    let voice = Voice::new(note, params());
    let solo = voice.play(48, &table);
    assert_eq!(mixed, solo);
}

#[test]
fn a_block_with_no_notes_is_skipped() {
    let table = sine_table();
    let book = Notebook::new();
    let dsp = PluginDsp::new(params());
    assert!(dsp.process(&book, 48, &table).is_none());
}

#[test]
fn two_voices_sum_sample_by_sample() {
    let table = sine_table();
    let mut book = Notebook::new();
    book.note_on(69, 100);
    book.note_on(57, 100);
    let dsp = PluginDsp::new(params());
    let mixed = dsp.process(&book, 48, &table).unwrap();

    let notes = book.get_notes();
    let first = Voice::new(notes[0], params()).play(48, &table);
    let second = Voice::new(notes[1], params()).play(48, &table);
    for j in 0..48 {
        assert_eq!(mixed[j], first[j] + second[j]);
    }
}

#[test]
fn finish_block_advances_clocks_and_purges_stale_releases() {
    let mut book = Notebook::new();
    book.note_on(69, 100);
    book.note_on(60, 100);
    book.note_off(60);
    let dsp = PluginDsp::new(params());

    // One block of 480 samples: clocks advance, nothing is stale yet
    // (the purge threshold is half a second, 24000 ticks).
    dsp.finish_block(&mut book, 480);
    let notes = book.get_notes();
    assert_eq!(notes.len(), 2);
    for note in &notes {
        assert_eq!(note.time, 480);
    }

    // After another 24000 ticks the released note's off-time reaches the
    // threshold and it is purged; the sounding note stays.
    dsp.finish_block(&mut book, 24000);
    let notes = book.get_notes();
    assert_eq!(notes.len(), 1);
    assert_eq!(notes[0].number, 69);
    assert!(notes[0].on);
}
