use synth_one::dsp::envelope::{Envelope, ADSR};
use synth_one::fixed::ONE;

// Ticks at 48 kHz: 480 ticks are 10 ms.
const A: u64 = 480;
const D: u64 = 480;
const R: u64 = 480;

#[test]
fn attack_starts_at_zero_and_reaches_one() {
    let env = ADSR::new(A, D, ONE, R);
    assert_eq!(env.process(0, true, 0), 0);
    assert_eq!(env.process(A, true, 0), ONE);
}

#[test]
fn attack_ramp_is_linear() {
    let env = ADSR::new(A, D, ONE, R);
    assert_eq!(env.process(120, true, 0), 120 * ONE as u64 as i64 / 480);
    assert_eq!(env.process(240, true, 0), ONE / 2);
    assert_eq!(env.process(360, true, 0), 3 * ONE / 4);
}

#[test]
fn decay_ramps_from_one_to_sustain() {
    let env = ADSR::new(A, D, ONE / 2, R);
    assert_eq!(env.process(480, true, 0), ONE);
    assert_eq!(env.process(720, true, 0), 49152);
    assert_eq!(env.process(960, true, 0), ONE / 2);
}

#[test]
fn sustain_phase_holds_level() {
    let env = ADSR::new(A, D, 12345, R);
    assert_eq!(env.process(960, true, 0), 12345);
    assert_eq!(env.process(100_000, true, 0), 12345);
}

#[test]
fn release_before_attack_completes_starts_from_reached_level() {
    // The key is released 120 ticks into a 480-tick attack: the ramp had
    // reached a quarter, and the release starts from min(quarter, sustain).
    let env = ADSR::new(A, D, ONE, R);
    let p = env.process(120, true, 0);
    assert_eq!(p, 16384);
    assert_eq!(env.process(120, false, 120), 16384);

    let low_sustain = ADSR::new(A, D, 8192, R);
    assert_eq!(low_sustain.process(120, false, 120), 8192);
}

#[test]
fn full_release_reaches_zero_exactly_at_release_end() {
    let env = ADSR::new(A, D, ONE, R);
    let off = 2000u64;
    // Strictly positive until the release duration has elapsed...
    assert!(env.process(off + R - 1, false, off) > 0);
    // ...zero exactly at the end, and zero ever after.
    assert_eq!(env.process(off + R, false, off), 0);
    assert_eq!(env.process(off + R + 1, false, off), 0);
    assert_eq!(env.process(off + 10 * R, false, off), 0);
}

#[test]
fn release_ramp_uses_nominal_release_rate() {
    let env = ADSR::new(A, D, ONE, R);
    let off = 2000u64;
    // From full sustain the ramp loses sustain/release per tick.
    assert_eq!(env.process(off + 240, false, off), ONE - 240 * ONE / 480);
}

#[test]
fn degenerate_durations_complete_instantly() {
    let env = ADSR::new(0, 0, ONE, 0);
    assert_eq!(env.attack, 1);
    assert_eq!(env.decay, 1);
    assert_eq!(env.release, 1);
    assert_eq!(env.process(0, true, 0), 0);
    // One tick in, attack and decay are already over.
    assert_eq!(env.process(2, true, 0), ONE);
    // Release is over after one tick as well.
    assert_eq!(env.process(6, false, 5), 0);
}

#[test]
fn sustain_level_is_clamped() {
    assert_eq!(ADSR::new(A, D, 70000, R).sustain, ONE);
    assert_eq!(ADSR::new(A, D, -5, R).sustain, 0);
}
