//! ADSR amplitude envelopes.
//!
//! An envelope maps the time since note-on (in sample ticks), the key state
//! and the release timestamp to an amplitude in `[0, ONE]`.  The envelope is
//! a pure function of those inputs: the peak level reached before an early
//! release is reconstructed algebraically from the release timestamp, so no
//! mutable state is carried across blocks.

use vstd::arithmetic::div_mod::{lemma_div_of0, lemma_div_pos_is_pos, lemma_multiply_divide_lt};
use vstd::prelude::*;

use crate::fixed::ONE;

verus! {

/// An amplitude envelope: a function of time since note-on, key state, and
/// the release timestamp.
pub trait Envelope {
    /// Validity of the envelope's parameters.
    spec fn wf(&self) -> bool;

    /// The amplitude yielded `time` ticks after note-on, given the key
    /// state and (when the key is released) the tick of the release.
    spec fn alpha(&self, time: int, on: bool, time_off: int) -> int;

    /// Computes the amplitude exactly; it always lies in `[0, ONE]`.
    fn process(&self, time: u64, on: bool, time_off: u64) -> (alpha: i64)
        requires
            self.wf(),
            !on ==> time_off <= time,
        ensures
            alpha == self.alpha(time as int, on, time_off as int),
            0 <= alpha <= ONE,
    ;
}

/// Attack, decay, release durations in sample ticks and the sustain
/// amplitude in fixed-point units.
pub struct ADSR {
    pub attack: u64,
    pub decay: u64,
    pub sustain: i64,
    pub release: u64,
}

/// The envelope [`ADSR::new`] builds: each zero duration clamped to one
/// tick, the sustain level clamped into `[0, ONE]`.
pub open spec fn clamped_adsr(attack: u64, decay: u64, sustain: i64, release: u64) -> ADSR {
    ADSR {
        attack: if attack == 0 { 1u64 } else { attack },
        decay: if decay == 0 { 1u64 } else { decay },
        sustain: if sustain < 0 {
            0i64
        } else if sustain > ONE {
            ONE
        } else {
            sustain
        },
        release: if release == 0 { 1u64 } else { release },
    }
}

impl ADSR {
    /// Builds an envelope, clamping each degenerate duration of zero ticks
    /// to one tick (so that phase completes instantaneously instead of
    /// dividing by zero) and the sustain level into `[0, ONE]`.
    pub fn new(attack: u64, decay: u64, sustain: i64, release: u64) -> (env: ADSR)
        ensures
            env == clamped_adsr(attack, decay, sustain, release),
            env.wf(),
    {
        ADSR {
            attack: if attack == 0 { 1 } else { attack },
            decay: if decay == 0 { 1 } else { decay },
            sustain: if sustain < 0 {
                0
            } else if sustain > ONE {
                ONE
            } else {
                sustain
            },
            release: if release == 0 { 1 } else { release },
        }
    }

    /// The amplitude the attack ramp has reached `time` ticks in.
    pub open spec fn attack_alpha(self, time: int) -> int {
        time * (ONE as int) / (self.attack as int)
    }

    /// The highest amplitude reached by tick `time_off`, reconstructed
    /// algebraically: still climbing during the attack, and at the full
    /// level from the end of the attack on.
    pub open spec fn peak_alpha(self, time_off: int) -> int {
        if time_off < self.attack {
            self.attack_alpha(time_off)
        } else {
            ONE as int
        }
    }
}

impl Envelope for ADSR {
    /// Durations were clamped to at least one tick and the sustain level
    /// into `[0, ONE]`.
    open spec fn wf(&self) -> bool {
        &&& 1 <= self.attack
        &&& 1 <= self.decay
        &&& 1 <= self.release
        &&& 0 <= self.sustain <= ONE
    }

    /// While the key is held: a linear ramp from 0 to `ONE` over the attack,
    /// then a linear ramp from `ONE` down to the sustain level over the
    /// decay, then the sustain level.  After the key is released: a ramp from
    /// `min(peak, sustain)` toward zero with slope `sustain / release`
    /// (preserving the nominal release rate regardless of starting level),
    /// clamped at zero, and exactly zero once the release has elapsed.
    open spec fn alpha(&self, time: int, on: bool, time_off: int) -> int {
        if on {
            if time < self.attack {
                self.attack_alpha(time)
            } else if time < self.attack + self.decay {
                (ONE as int) - (time - self.attack) * ((ONE as int) - self.sustain) / (
                self.decay as int)
            } else {
                self.sustain as int
            }
        } else {
            let peak = self.peak_alpha(time_off);
            let start = if peak < self.sustain { peak } else { self.sustain as int };
            let since_off = time - time_off;
            if since_off < self.release {
                let fall = since_off * (self.sustain as int) / (self.release as int);
                if start - fall > 0 {
                    start - fall
                } else {
                    0
                }
            } else {
                0
            }
        }
    }

    fn process(&self, time: u64, on: bool, time_off: u64) -> (alpha: i64) {
        if on {
            if time < self.attack {
                proof {
                    lemma_attack_alpha_bounds(*self, time as int);
                }
                let q: u128 = (time as u128) * 65536 / (self.attack as u128);
                q as i64
            } else if (time as u128) < (self.attack as u128) + (self.decay as u128) {
                let diff: u64 = time - self.attack;
                let rest: i64 = 65536 - self.sustain;
                proof {
                    let d = diff as int;
                    let r = rest as int;
                    let dec = self.decay as int;
                    assert(d * r <= 0xFFFF_FFFF_FFFF_FFFF * 65536) by (nonlinear_arith)
                        requires 0 <= d <= 0xFFFF_FFFF_FFFF_FFFF && 0 <= r <= 65536;
                    lemma_div_pos_is_pos(d * r, dec);
                    if r > 0 {
                        assert(d * r < dec * r) by (nonlinear_arith)
                            requires 0 <= d < dec && r > 0;
                        lemma_multiply_divide_lt(d * r, dec, r);
                    } else {
                        assert(d * r == 0) by (nonlinear_arith)
                            requires r == 0;
                        lemma_div_of0(dec);
                    }
                }
                let dq: u128 = (diff as u128) * (rest as u128) / (self.decay as u128);
                65536 - (dq as i64)
            } else {
                self.sustain
            }
        } else {
            let peak: i64 = if time_off < self.attack {
                proof {
                    lemma_attack_alpha_bounds(*self, time_off as int);
                }
                let q: u128 = (time_off as u128) * 65536 / (self.attack as u128);
                q as i64
            } else {
                65536
            };
            let start: i64 = if peak < self.sustain {
                peak
            } else {
                self.sustain
            };
            let since_off: u64 = time - time_off;
            if since_off < self.release {
                proof {
                    let t = since_off as int;
                    let s = self.sustain as int;
                    let rel = self.release as int;
                    assert(t * s <= 0xFFFF_FFFF_FFFF_FFFF * 65536) by (nonlinear_arith)
                        requires 0 <= t <= 0xFFFF_FFFF_FFFF_FFFF && 0 <= s <= 65536;
                    lemma_div_pos_is_pos(t * s, rel);
                    if s > 0 {
                        assert(t * s < rel * s) by (nonlinear_arith)
                            requires 0 <= t < rel && s > 0;
                        lemma_multiply_divide_lt(t * s, rel, s);
                    } else {
                        assert(t * s == 0) by (nonlinear_arith)
                            requires s == 0;
                        lemma_div_of0(rel);
                    }
                }
                let fq: u128 = (since_off as u128) * (self.sustain as u128) / (
                self.release as u128);
                let fall: i64 = fq as i64;
                if start > fall {
                    start - fall
                } else {
                    0
                }
            } else {
                0
            }
        }
    }
}

/// While the attack ramp is still climbing, its value lies in `[0, ONE)`.
proof fn lemma_attack_alpha_bounds(env: ADSR, time: int)
    requires
        env.wf(),
        0 <= time < env.attack,
    ensures
        0 <= env.attack_alpha(time) < ONE,
{
    let t = time;
    let a = env.attack as int;
    lemma_div_pos_is_pos(t * 65536, a);
    assert(t * 65536 < a * 65536) by (nonlinear_arith)
        requires t < a;
    lemma_multiply_divide_lt(t * 65536, a, 65536);
}

/// The attack ramp starts at exactly zero and hands the decay ramp exactly
/// the full level: the envelope is continuous at the attack boundary.
pub proof fn lemma_attack_boundaries(env: ADSR, time_off: int)
    requires
        env.wf(),
    ensures
        env.alpha(0, true, time_off) == 0,
        env.alpha(env.attack as int, true, time_off) == ONE,
{
    let a = env.attack as int;
    assert(0 * 65536 == 0) by (nonlinear_arith);
    lemma_div_of0(a);
    assert(env.alpha(a, true, time_off) == (ONE as int) - (a - a) * ((ONE as int)
        - env.sustain) / (env.decay as int));
    assert((a - a) * ((ONE as int) - env.sustain) == 0) by (nonlinear_arith);
    lemma_div_of0(env.decay as int);
}

/// Releasing at `t0` before the attack completes releases from
/// `min(p, sustain)`, where `p` is the amplitude the ramp had reached at
/// `t0`.
pub proof fn lemma_release_from_partial_attack(env: ADSR, t0: int)
    requires
        env.wf(),
        0 <= t0 < env.attack,
    ensures
        ({
            let p = env.alpha(t0, true, t0);
            env.alpha(t0, false, t0) == if p < env.sustain {
                p
            } else {
                env.sustain as int
            }
        }),
{
    let p = env.alpha(t0, true, t0);
    lemma_attack_alpha_bounds(env, t0);
    let s = env.sustain as int;
    let rel = env.release as int;
    assert(0 * s == 0) by (nonlinear_arith);
    lemma_div_of0(rel);
}

/// A full release (one that starts from the sustain level, the attack and
/// decay having completed) stays strictly positive until the release
/// duration has elapsed, reaches zero exactly then, and stays zero for all
/// later times.
pub proof fn lemma_release_completion(env: ADSR, time: int, time_off: int)
    requires
        env.wf(),
        0 <= time_off <= time,
    ensures
        time - time_off >= env.release ==> env.alpha(time, false, time_off) == 0,
        env.sustain >= 1 && time_off >= env.attack && time - time_off < env.release
            ==> env.alpha(time, false, time_off) > 0,
{
    let t = time - time_off;
    let s = env.sustain as int;
    let rel = env.release as int;
    if env.sustain >= 1 && time_off >= env.attack && t < rel {
        let fall = t * s / rel;
        assert(t * s < rel * s) by (nonlinear_arith)
            requires 0 <= t < rel && s > 0;
        lemma_multiply_divide_lt(t * s, rel, s);
        assert(fall < s);
    }
}

} // verus!
