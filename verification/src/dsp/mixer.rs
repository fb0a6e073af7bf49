//! Combining signals: weighted summation of voice buffers and the final
//! gain stage.
//!
//! Buffers hold fixed-point samples; each queued input carries its own
//! fixed-point gain.  Because the arithmetic is exact, summing the inputs
//! in any order yields exactly the same output (see
//! [`lemma_mix_sum_permutation`]).

use vstd::prelude::*;
use vstd::seq_lib::group_to_multiset_ensures;

use crate::fixed::{fx_scale, fx_scale_spec, ONE};
use crate::fixed::lemma_fx_scale_bounds;

verus! {

/// Largest sample magnitude a mixer input may carry.
pub const MIX_SAMPLE_BOUND: i64 = 0x8000_0000;

/// Largest number of inputs one mix may sum.
pub const MIX_INPUT_BOUND: usize = 32768;

/// One queued input: a channel buffer and the gain to apply to it.
pub type MixInput = (Seq<i64>, i64);

/// The weighted sum at buffer position `j` over all queued inputs:
/// each channel's sample scaled by that channel's gain.
pub open spec fn mix_sum(inputs: Seq<MixInput>, j: int) -> int
    decreases inputs.len(),
{
    if inputs.len() == 0 {
        0
    } else {
        mix_sum(inputs.drop_last(), j) + fx_scale_spec(inputs.last().0[j] as int, inputs.last().1 as int)
    }
}

/// The inputs agree on one buffer length, and samples, gains and the input
/// count stay within the fixed-point ranges the mix is exact over.
pub open spec fn mixable(inputs: Seq<MixInput>) -> bool {
    &&& inputs.len() <= MIX_INPUT_BOUND
    &&& forall|k: int| 0 <= k < inputs.len() ==> (#[trigger] inputs[k]).0.len() == inputs[0].0.len()
    &&& forall|k: int, j: int|
        0 <= k < inputs.len() && 0 <= j < inputs[k].0.len() ==> -MIX_SAMPLE_BOUND <= #[trigger] inputs[k].0[j]
            <= MIX_SAMPLE_BOUND
    &&& forall|k: int| 0 <= k < inputs.len() ==> 0 <= (#[trigger] inputs[k]).1 <= ONE
}

/// Accumulates equal-length input buffers, each with its own gain.
pub trait Mixer {
    /// The inputs queued so far, in order of arrival.
    spec fn inputs(&self) -> Seq<MixInput>;

    /// Validity of the mixer's internal bookkeeping.
    spec fn wf(&self) -> bool;

    /// Queues one channel buffer with its gain.
    fn add_input(&mut self, channel: Vec<i64>, gain: i64)
        requires
            old(self).wf(),
        ensures
            final(self).wf(),
            final(self).inputs() == old(self).inputs().push((channel@, gain)),
    ;

    /// Sums the queued inputs pointwise; position `j` of the output is
    /// exactly the gain-weighted sum of the inputs at `j`.
    fn process(&self) -> (output: Vec<i64>)
        requires
            self.wf(),
            self.inputs().len() > 0,
            mixable(self.inputs()),
        ensures
            output@.len() == self.inputs()[0].0.len(),
            forall|j: int|
                0 <= j < output@.len() ==> output@[j] == mix_sum(self.inputs(), j),
            forall|j: int|
                0 <= j < output@.len() ==> -(self.inputs().len() * MIX_SAMPLE_BOUND) <= #[trigger] output@[j]
                    <= self.inputs().len() * MIX_SAMPLE_BOUND,
    ;
}

/// A mixer that stores the queued channels and gains side by side.
pub struct SimpleMixer {
    pub channels: Vec<Vec<i64>>,
    pub gains: Vec<i64>,
}

impl SimpleMixer {
    /// A mixer with no inputs queued.
    pub fn new() -> (mixer: SimpleMixer)
        ensures
            mixer.inputs() == Seq::<MixInput>::empty(),
            mixer.wf(),
    {
        let mixer = SimpleMixer { channels: Vec::new(), gains: Vec::new() };
        proof {
            assert(mixer.inputs() =~= Seq::<MixInput>::empty());
        }
        mixer
    }
}

impl Mixer for SimpleMixer {
    /// The stored channels paired with their gains.
    open spec fn inputs(&self) -> Seq<MixInput> {
        Seq::new(self.channels@.len(), |k: int| (self.channels@[k]@, self.gains@[k]))
    }

    /// One gain per channel.
    open spec fn wf(&self) -> bool {
        self.channels@.len() == self.gains@.len()
    }

    fn add_input(&mut self, channel: Vec<i64>, gain: i64) {
        self.channels.push(channel);
        self.gains.push(gain);
        proof {
            assert(self.inputs() =~= old(self).inputs().push((channel@, gain)));
        }
    }

    fn process(&self) -> (output: Vec<i64>) {
        let buffer_size = self.channels[0].len();
        let mut output: Vec<i64> = Vec::new();
        let mut j: usize = 0;
        while j < buffer_size
            invariant
                j <= buffer_size,
                output@.len() == j,
                forall|p: int| 0 <= p < j ==> output@[p] == 0,
            decreases buffer_size - j,
        {
            output.push(0);
            j = j + 1;
        }
        let n = self.channels.len();
        proof {
            assert(forall|p: int|
                0 <= p < buffer_size ==> output@[p] == mix_sum(self.inputs().subrange(0, 0), p));
        }
        let mut k: usize = 0;
        while k < n
            invariant
                n == self.channels@.len(),
                self.wf(),
                mixable(self.inputs()),
                n > 0,
                k <= n,
                buffer_size == self.inputs()[0].0.len(),
                output@.len() == buffer_size,
                forall|p: int|
                    0 <= p < buffer_size ==> output@[p] == mix_sum(
                        self.inputs().subrange(0, k as int),
                        p,
                    ),
            decreases n - k,
        {
            let gain = self.gains[k];
            let mut j: usize = 0;
            while j < buffer_size
                invariant
                    n == self.channels@.len(),
                    self.wf(),
                    mixable(self.inputs()),
                    k < n,
                    gain == self.inputs()[k as int].1,
                    buffer_size == self.inputs()[0].0.len(),
                    j <= buffer_size,
                    output@.len() == buffer_size,
                    forall|p: int|
                        j <= p < buffer_size ==> output@[p] == mix_sum(
                            self.inputs().subrange(0, k as int),
                            p,
                        ),
                    forall|p: int|
                        0 <= p < j ==> output@[p] == mix_sum(
                            self.inputs().subrange(0, k as int + 1),
                            p,
                        ),
                decreases buffer_size - j,
            {
                proof {
                    let sub = self.inputs().subrange(0, k as int);
                    assert(forall|p: int|
                        0 <= p < sub.len() ==> (#[trigger] sub[p]) == self.inputs()[p]);
                    lemma_mix_sum_bound(sub, j as int);
                    assert(k * MIX_SAMPLE_BOUND + MIX_SAMPLE_BOUND <= 0x4000_0000_0000)
                        by (nonlinear_arith)
                        requires 0 <= k < 32768;
                    lemma_fx_scale_bounds(
                        self.inputs()[k as int].0[j as int] as int,
                        self.inputs()[k as int].1 as int,
                    );
                    assert(self.inputs().subrange(0, k as int + 1).drop_last()
                        =~= self.inputs().subrange(0, k as int));
                }
                let term = fx_scale(self.channels[k][j], gain);
                let prev = output[j];
                output[j] = prev + term;
                j = j + 1;
            }
            k = k + 1;
        }
        proof {
            assert(self.inputs().subrange(0, n as int) =~= self.inputs());
            assert forall|j: int|
                0 <= j < output@.len() implies -(self.inputs().len() * MIX_SAMPLE_BOUND)
                <= #[trigger] output@[j] <= self.inputs().len() * MIX_SAMPLE_BOUND by {
                lemma_mix_sum_bound(self.inputs(), j);
            }
        }
        output
    }
}

/// The mix at a position every input covers is bounded by the number of
/// inputs times the per-sample bound.
pub proof fn lemma_mix_sum_bound(inputs: Seq<MixInput>, j: int)
    requires
        forall|k: int| 0 <= k < inputs.len() ==> 0 <= j < (#[trigger] inputs[k]).0.len(),
        forall|k: int|
            0 <= k < inputs.len() ==> -MIX_SAMPLE_BOUND <= (#[trigger] inputs[k]).0[j]
                <= MIX_SAMPLE_BOUND,
        forall|k: int| 0 <= k < inputs.len() ==> 0 <= (#[trigger] inputs[k]).1 <= ONE,
    ensures
        -(inputs.len() * MIX_SAMPLE_BOUND) <= mix_sum(inputs, j) <= inputs.len()
            * MIX_SAMPLE_BOUND,
    decreases inputs.len(),
{
    if inputs.len() == 0 {
        assert(0 * MIX_SAMPLE_BOUND == 0) by (nonlinear_arith);
    } else {
        let head = inputs.drop_last();
        let last = inputs.last();
        assert(forall|k: int|
            0 <= k < head.len() ==> (#[trigger] head[k]) == inputs[k]);
        lemma_mix_sum_bound(head, j);
        assert(last == inputs[inputs.len() - 1]);
        lemma_fx_scale_bounds(last.0[j] as int, last.1 as int);
        assert(head.len() * MIX_SAMPLE_BOUND + MIX_SAMPLE_BOUND == inputs.len()
            * MIX_SAMPLE_BOUND) by (nonlinear_arith)
            requires head.len() + 1 == inputs.len();
    }
}

/// Removing input `i` removes exactly its contribution from the mix.
proof fn lemma_mix_sum_remove(inputs: Seq<MixInput>, i: int, j: int)
    requires
        0 <= i < inputs.len(),
    ensures
        mix_sum(inputs.remove(i), j) == mix_sum(inputs, j) - fx_scale_spec(
            inputs[i].0[j] as int,
            inputs[i].1 as int,
        ),
    decreases inputs.len(),
{
    if i == inputs.len() - 1 {
        assert(inputs.remove(i) =~= inputs.drop_last());
    } else {
        assert(inputs.remove(i).drop_last() =~= inputs.drop_last().remove(i));
        assert(inputs.remove(i).last() == inputs.last());
        lemma_mix_sum_remove(inputs.drop_last(), i, j);
    }
}

/// Mixing is commutative and associative in its inputs: two mixers given
/// the same multiset of (channel, gain) inputs, in any order, produce
/// exactly the same sum at every buffer position.
pub proof fn lemma_mix_sum_permutation(inputs1: Seq<MixInput>, inputs2: Seq<MixInput>, j: int)
    requires
        inputs1.to_multiset() == inputs2.to_multiset(),
    ensures
        mix_sum(inputs1, j) == mix_sum(inputs2, j),
    decreases inputs1.len(),
{
    broadcast use group_to_multiset_ensures;

    if inputs1.len() == 0 {
        assert(inputs1.to_multiset().len() == inputs1.len());
        assert(inputs2.to_multiset().len() == inputs2.len());
    } else {
        let x = inputs1.last();
        let last_index = inputs1.len() - 1;
        assert(inputs1[last_index] == x);
        assert(inputs1.to_multiset().count(x) > 0);
        assert(inputs2.to_multiset().count(x) > 0);
        assert(inputs2.contains(x));
        let i = choose|i: int| 0 <= i < inputs2.len() && inputs2[i] == x;
        assert(inputs1.remove(last_index).to_multiset() == inputs1.to_multiset().remove(x));
        assert(inputs2.remove(i).to_multiset() == inputs2.to_multiset().remove(x));
        assert(inputs1.remove(last_index) =~= inputs1.drop_last());
        lemma_mix_sum_permutation(inputs1.drop_last(), inputs2.remove(i), j);
        lemma_mix_sum_remove(inputs2, i, j);
    }
}

/// The final scalar gain stage.
pub trait Amp: Sized {
    /// The fixed-point gain this stage applies.
    spec fn gain(&self) -> int;

    /// Builds the stage from a fixed-point volume in `[0, ONE]`.
    fn new(volume: i64) -> (amp: Self)
        requires
            0 <= volume <= ONE,
        ensures
            amp.gain() == volume,
    ;

    /// Scales every sample of the buffer in place by the gain.
    fn process(&self, buffer: &mut Vec<i64>)
        requires
            0 <= self.gain() <= ONE,
            forall|j: int|
                0 <= j < old(buffer)@.len() ==> -0x4000_0000_0000 <= #[trigger] old(
                    buffer,
                )@[j] <= 0x4000_0000_0000,
        ensures
            final(buffer)@.len() == old(buffer)@.len(),
            forall|j: int|
                0 <= j < old(buffer)@.len() ==> final(buffer)@[j] == fx_scale_spec(
                    old(buffer)@[j] as int,
                    self.gain(),
                ),
    ;
}

/// An amplifier holding one fixed-point volume.
pub struct SimpleAmp {
    pub volume: i64,
}

impl Amp for SimpleAmp {
    open spec fn gain(&self) -> int {
        self.volume as int
    }

    fn new(volume: i64) -> (amp: Self) {
        SimpleAmp { volume }
    }

    fn process(&self, buffer: &mut Vec<i64>) {
        let n = buffer.len();
        let mut j: usize = 0;
        while j < n
            invariant
                n == buffer@.len(),
                j <= n,
                0 <= self.volume <= ONE,
                forall|p: int|
                    j <= p < n ==> buffer@[p] == old(buffer)@[p],
                forall|p: int|
                    j <= p < n ==> -0x4000_0000_0000 <= #[trigger] old(buffer)@[p]
                        <= 0x4000_0000_0000,
                forall|p: int|
                    0 <= p < j ==> buffer@[p] == fx_scale_spec(
                        old(buffer)@[p] as int,
                        self.volume as int,
                    ),
            decreases n - j,
        {
            let scaled = fx_scale(buffer[j], self.volume);
            buffer[j] = scaled;
            j = j + 1;
        }
    }
}

} // verus!
