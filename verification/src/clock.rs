use vstd::prelude::*;
use crate::cycle::{firings, lemma_step_wraps, lemma_succ_div, lemma_succ_mod, step_round};
use crate::error::BuildError;

verus! {

/// A trigger that fires on every `period`-th tick of the sample clock,
/// starting with tick 0.
#[derive(Clone, Copy, Debug)]
pub struct PeriodicTrigger {
    period: u64,
}

impl PeriodicTrigger {
    /// The number of ticks from one firing to the next.
    pub closed spec fn spec_period(&self) -> nat {
        self.period as nat
    }

    /// The invariant that every operation keeps.
    pub open spec fn wf(&self) -> bool {
        self.spec_period() >= 1
    }

    /// Whether a trigger of this period fires at `tick`.
    pub open spec fn fires_at(&self, tick: nat) -> bool {
        tick % self.spec_period() == 0
    }

    /// A trigger that fires `rate` times per `sample_rate` ticks, every
    /// `sample_rate / rate` ticks (rounded down). A rate of zero, or one above
    /// the sample rate, is refused.
    pub fn new(sample_rate: u64, rate: u64) -> (made: Result<PeriodicTrigger, BuildError>)
        ensures
            (rate == 0 || rate > sample_rate) <==> made is Err,
            made matches Err(e) ==> e == BuildError::BadRate,
            made matches Ok(t) ==> t.wf() && t.spec_period() == sample_rate as nat / rate as nat,
    {
        if rate == 0 || rate > sample_rate {
            return Err(BuildError::BadRate);
        }
        let period = sample_rate / rate;
        assert(period >= 1) by (nonlinear_arith)
            requires
                period == sample_rate as int / rate as int,
                0 < rate <= sample_rate,
        ;
        Ok(PeriodicTrigger { period })
    }

    /// The number of ticks from one firing to the next.
    pub fn period(&self) -> (p: u64)
        ensures
            p == self.spec_period(),
    {
        self.period
    }

    /// Whether the trigger fires at `tick`.
    pub fn fires(&self, tick: u64) -> (fired: bool)
        requires
            self.wf(),
        ensures
            fired == self.fires_at(tick as nat),
    {
        tick % self.period == 0
    }
}

/// The firings of a periodic trigger are evenly spaced: one period after a
/// firing comes the next, with none in between.
pub proof fn lemma_firings_are_evenly_spaced(trigger: PeriodicTrigger, tick: nat, gap: nat)
    requires
        trigger.wf(),
        trigger.fires_at(tick),
        gap <= trigger.spec_period(),
    ensures
        trigger.fires_at(0),
        trigger.fires_at(tick + gap) <==> (gap == 0 || gap == trigger.spec_period()),
{
    let m = trigger.spec_period() as int;
    vstd::arithmetic::div_mod::lemma_add_mod_noop(tick as int, gap as int, m);
    if gap == trigger.spec_period() {
        vstd::arithmetic::div_mod::lemma_mod_self_0(m);
    } else {
        vstd::arithmetic::div_mod::lemma_small_mod(gap, trigger.spec_period());
    }
    vstd::arithmetic::div_mod::lemma_small_mod(0, trigger.spec_period());
}

/// The state of a divider, as mathematics.
pub struct DividerState {
    /// How many firings of the input make one firing of the output.
    pub divisor: nat,
    /// How many firings of the input have come since the output last fired.
    pub count: nat,
}

impl DividerState {
    /// The invariant that every operation keeps.
    pub open spec fn wf(self) -> bool {
        self.divisor >= 1 && self.count < self.divisor
    }

    /// The divider by `divisor` that has seen no firing.
    pub open spec fn fresh(divisor: nat) -> DividerState {
        DividerState { divisor, count: 0 }
    }

    /// Whether the output fires on this sample: on the input firing that
    /// completes a group of `divisor`.
    pub open spec fn passes(self, fired: bool) -> bool {
        fired && self.count + 1 == self.divisor
    }

    /// The state after this sample.
    pub open spec fn after(self, fired: bool) -> DividerState {
        if fired {
            DividerState {
                divisor: self.divisor,
                count: step_round(self.count, self.divisor),
            }
        } else {
            self
        }
    }

    /// The state after the first `count` samples of `inputs`.
    pub open spec fn after_run(self, inputs: Seq<bool>, count: nat) -> DividerState
        decreases count,
    {
        if count == 0 {
            self
        } else {
            self.after_run(inputs, (count - 1) as nat).after(inputs[count - 1])
        }
    }

    /// Whether the output fires on sample number `index` of `inputs`.
    pub open spec fn run_output(self, inputs: Seq<bool>, index: nat) -> bool {
        self.after_run(inputs, index).passes(inputs[index as int])
    }

    /// The output stream that `inputs` gives.
    pub open spec fn run_outputs(self, inputs: Seq<bool>) -> Seq<bool> {
        Seq::new(inputs.len(), |i: int| self.run_output(inputs, i as nat))
    }
}

/// Derives a slower trigger: its output fires on every `divisor`-th firing
/// of its input, the first time on firing number `divisor`.
#[derive(Clone, Copy, Debug)]
pub struct Divider {
    divisor: u32,
    count: u32,
}

impl View for Divider {
    type V = DividerState;

    closed spec fn view(&self) -> DividerState {
        DividerState { divisor: self.divisor as nat, count: self.count as nat }
    }
}

impl Divider {
    /// The invariant that every operation keeps.
    pub open spec fn wf(&self) -> bool {
        self@.wf()
    }

    /// A divider by `divisor`; division by zero is refused.
    pub fn new(divisor: u32) -> (made: Result<Divider, BuildError>)
        ensures
            divisor == 0 <==> made is Err,
            made matches Err(e) ==> e == BuildError::ZeroDivisor,
            made matches Ok(d) ==> d.wf() && d@ == DividerState::fresh(divisor as nat),
    {
        if divisor == 0 {
            Err(BuildError::ZeroDivisor)
        } else {
            Ok(Divider { divisor, count: 0 })
        }
    }

    /// How many firings of the input make one firing of the output.
    pub fn divisor(&self) -> (n: u32)
        ensures
            n == self@.divisor,
    {
        self.divisor
    }

    /// Takes one sample of the input and gives the sample of the output.
    pub fn step(&mut self, fired: bool) -> (passed: bool)
        requires
            old(self).wf(),
        ensures
            final(self).wf(),
            final(self)@ == old(self)@.after(fired),
            passed == old(self)@.passes(fired),
    {
        if !fired {
            return false;
        }
        proof {
            lemma_step_wraps(self.count as nat, self.divisor as nat);
        }
        let next = self.count + 1;
        if next == self.divisor {
            self.count = 0;
            true
        } else {
            self.count = next;
            false
        }
    }
}

/// After any run a fresh divider has counted the input's firings modulo its
/// divisor.
pub proof fn lemma_divider_counts(divisor: nat, inputs: Seq<bool>, count: nat)
    requires
        divisor >= 1,
        count <= inputs.len(),
    ensures
        DividerState::fresh(divisor).after_run(inputs, count).wf(),
        DividerState::fresh(divisor).after_run(inputs, count).divisor == divisor,
        DividerState::fresh(divisor).after_run(inputs, count).count == firings(inputs, count)
            % divisor,
    decreases count,
{
    if count == 0 {
        vstd::arithmetic::div_mod::lemma_small_mod(0, divisor);
    } else {
        let before = (count - 1) as nat;
        lemma_divider_counts(divisor, inputs, before);
        let f = firings(inputs, before);
        lemma_succ_mod(f, divisor);
        lemma_step_wraps(f % divisor, divisor);
    }
}

/// The output of a fresh divider fires exactly on those firings of the input
/// whose number, counted from 1, is a multiple of the divisor.
pub proof fn lemma_divider_passes_every_nth(divisor: nat, inputs: Seq<bool>, index: nat)
    requires
        divisor >= 1,
        index < inputs.len(),
    ensures
        DividerState::fresh(divisor).run_output(inputs, index) <==> (inputs[index as int]
            && firings(inputs, index + 1) % divisor == 0),
{
    lemma_divider_counts(divisor, inputs, index);
    let f = firings(inputs, index);
    lemma_succ_mod(f, divisor);
    assert(firings(inputs, index + 1) == f + if inputs[index as int] { 1nat } else { 0nat });
}

/// Among the first `count` samples the output of a fresh divider fires once
/// for every full group of `divisor` input firings: the k-th output firing is
/// the input firing number k times the divisor.
pub proof fn lemma_divider_output_count(divisor: nat, inputs: Seq<bool>, count: nat)
    requires
        divisor >= 1,
        count <= inputs.len(),
    ensures
        firings(DividerState::fresh(divisor).run_outputs(inputs), count) == firings(inputs, count)
            / divisor,
    decreases count,
{
    if count == 0 {
        vstd::arithmetic::div_mod::lemma_div_basics(divisor as int);
    } else {
        let before = (count - 1) as nat;
        lemma_divider_output_count(divisor, inputs, before);
        lemma_divider_passes_every_nth(divisor, inputs, before);
        let f = firings(inputs, before);
        lemma_succ_div(f, divisor);
        assert(DividerState::fresh(divisor).run_outputs(inputs)[before as int]
            == DividerState::fresh(divisor).run_output(inputs, before));
    }
}

/// Division by one is the identity.
pub proof fn lemma_divide_by_one_is_identity(inputs: Seq<bool>)
    ensures
        DividerState::fresh(1).run_outputs(inputs) == inputs,
{
    assert forall|i: int| 0 <= i < inputs.len() implies DividerState::fresh(1).run_outputs(
        inputs,
    )[i] == inputs[i] by {
        lemma_divider_counts(1, inputs, i as nat);
    }
    assert(DividerState::fresh(1).run_outputs(inputs) =~= inputs);
}

/// The state of a voice cycle, as mathematics.
pub struct CycleState {
    /// The number of voices that take turns.
    pub voices: nat,
    /// The voice whose turn is next.
    pub next: nat,
}

impl CycleState {
    /// The invariant that every operation keeps.
    pub open spec fn wf(self) -> bool {
        1 <= self.voices <= usize::MAX && self.next < self.voices
    }

    /// The cycle over `voices` voices in which voice 0 is next.
    pub open spec fn fresh(voices: nat) -> CycleState {
        CycleState { voices, next: 0 }
    }

    /// The voice that this sample's firing goes to, if the input fires.
    pub open spec fn routed(self, fired: bool) -> Option<usize> {
        if fired {
            Some(self.next as usize)
        } else {
            None
        }
    }

    /// The state after this sample.
    pub open spec fn after(self, fired: bool) -> CycleState {
        if fired {
            CycleState {
                voices: self.voices,
                next: step_round(self.next, self.voices),
            }
        } else {
            self
        }
    }

    /// The state after the first `count` samples of `inputs`.
    pub open spec fn after_run(self, inputs: Seq<bool>, count: nat) -> CycleState
        decreases count,
    {
        if count == 0 {
            self
        } else {
            self.after_run(inputs, (count - 1) as nat).after(inputs[count - 1])
        }
    }
}

/// Splits one trigger among several voices in turn: voice 0 gets the first
/// firing, voice 1 the second, and so on round the cycle.
#[derive(Clone, Copy, Debug)]
pub struct VoiceCycle {
    voices: usize,
    next: usize,
}

impl View for VoiceCycle {
    type V = CycleState;

    closed spec fn view(&self) -> CycleState {
        CycleState { voices: self.voices as nat, next: self.next as nat }
    }
}

impl VoiceCycle {
    /// The invariant that every operation keeps.
    pub open spec fn wf(&self) -> bool {
        self@.wf()
    }

    /// A cycle over `voices` voices; a cycle without voices is refused.
    pub fn new(voices: usize) -> (made: Result<VoiceCycle, BuildError>)
        ensures
            voices == 0 <==> made is Err,
            made matches Err(e) ==> e == BuildError::ZeroLength,
            made matches Ok(c) ==> c.wf() && c@ == CycleState::fresh(voices as nat),
    {
        if voices == 0 {
            Err(BuildError::ZeroLength)
        } else {
            Ok(VoiceCycle { voices, next: 0 })
        }
    }

    /// The number of voices that take turns.
    pub fn voices(&self) -> (n: usize)
        ensures
            n == self@.voices,
    {
        self.voices
    }

    /// Takes one sample of the input and says which voice its firing goes to.
    pub fn route(&mut self, fired: bool) -> (voice: Option<usize>)
        requires
            old(self).wf(),
        ensures
            final(self).wf(),
            final(self)@ == old(self)@.after(fired),
            voice == old(self)@.routed(fired),
            voice matches Some(v) ==> v < old(self)@.voices,
    {
        if !fired {
            return None;
        }
        proof {
            lemma_step_wraps(self.next as nat, self.voices as nat);
        }
        let voice = self.next;
        self.next = if voice + 1 == self.voices {
            0
        } else {
            voice + 1
        };
        Some(voice)
    }
}

/// A fresh cycle gives each voice every `voices`-th firing, starting at the
/// voice's own number: the firing with `k` firings before it goes to voice
/// `k % voices`.
pub proof fn lemma_cycle_takes_turns(voices: nat, inputs: Seq<bool>, count: nat)
    requires
        1 <= voices <= usize::MAX,
        count <= inputs.len(),
    ensures
        CycleState::fresh(voices).after_run(inputs, count).wf(),
        CycleState::fresh(voices).after_run(inputs, count).voices == voices,
        CycleState::fresh(voices).after_run(inputs, count).next == firings(inputs, count) % voices,
    decreases count,
{
    if count == 0 {
        vstd::arithmetic::div_mod::lemma_small_mod(0, voices);
    } else {
        let before = (count - 1) as nat;
        lemma_cycle_takes_turns(voices, inputs, before);
        let f = firings(inputs, before);
        lemma_succ_mod(f, voices);
        lemma_step_wraps(f % voices, voices);
    }
}

} // verus!
