use vstd::prelude::*;

verus! {

/// Number of equally likely outcomes of one decision: 2^53.
pub const DRAW_SPAN: u64 = 0x20_0000_0000_0000;

/// The part of a raw 64-bit draw that decides: its upper 53 bits, a value in
/// `[0, DRAW_SPAN)`.
pub open spec fn trimmed(raw: u64) -> nat {
    (raw / 2048) as nat
}

/// The least number of outcomes, out of `DRAW_SPAN`, that covers the fraction
/// `numerator / denominator`, capped at all of them.
pub open spec fn ratio_threshold(numerator: u64, denominator: u64) -> nat
    recommends
        denominator > 0,
{
    if numerator >= denominator {
        DRAW_SPAN as nat
    } else {
        ((numerator * DRAW_SPAN + denominator - 1) / (denominator as int)) as nat
    }
}

/// A chance in `[0, 1]`, held as the number of outcomes (out of `DRAW_SPAN`)
/// on which a decision succeeds.
#[derive(Clone, Copy, Debug)]
pub struct Probability {
    threshold: u64,
}

impl View for Probability {
    type V = nat;

    closed spec fn view(&self) -> nat {
        self.threshold as nat
    }
}

impl Probability {
    /// A chance given directly as a count of succeeding outcomes. Counts above
    /// `DRAW_SPAN` are clamped to certainty.
    pub fn from_threshold(threshold: u64) -> (p: Probability)
        ensures
            p@ == if threshold <= DRAW_SPAN { threshold as nat } else { DRAW_SPAN as nat },
    {
        if threshold <= DRAW_SPAN {
            Probability { threshold }
        } else {
            Probability { threshold: DRAW_SPAN }
        }
    }

    /// The chance that never succeeds.
    pub fn never() -> (p: Probability)
        ensures
            p@ == 0,
    {
        Probability { threshold: 0 }
    }

    /// The chance that always succeeds.
    pub fn always() -> (p: Probability)
        ensures
            p@ == DRAW_SPAN,
    {
        Probability { threshold: DRAW_SPAN }
    }

    /// The chance `numerator / denominator`, rounded up to the next outcome
    /// and clamped to certainty; `None` exactly when the denominator is zero.
    pub fn from_ratio(numerator: u64, denominator: u64) -> (p: Option<Probability>)
        ensures
            denominator == 0 <==> p is None,
            p matches Some(q) ==> q@ == ratio_threshold(numerator, denominator),
    {
        if denominator == 0 {
            None
        } else if numerator >= denominator {
            Some(Probability { threshold: DRAW_SPAN })
        } else {
            assert(numerator * DRAW_SPAN <= 0xffff_ffff_ffff_ffff * 0x20_0000_0000_0000)
                by (nonlinear_arith)
                requires
                    numerator <= 0xffff_ffff_ffff_ffff,
                    DRAW_SPAN == 0x20_0000_0000_0000,
            ;
            let wide: u128 = numerator as u128 * (DRAW_SPAN as u128) + (denominator as u128 - 1);
            let quotient: u128 = wide / (denominator as u128);
            assert(quotient <= DRAW_SPAN) by (nonlinear_arith)
                requires
                    quotient == (numerator * DRAW_SPAN + denominator - 1) / (denominator as int),
                    0 <= numerator < denominator,
                    DRAW_SPAN == 0x20_0000_0000_0000,
            ;
            Some(Probability { threshold: quotient as u64 })
        }
    }

    /// The count of succeeding outcomes.
    pub fn threshold(&self) -> (t: u64)
        ensures
            t == self@,
    {
        self.threshold
    }

    /// Decides one trial from a raw 64-bit draw: success exactly when the
    /// trimmed draw falls below the threshold.
    pub fn decides(&self, raw: u64) -> (hit: bool)
        ensures
            hit == (trimmed(raw) < self@),
    {
        raw / 2048 < self.threshold
    }
}

/// A zero chance fails on every draw and a full chance succeeds on every draw.
pub proof fn lemma_extremes_are_certain(p: Probability, raw: u64)
    ensures
        p@ == 0 ==> !(trimmed(raw) < p@),
        p@ >= DRAW_SPAN ==> trimmed(raw) < p@,
{
}

/// A supply of raw 64-bit draws. Nothing is promised of the values: every
/// caller is verified for whatever comes back.
pub trait RandomSource {
    /// The next raw draw: 64 bits, each value as likely as any other.
    fn next_raw(&mut self) -> u64;
}

#[verifier::external_type_specification]
#[verifier::external_body]
pub struct ExStdRng(rand::rngs::StdRng);

/// Calls `rand::RngCore::next_u64` on the generator. The value depends on the
/// generator's hidden state, so the contract claims nothing about it.
#[verifier::external_body]
fn generator_next(rng: &mut rand::rngs::StdRng) -> u64 {
    rand::RngCore::next_u64(rng)
}

/// Draws taken from a `rand` standard generator that the caller has seeded.
pub struct GeneratorSource {
    rng: rand::rngs::StdRng,
}

impl GeneratorSource {
    /// A source that draws from `rng`, which the caller has seeded.
    pub fn new(rng: rand::rngs::StdRng) -> (source: GeneratorSource)
        ensures source.generator() == rng,
    { GeneratorSource { rng } }
}

impl RandomSource for GeneratorSource {
    fn next_raw(&mut self) -> u64 {
        generator_next(&mut self.rng)
    }
}

impl GeneratorSource {
    /// The generator that the source draws from, in its present state.
    pub closed spec fn generator(&self) -> rand::rngs::StdRng {
        self.rng
    }
}

} // verus!
