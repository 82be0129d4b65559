use vstd::prelude::*;

verus! {

/// Why a component could not be built from the parameters it was given.
#[derive(Clone, Copy, Debug, PartialEq, Eq, Structural)]
pub enum BuildError {
    /// A clock was asked to fire zero times per second, or more often than
    /// there are samples.
    BadRate,
    /// A divider was asked to divide by zero.
    ZeroDivisor,
    /// A melodic loop or a voice cycle was asked to have no positions.
    ZeroLength,
    /// A pattern table has no steps.
    EmptyPattern,
    /// More channels were asked for than a pattern mask has bits.
    TooManyChannels,
    /// A scale has no degrees.
    EmptyScale,
    /// A scale spans no octave at all.
    NoOctaves,
    /// A scale degree has the frequency zero.
    ZeroFrequency,
    /// Two scale degrees have the same frequency.
    DuplicateDegree,
    /// The highest octave of a scale degree does not fit the frequency range.
    FrequencyOverflow,
}

} // verus!
