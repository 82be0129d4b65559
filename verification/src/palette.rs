use vstd::prelude::*;
use crate::chance::{trimmed, RandomSource, DRAW_SPAN};
use crate::error::BuildError;
use crate::melody::PitchSource;
use crate::scale::{Scale, ScaleModel};

verus! {

/// The frequency that a raw draw picks out of the band of width `range`
/// above `base`: the draw's share of the band, rounded down.
pub open spec fn band_point(base: u64, range: u64, raw: u64) -> nat {
    (base + (range * trimmed(raw)) / (DRAW_SPAN as int)) as nat
}

/// A band of frequencies together with the scale that its points are
/// snapped to.
pub struct Band {
    scale: Scale,
    base: u64,
    range: u64,
}

impl Band {
    #[verifier::type_invariant]
    spec fn inv(self) -> bool {
        self.scale.wf() && self.base + self.range <= u64::MAX
    }

    /// The scale that the pitches are snapped to.
    pub closed spec fn scale(&self) -> ScaleModel {
        self.scale@
    }

    /// The lower end of the band.
    pub closed spec fn base(&self) -> u64 {
        self.base
    }

    /// The width of the band.
    pub closed spec fn range(&self) -> u64 {
        self.range
    }

    /// The band from `base` to `base + range`, snapped to `scale`. A band
    /// that leaves the frequency range is refused.
    pub fn new(scale: Scale, base: u64, range: u64) -> (made: Result<Band, BuildError>)
        requires
            scale.wf(),
        ensures
            base + range > u64::MAX <==> made is Err,
            made matches Err(e) ==> e == BuildError::FrequencyOverflow,
            made matches Ok(p) ==> p.scale() == scale@ && p.base() == base && p.range() == range,
    {
        if range > u64::MAX - base {
            Err(BuildError::FrequencyOverflow)
        } else {
            Ok(Band { scale, base, range })
        }
    }

    /// The pitch that the raw draw `raw` stands for: the point of the band
    /// that it picks, snapped to the scale.
    pub fn pick(&self, raw: u64) -> (pitch: u64)
        ensures
            self.scale().is_nearest(pitch as nat, band_point(self.base(), self.range(), raw)),
    {
        proof {
            use_type_invariant(self);
        }
        let share: u64 = raw / 2048;
        assert(share < DRAW_SPAN) by (bit_vector)
            requires
                share == raw / 2048,
                DRAW_SPAN == 0x20_0000_0000_0000u64,
        ;
        assert(self.range * share <= self.range * DRAW_SPAN) by (nonlinear_arith)
            requires
                share < DRAW_SPAN,
        ;
        assert(self.range * DRAW_SPAN <= 0xffff_ffff_ffff_ffff * 0x20_0000_0000_0000)
            by (nonlinear_arith)
            requires
                self.range <= 0xffff_ffff_ffff_ffff,
                DRAW_SPAN == 0x20_0000_0000_0000,
        ;
        let wide: u128 = self.range as u128 * (share as u128);
        let offset: u128 = wide / (DRAW_SPAN as u128);
        assert(offset <= self.range) by (nonlinear_arith)
            requires
                offset == (self.range * share) / (DRAW_SPAN as int),
                share < DRAW_SPAN,
                DRAW_SPAN > 0,
                self.range >= 0,
        ;
        let target: u64 = self.base + offset as u64;
        self.scale.quantize(target)
    }
}

/// A palette of random notes: each pitch is a point drawn evenly from a
/// band and snapped to the band's scale.
pub struct NoisePalette<R: RandomSource> {
    pub band: Band,
    pub chance: R,
}

impl<R: RandomSource> PitchSource for NoisePalette<R> {
    /// The next pitch is a note of the band's scale: the one nearest to the
    /// point that some draw picks.
    fn next_pitch(&mut self) -> (pitch: u64)
        ensures
            final(self).band == old(self).band,
            exists|raw: u64| #[trigger]
                old(self).band.scale().is_nearest(
                    pitch as nat,
                    band_point(old(self).band.base(), old(self).band.range(), raw),
                ),
    {
        let raw = self.chance.next_raw();
        self.band.pick(raw)
    }
}

} // verus!
