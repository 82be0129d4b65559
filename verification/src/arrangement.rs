use vstd::prelude::*;
use crate::chance::{Probability, RandomSource, DRAW_SPAN};
use crate::clock::{CycleState, Divider, DividerState, PeriodicTrigger, VoiceCycle};
use crate::error::BuildError;
use crate::melody::{Draws, LoopState, PitchSource, ReplaceLoop};
use crate::pattern::{drum_pattern, drum_table, PatternDemux, PatternState, MASK_BITS};

verus! {

/// The parameters of an arrangement.
pub struct Settings {
    /// Ticks of the sample clock per second.
    pub sample_rate: u64,
    /// Beats of the master trigger per second.
    pub rate: u64,
    /// The melody gets every `melody_divisor`-th beat.
    pub melody_divisor: u32,
    /// The drums get every `drum_divisor`-th beat.
    pub drum_divisor: u32,
    /// The chance that a beat of the melody is dropped.
    pub skip: Probability,
    /// The number of melodic voices that take turns.
    pub voices: usize,
    /// The number of positions of each voice's loop.
    pub loop_length: usize,
    /// The chance that a trigger replaces the slot it plays.
    pub replace: Probability,
    /// The chance that a pass through a loop plays the anchor at position 0.
    pub anchor: Probability,
    /// The drum pattern, one mask per step.
    pub pattern: Vec<u8>,
    /// The number of drum channels.
    pub channels: usize,
}

impl Settings {
    /// Why these settings make no arrangement, if they make none. The
    /// reasons are tested in this order.
    pub open spec fn defect(&self) -> Option<BuildError> {
        if self.rate == 0 || self.rate > self.sample_rate {
            Some(BuildError::BadRate)
        } else if self.melody_divisor == 0 || self.drum_divisor == 0 {
            Some(BuildError::ZeroDivisor)
        } else if self.voices == 0 || self.loop_length == 0 {
            Some(BuildError::ZeroLength)
        } else if self.channels > MASK_BITS {
            Some(BuildError::TooManyChannels)
        } else if self.pattern@.len() == 0 {
            Some(BuildError::EmptyPattern)
        } else {
            None
        }
    }

    /// The state in which an arrangement with these settings starts.
    pub open spec fn opening(&self) -> ArrangementState {
        ArrangementState {
            period: self.sample_rate as nat / self.rate as nat,
            melody_divider: DividerState::fresh(self.melody_divisor as nat),
            drum_divider: DividerState::fresh(self.drum_divisor as nat),
            skip: self.skip@,
            replace: self.replace@,
            anchor: self.anchor@,
            cycle: CycleState::fresh(self.voices as nat),
            voices: Seq::new(
                self.voices as nat,
                |i: int| LoopState::initial(self.loop_length as nat),
            ),
            drums: PatternState::fresh(self.pattern@, self.channels as nat),
        }
    }

    /// The piece as it is played: ten beats per second, the melody on every
    /// second beat with one beat in ten dropped, two voices with loops of
    /// eight positions, a replace chance of one in ten and an anchor chance
    /// of one in two, and the three-channel drum pattern on every third beat.
    pub fn standard(sample_rate: u64) -> (settings: Settings)
        ensures
            settings.sample_rate == sample_rate,
            settings.rate == 10,
            settings.melody_divisor == 2,
            settings.drum_divisor == 3,
            settings.skip@ == 900719925474100,
            settings.voices == 2,
            settings.loop_length == 8,
            settings.replace@ == 900719925474100,
            settings.anchor@ == 4503599627370496,
            settings.pattern@ == drum_table(),
            settings.channels == 3,
    {
        Settings {
            sample_rate,
            rate: 10,
            melody_divisor: 2,
            drum_divisor: 3,
            skip: Probability::from_threshold(900719925474100),
            voices: 2,
            loop_length: 8,
            replace: Probability::from_threshold(900719925474100),
            anchor: Probability::from_threshold(4503599627370496),
            pattern: drum_pattern(),
            channels: 3,
        }
    }
}

/// What chance decides on one tick. A field that the tick has no use for is
/// ignored.
pub struct Chances {
    /// Whether the melody's beat is dropped.
    pub skipped: bool,
    /// The decisions and pitches of the voice that is triggered.
    pub draws: Draws,
}

/// What one tick of an arrangement gives out.
#[derive(Clone, Copy, Debug)]
pub struct Frame {
    /// Whether the master trigger fires on this tick.
    pub beat: bool,
    /// The voice that is triggered on this tick, if one is.
    pub voice: Option<usize>,
    /// The pitch that the triggered voice gives out.
    pub pitch: Option<u64>,
    /// The drum channels that fire on this tick, as a mask.
    pub drums: u8,
}

/// The state of an arrangement, as mathematics.
pub struct ArrangementState {
    pub period: nat,
    pub melody_divider: DividerState,
    pub drum_divider: DividerState,
    pub skip: nat,
    pub replace: nat,
    pub anchor: nat,
    pub cycle: CycleState,
    pub voices: Seq<LoopState>,
    pub drums: PatternState,
}

impl ArrangementState {
    /// The invariant that every operation keeps.
    pub open spec fn wf(self) -> bool {
        &&& self.period >= 1
        &&& self.melody_divider.wf()
        &&& self.drum_divider.wf()
        &&& self.cycle.wf()
        &&& self.voices.len() == self.cycle.voices
        &&& forall|i: int| 0 <= i < self.voices.len() ==> (#[trigger] self.voices[i]).wf()
        &&& self.drums.wf()
    }

    /// Whether the master trigger fires at `tick`.
    pub open spec fn beat(self, tick: nat) -> bool {
        tick % self.period == 0
    }

    /// Whether a voice is triggered at `tick`: on a beat that the melody's
    /// divider passes and that is not dropped.
    pub open spec fn onset(self, tick: nat, c: Chances) -> bool {
        self.melody_divider.passes(self.beat(tick)) && !c.skipped
    }

    /// Whether what chance decided is possible under the probabilities: a
    /// zero chance never succeeds and a full chance never fails.
    pub open spec fn allows(self, tick: nat, c: Chances) -> bool {
        &&& self.skip == 0 ==> !c.skipped
        &&& self.skip >= DRAW_SPAN && self.melody_divider.passes(self.beat(tick)) ==> c.skipped
        &&& self.onset(tick, c) && self.replace == 0 ==> !c.draws.replace
        &&& self.onset(tick, c) && self.replace >= DRAW_SPAN ==> c.draws.replace
        &&& self.onset(tick, c) && self.anchor == 0 ==> !c.draws.anchor_hit
        &&& self.onset(tick, c) && self.anchor >= DRAW_SPAN && self.voices[self.cycle.next
            as int].cursor == 0 ==> c.draws.anchor_hit
    }

    /// What the tick at `tick` gives out.
    pub open spec fn frame(self, tick: nat, c: Chances) -> Frame {
        let voice = self.cycle.routed(self.onset(tick, c));
        Frame {
            beat: self.beat(tick),
            voice,
            pitch: if self.onset(tick, c) {
                Some(self.voices[self.cycle.next as int].emitted(c.draws))
            } else {
                None
            },
            drums: self.drums.emitted(self.drum_divider.passes(self.beat(tick))),
        }
    }

    /// The state after the tick at `tick`.
    pub open spec fn after_tick(self, tick: nat, c: Chances) -> ArrangementState {
        ArrangementState {
            period: self.period,
            melody_divider: self.melody_divider.after(self.beat(tick)),
            drum_divider: self.drum_divider.after(self.beat(tick)),
            skip: self.skip,
            replace: self.replace,
            anchor: self.anchor,
            cycle: self.cycle.after(self.onset(tick, c)),
            voices: if self.onset(tick, c) {
                self.voices.update(
                    self.cycle.next as int,
                    self.voices[self.cycle.next as int].after_trigger(c.draws),
                )
            } else {
                self.voices
            },
            drums: self.drums.after(self.drum_divider.passes(self.beat(tick))),
        }
    }
}

/// The sequencing of the whole piece: the master trigger, its two
/// divisions, the melodic voices that take turns, and the drum pattern.
pub struct Arrangement {
    clock: PeriodicTrigger,
    melody_divider: Divider,
    drum_divider: Divider,
    skip: Probability,
    replace: Probability,
    anchor: Probability,
    cycle: VoiceCycle,
    voices: Vec<ReplaceLoop>,
    drums: PatternDemux,
}

impl View for Arrangement {
    type V = ArrangementState;

    closed spec fn view(&self) -> ArrangementState {
        ArrangementState {
            period: self.clock.spec_period(),
            melody_divider: self.melody_divider@,
            drum_divider: self.drum_divider@,
            skip: self.skip@,
            replace: self.replace@,
            anchor: self.anchor@,
            cycle: self.cycle@,
            voices: Seq::new(self.voices@.len(), |i: int| self.voices@[i]@),
            drums: self.drums@,
        }
    }
}

impl Arrangement {
    /// The invariant that every operation keeps.
    pub open spec fn wf(&self) -> bool {
        self@.wf()
    }

    /// The arrangement that `settings` describe, before its first tick.
    pub fn new(settings: Settings) -> (made: Result<Arrangement, BuildError>)
        ensures
            match made {
                Ok(a) => settings.defect() is None && a.wf() && a@ == settings.opening(),
                Err(e) => settings.defect() == Some(e),
            },
    {
        let clock = match PeriodicTrigger::new(settings.sample_rate, settings.rate) {
            Ok(clock) => clock,
            Err(e) => {
                return Err(e);
            },
        };
        if settings.melody_divisor == 0 || settings.drum_divisor == 0 {
            return Err(BuildError::ZeroDivisor);
        }
        let melody_divider = match Divider::new(settings.melody_divisor) {
            Ok(d) => d,
            Err(e) => {
                return Err(e);
            },
        };
        let drum_divider = match Divider::new(settings.drum_divisor) {
            Ok(d) => d,
            Err(e) => {
                return Err(e);
            },
        };
        if settings.voices == 0 || settings.loop_length == 0 {
            return Err(BuildError::ZeroLength);
        }
        let cycle = match VoiceCycle::new(settings.voices) {
            Ok(c) => c,
            Err(e) => {
                return Err(e);
            },
        };
        let ghost opening = settings.opening();
        let mut voices: Vec<ReplaceLoop> = Vec::new();
        let mut i: usize = 0;
        while i < settings.voices
            invariant
                i <= settings.voices,
                settings.loop_length > 0,
                voices@.len() == i,
                forall|j: int|
                    0 <= j < i ==> (#[trigger] voices@[j]).wf() && voices@[j]@
                        == LoopState::initial(settings.loop_length as nat),
            decreases settings.voices - i,
        {
            let voice = match ReplaceLoop::new(settings.loop_length) {
                Ok(v) => v,
                Err(e) => {
                    return Err(e);
                },
            };
            voices.push(voice);
            i += 1;
        }
        let channels = settings.channels;
        let skip = settings.skip;
        let replace = settings.replace;
        let anchor = settings.anchor;
        let drums = match PatternDemux::new(settings.pattern, channels) {
            Ok(d) => d,
            Err(e) => {
                return Err(e);
            },
        };
        let made = Arrangement {
            clock,
            melody_divider,
            drum_divider,
            skip,
            replace,
            anchor,
            cycle,
            voices,
            drums,
        };
        assert(made@.voices =~= opening.voices);
        Ok(made)
    }

    /// The number of melodic voices.
    pub fn voices(&self) -> (n: usize)
        ensures
            n == self@.voices.len(),
    {
        self.voices.len()
    }

    /// The pitch that `voice` holds: the one it gave out at its latest
    /// trigger. `None` before its first trigger and for a voice that the
    /// arrangement does not have.
    pub fn held_pitch(&self, voice: usize) -> (pitch: Option<u64>)
        ensures
            pitch == if voice < self@.voices.len() {
                self@.voices[voice as int].held
            } else {
                None
            },
    {
        if voice < self.voices.len() {
            self.voices[voice].held()
        } else {
            None
        }
    }

    /// Plays the tick of the sample clock at `tick`: steps the master
    /// trigger's divisions, triggers the voice whose turn it is if the
    /// melody's beat is not dropped, and steps the drum pattern.
    pub fn advance<R: RandomSource, A: PitchSource, P: PitchSource>(
        &mut self,
        tick: u64,
        chance: &mut R,
        anchor: &mut A,
        palette: &mut P,
    ) -> (frame: Frame)
        requires
            old(self).wf(),
        ensures
            final(self).wf(),
            exists|c: Chances|
                {
                    &&& final(self)@ == #[trigger] old(self)@.after_tick(tick as nat, c)
                    &&& frame == old(self)@.frame(tick as nat, c)
                    &&& old(self)@.allows(tick as nat, c)
                    &&& !old(self)@.onset(tick as nat, c) ==> *final(anchor) == *old(anchor)
                        && *final(palette) == *old(palette)
                },
            !old(self)@.melody_divider.passes(old(self)@.beat(tick as nat)) ==> *final(chance)
                == *old(chance),
    {
        proof {
            assert forall|i: int| 0 <= i < self.voices@.len() implies (#[trigger] self.voices@[i]).wf(
            ) by {
                assert(self@.voices[i].wf());
            }
        }
        let beat = self.clock.fires(tick);
        let melody_in = self.melody_divider.step(beat);
        let drum_in = self.drum_divider.step(beat);
        let skipped = if melody_in {
            self.skip.decides(chance.next_raw())
        } else {
            false
        };
        let onset = melody_in && !skipped;
        let voice = self.cycle.route(onset);
        let ghost mut draws = Draws { replace: false, anchor_hit: false, anchor: 0, fresh: 0 };
        let pitch = match voice {
            Some(v) => {
                let ghost before = self.voices@[v as int]@;
                let replace = self.replace;
                let anchor_chance = self.anchor;
                let p = self.voices[v].sample(
                    true,
                    replace,
                    anchor_chance,
                    chance,
                    anchor,
                    palette,
                );
                proof {
                    draws = choose|d: Draws|
                        {
                            &&& self.voices@[v as int]@ == #[trigger] before.after_trigger(d)
                            &&& p == before.emitted(d)
                            &&& replace@ == 0 ==> !d.replace
                            &&& replace@ >= DRAW_SPAN ==> d.replace
                            &&& anchor_chance@ == 0 ==> !d.anchor_hit
                            &&& anchor_chance@ >= DRAW_SPAN && before.cursor == 0 ==> d.anchor_hit
                        };
                }
                Some(p)
            },
            None => None,
        };
        let drums = self.drums.step(drum_in);
        let frame = Frame { beat, voice, pitch, drums };
        proof {
            let c = Chances { skipped, draws };
            let expected = old(self)@.after_tick(tick as nat, c);
            assert(self@.voices.len() == expected.voices.len());
            assert forall|i: int| 0 <= i < self@.voices.len() implies self@.voices[i]
                == expected.voices[i] by {
                assert(self@.voices[i] == self.voices@[i]@);
                assert(old(self)@.voices[i] == old(self).voices@[i]@);
            }
            assert(self@.voices =~= expected.voices);
            assert(self@ == expected);
            assert forall|i: int| 0 <= i < self@.voices.len() implies (#[trigger] self@.voices[i]).wf(
            ) by {
                assert(self.voices@[i].wf());
            }
        }
        frame
    }
}

} // verus!
