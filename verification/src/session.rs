use vstd::prelude::*;
use crate::arrangement::{Arrangement, ArrangementState, Chances, Frame};
use crate::chance::RandomSource;
use crate::melody::PitchSource;

verus! {

/// The state of a playback session, as mathematics.
pub struct SessionState {
    /// The sequencing state of the piece.
    pub arrangement: ArrangementState,
    /// Whether the piece is sounding.
    pub playing: bool,
}

impl SessionState {
    /// The invariant that every operation keeps.
    pub open spec fn wf(self) -> bool {
        self.arrangement.wf()
    }

    /// The session after a start.
    pub open spec fn started(self) -> SessionState {
        SessionState { arrangement: self.arrangement, playing: true }
    }

    /// The session after a stop.
    pub open spec fn stopped(self) -> SessionState {
        SessionState { arrangement: self.arrangement, playing: false }
    }

    /// The session after the tick at `tick`: a sounding session plays it, a
    /// stopped one lets it pass.
    pub open spec fn after_tick(self, tick: nat, c: Chances) -> SessionState {
        if self.playing {
            SessionState { arrangement: self.arrangement.after_tick(tick, c), playing: true }
        } else {
            self
        }
    }

    /// What the tick at `tick` gives out: nothing while stopped.
    pub open spec fn frame(self, tick: nat, c: Chances) -> Option<Frame> {
        if self.playing {
            Some(self.arrangement.frame(tick, c))
        } else {
            None
        }
    }

    /// The session after the first `count` of the given ticks.
    pub open spec fn after_ticks(self, ticks: Seq<nat>, chances: Seq<Chances>, count: nat)
        -> SessionState
        decreases count,
    {
        if count == 0 {
            self
        } else {
            self.after_ticks(ticks, chances, (count - 1) as nat).after_tick(
                ticks[count - 1],
                chances[count - 1],
            )
        }
    }
}

/// Stopping a session, letting any number of ticks pass and starting it
/// again leaves every cursor and every stored pitch where it was.
pub proof fn lemma_pause_keeps_the_phase(
    s: SessionState,
    ticks: Seq<nat>,
    chances: Seq<Chances>,
    count: nat,
)
    ensures
        s.stopped().after_ticks(ticks, chances, count) == s.stopped(),
        s.stopped().after_ticks(ticks, chances, count).started().arrangement == s.arrangement,
    decreases count,
{
    if count > 0 {
        lemma_pause_keeps_the_phase(s, ticks, chances, (count - 1) as nat);
    }
}

/// A piece together with its play/pause switch.
pub struct Session {
    arrangement: Arrangement,
    playing: bool,
}

impl View for Session {
    type V = SessionState;

    closed spec fn view(&self) -> SessionState {
        SessionState { arrangement: self.arrangement@, playing: self.playing }
    }
}

impl Session {
    /// The invariant that every operation keeps.
    pub open spec fn wf(&self) -> bool {
        self@.wf()
    }

    /// A session that plays `arrangement`, sounding from the start.
    pub fn new(arrangement: Arrangement) -> (session: Session)
        requires
            arrangement.wf(),
        ensures
            session.wf(),
            session@ == (SessionState { arrangement: arrangement@, playing: true }),
    {
        Session { arrangement, playing: true }
    }

    /// Resumes the piece where it stands.
    pub fn start(&mut self)
        ensures
            final(self)@ == old(self)@.started(),
    {
        self.playing = true;
    }

    /// Silences the piece and keeps its state.
    pub fn stop(&mut self)
        ensures
            final(self)@ == old(self)@.stopped(),
    {
        self.playing = false;
    }

    /// Whether the piece is sounding.
    pub fn is_playing(&self) -> (playing: bool)
        ensures
            playing == self@.playing,
    {
        self.playing
    }

    /// The piece, to read its voices' pitches.
    pub fn arrangement(&self) -> (arrangement: &Arrangement)
        ensures
            arrangement@ == self@.arrangement,
    {
        &self.arrangement
    }

    /// Plays the tick at `tick` if the piece is sounding. While it is
    /// stopped the tick gives nothing and changes nothing, and no source is
    /// asked.
    pub fn render<R: RandomSource, A: PitchSource, P: PitchSource>(
        &mut self,
        tick: u64,
        chance: &mut R,
        anchor: &mut A,
        palette: &mut P,
    ) -> (frame: Option<Frame>)
        requires
            old(self).wf(),
        ensures
            final(self).wf(),
            frame is Some <==> old(self)@.playing,
            !old(self)@.playing ==> final(self)@ == old(self)@ && *final(chance) == *old(chance)
                && *final(anchor) == *old(anchor) && *final(palette) == *old(palette),
            exists|c: Chances|
                {
                    &&& final(self)@ == #[trigger] old(self)@.after_tick(tick as nat, c)
                    &&& frame == old(self)@.frame(tick as nat, c)
                    &&& old(self)@.arrangement.allows(tick as nat, c)
                },
    {
        if self.playing {
            let frame = self.arrangement.advance(tick, chance, anchor, palette);
            proof {
                let c = choose|c: Chances|
                    {
                        &&& self.arrangement@ == #[trigger] old(self).arrangement@.after_tick(
                            tick as nat,
                            c,
                        )
                        &&& frame == old(self).arrangement@.frame(tick as nat, c)
                        &&& old(self).arrangement@.allows(tick as nat, c)
                    };
                assert(self@ == old(self)@.after_tick(tick as nat, c));
            }
            Some(frame)
        } else {
            proof {
                let c = quiet_chances(old(self)@.arrangement, tick as nat);
                assert(self@ == old(self)@.after_tick(tick as nat, c));
            }
            None
        }
    }
}

/// Decisions that every arrangement allows whatever its probabilities: each
/// chance succeeds exactly when it is certain.
pub open spec fn quiet_chances(a: ArrangementState, tick: nat) -> Chances {
    Chances {
        skipped: a.skip >= crate::chance::DRAW_SPAN && a.melody_divider.passes(a.beat(tick)),
        draws: crate::melody::Draws {
            replace: a.replace >= crate::chance::DRAW_SPAN,
            anchor_hit: a.anchor >= crate::chance::DRAW_SPAN,
            anchor: 0,
            fresh: 0,
        },
    }
}

} // verus!
