use vstd::prelude::*;
use crate::chance::{Probability, RandomSource, DRAW_SPAN};
use crate::cycle::{lemma_count_reaches_remainder, lemma_step_wraps, lemma_succ_mod, step_round};
use crate::error::BuildError;

verus! {

/// A supply of pitches, asked only when one is needed. Nothing is promised of
/// the values: every caller is verified for whatever comes back.
pub trait PitchSource {
    /// The next pitch, as a frequency in the caller's unit.
    fn next_pitch(&mut self) -> u64;
}

/// A source that always gives the same pitch.
#[derive(Clone, Copy, Debug)]
pub struct Steady {
    pub pitch: u64,
}

impl PitchSource for Steady {
    fn next_pitch(&mut self) -> (pitch: u64)
        ensures
            pitch == old(self).pitch,
            *final(self) == *old(self),
    {
        self.pitch
    }
}

/// What one trigger of a melodic loop is decided by: the two chance
/// decisions and the pitches on offer. A field that the trigger has no use
/// for is ignored.
#[derive(Clone, Copy, Debug)]
pub struct Draws {
    /// Whether the slot under the cursor is overwritten before it is played.
    pub replace: bool,
    /// Whether this pass plays the anchor at position 0; read only there.
    pub anchor_hit: bool,
    /// The anchor pitch at this moment.
    pub anchor: u64,
    /// The next pitch of the palette.
    pub fresh: u64,
}

/// The state of a melodic loop, as mathematics.
pub struct LoopState {
    /// One entry per position: empty, or the pitch stored there.
    pub slots: Seq<Option<u64>>,
    /// The position that the next trigger plays.
    pub cursor: nat,
    /// Whether the pass that is under way plays the anchor at position 0.
    pub anchoring: bool,
    /// Whether no trigger has been received yet.
    pub bootstrapping: bool,
    /// The pitch given out at the latest trigger, if there was one.
    pub held: Option<u64>,
}

impl LoopState {
    /// The invariant that every operation keeps.
    pub open spec fn wf(self) -> bool {
        &&& self.slots.len() >= 1
        &&& self.cursor < self.slots.len()
    }

    /// The loop of `length` empty positions that has not been triggered.
    pub open spec fn initial(length: nat) -> LoopState {
        LoopState {
            slots: Seq::new(length, |i: int| None::<u64>),
            cursor: 0,
            anchoring: false,
            bootstrapping: true,
            held: None,
        }
    }

    /// Whether a trigger decided by `d` plays the anchor: on the very first
    /// trigger, and at position 0 when the anchor decision succeeded.
    pub open spec fn plays_anchor(self, d: Draws) -> bool {
        self.bootstrapping || (self.cursor == 0 && d.anchor_hit)
    }

    /// Whether a trigger decided by `d` takes a pitch from the palette: to
    /// replace the slot, or to fill an empty slot that is about to be played.
    pub open spec fn takes_fresh(self, d: Draws) -> bool {
        d.replace || (!self.plays_anchor(d) && self.slots[self.cursor as int] is None)
    }

    /// The pitch given out by a trigger decided by `d`.
    pub open spec fn emitted(self, d: Draws) -> u64 {
        if self.plays_anchor(d) {
            d.anchor
        } else if d.replace {
            d.fresh
        } else {
            match self.slots[self.cursor as int] {
                Some(stored) => stored,
                None => d.fresh,
            }
        }
    }

    /// The state that a trigger decided by `d` leaves behind.
    pub open spec fn after_trigger(self, d: Draws) -> LoopState {
        LoopState {
            slots: if self.takes_fresh(d) {
                self.slots.update(self.cursor as int, Some(d.fresh))
            } else {
                self.slots
            },
            cursor: step_round(self.cursor, self.slots.len()),
            anchoring: if self.cursor == 0 { d.anchor_hit } else { self.anchoring },
            bootstrapping: false,
            held: Some(self.emitted(d)),
        }
    }

    /// The state after the first `count` triggers of `draws`.
    pub open spec fn after_run(self, draws: Seq<Draws>, count: nat) -> LoopState
        decreases count,
    {
        if count == 0 {
            self
        } else {
            self.after_run(draws, (count - 1) as nat).after_trigger(draws[count - 1])
        }
    }

    /// The pitch given out at trigger number `index` of `draws`, counted from 0.
    pub open spec fn run_output(self, draws: Seq<Draws>, index: nat) -> u64 {
        self.after_run(draws, index).emitted(draws[index as int])
    }
}

/// The position whose first filling a calm loop keeps repeating at trigger
/// number `index` (counted from 0, `index >= 1`): position `index % length`
/// is first played at trigger `index % length`, position 0 at trigger `length`.
pub open spec fn first_visit(index: nat, length: nat) -> nat {
    if index % length == 0 {
        length
    } else {
        index % length
    }
}

/// A run in which no chance decision ever succeeds.
pub open spec fn calm(draws: Seq<Draws>) -> bool {
    forall|i: int| 0 <= i < draws.len() ==> !(#[trigger] draws[i]).replace && !draws[i].anchor_hit
}

/// The melodic loop: a ring of stored pitches that a trigger plays one
/// position at a time, replacing or anchoring as chance decides.
pub struct ReplaceLoop {
    slots: Vec<Option<u64>>,
    cursor: usize,
    anchoring: bool,
    bootstrapping: bool,
    held: Option<u64>,
}

impl View for ReplaceLoop {
    type V = LoopState;

    closed spec fn view(&self) -> LoopState {
        LoopState {
            slots: self.slots@,
            cursor: self.cursor as nat,
            anchoring: self.anchoring,
            bootstrapping: self.bootstrapping,
            held: self.held,
        }
    }
}

impl ReplaceLoop {
    /// The invariant that every operation keeps.
    pub open spec fn wf(&self) -> bool {
        self@.wf()
    }

    /// A loop of `length` empty positions; a loop without positions is refused.
    pub fn new(length: usize) -> (made: Result<ReplaceLoop, BuildError>)
        ensures
            length == 0 <==> made is Err,
            made matches Err(e) ==> e == BuildError::ZeroLength,
            made matches Ok(l) ==> l.wf() && l@ == LoopState::initial(length as nat),
    {
        if length == 0 {
            return Err(BuildError::ZeroLength);
        }
        let mut slots: Vec<Option<u64>> = Vec::new();
        let mut i: usize = 0;
        while i < length
            invariant
                i <= length,
                slots@.len() == i,
                forall|j: int| 0 <= j < i ==> slots@[j] == None::<u64>,
            decreases length - i,
        {
            slots.push(None);
            i += 1;
        }
        let made = ReplaceLoop { slots, cursor: 0, anchoring: false, bootstrapping: true, held: None };
        assert(made@.slots =~= LoopState::initial(length as nat).slots);
        Ok(made)
    }

    /// The number of positions.
    pub fn length(&self) -> (n: usize)
        ensures
            n == self@.slots.len(),
    {
        self.slots.len()
    }

    /// The position that the next trigger plays.
    pub fn cursor(&self) -> (c: usize)
        ensures
            c == self@.cursor,
    {
        self.cursor
    }

    /// What is stored at `position`; `None` for an empty slot and for a
    /// position outside the loop.
    pub fn slot(&self, position: usize) -> (stored: Option<u64>)
        ensures
            stored == if position < self@.slots.len() {
                self@.slots[position as int]
            } else {
                None
            },
    {
        if position < self.slots.len() {
            self.slots[position]
        } else {
            None
        }
    }

    /// Whether the pass under way plays the anchor at position 0.
    pub fn anchor_active(&self) -> (a: bool)
        ensures
            a == self@.anchoring,
    {
        self.anchoring
    }

    /// Whether no trigger has been received yet.
    pub fn is_bootstrapping(&self) -> (b: bool)
        ensures
            b == self@.bootstrapping,
    {
        self.bootstrapping
    }

    /// The pitch given out at the latest trigger, if there was one.
    pub fn held(&self) -> (h: Option<u64>)
        ensures
            h == self@.held,
    {
        self.held
    }

    /// Whether the next trigger would play the anchor, given its anchor decision.
    pub fn wants_anchor(&self, anchor_hit: bool) -> (w: bool)
        ensures
            forall|d: Draws| d.anchor_hit == anchor_hit ==> w == #[trigger] self@.plays_anchor(d),
    {
        self.bootstrapping || (self.cursor == 0 && anchor_hit)
    }

    /// Whether the next trigger would take a pitch from the palette, given
    /// its two decisions.
    pub fn wants_fresh(&self, replace: bool, anchor_hit: bool) -> (w: bool)
        requires
            self.wf(),
        ensures
            forall|d: Draws|
                d.replace == replace && d.anchor_hit == anchor_hit ==> w
                    == #[trigger] self@.takes_fresh(d),
    {
        replace || (!(self.bootstrapping || (self.cursor == 0 && anchor_hit))
            && self.slots[self.cursor].is_none())
    }

    /// Plays one trigger as `d` decides: replaces, anchors, gives out the
    /// pitch, fills an empty slot that it plays, and moves on by one position.
    pub fn trigger(&mut self, d: Draws) -> (pitch: u64)
        requires
            old(self).wf(),
        ensures
            final(self).wf(),
            final(self)@ == old(self)@.after_trigger(d),
            pitch == old(self)@.emitted(d),
    {
        let position = self.cursor;
        let length = self.slots.len();
        let anchored = self.bootstrapping || (position == 0 && d.anchor_hit);
        if d.replace {
            self.slots.set(position, Some(d.fresh));
        }
        if position == 0 {
            self.anchoring = d.anchor_hit;
        }
        let pitch = if anchored {
            d.anchor
        } else {
            match self.slots[position] {
                Some(stored) => stored,
                None => {
                    self.slots.set(position, Some(d.fresh));
                    d.fresh
                },
            }
        };
        self.cursor = if position + 1 == length { 0 } else { position + 1 };
        self.bootstrapping = false;
        self.held = Some(pitch);
        proof {
            lemma_step_wraps(position as nat, length as nat);
            assert(self@.slots =~= old(self)@.after_trigger(d).slots);
        }
        pitch
    }

    /// One sample of the loop's output. Without a trigger the pitch of the
    /// latest trigger is held (the anchor, before the first trigger). With
    /// one, the decisions are drawn from `chance` against the two
    /// probabilities, the pitches are taken from `anchor` and `palette` only
    /// where the trigger needs them, and the trigger is played.
    pub fn sample<R: RandomSource, A: PitchSource, P: PitchSource>(
        &mut self,
        fired: bool,
        replace_probability: Probability,
        anchor_probability: Probability,
        chance: &mut R,
        anchor: &mut A,
        palette: &mut P,
    ) -> (pitch: u64)
        requires
            old(self).wf(),
        ensures
            final(self).wf(),
            !fired ==> final(self)@ == old(self)@,
            !fired ==> *final(palette) == *old(palette) && *final(chance) == *old(chance),
            !fired ==> (old(self)@.held matches Some(h) ==> pitch == h && *final(anchor)
                == *old(anchor)),
            fired ==> exists|d: Draws|
                {
                    &&& final(self)@ == #[trigger] old(self)@.after_trigger(d)
                    &&& pitch == old(self)@.emitted(d)
                    &&& replace_probability@ == 0 ==> !d.replace
                    &&& replace_probability@ >= DRAW_SPAN ==> d.replace
                    &&& anchor_probability@ == 0 ==> !d.anchor_hit
                    &&& anchor_probability@ >= DRAW_SPAN && old(self)@.cursor == 0 ==> d.anchor_hit
                    &&& !old(self)@.takes_fresh(d) ==> *final(palette) == *old(palette)
                    &&& !old(self)@.plays_anchor(d) ==> *final(anchor) == *old(anchor)
                },
    {
        if !fired {
            return match self.held {
                Some(h) => h,
                None => anchor.next_pitch(),
            };
        }
        let replace = replace_probability.decides(chance.next_raw());
        let anchor_hit = if self.cursor == 0 {
            anchor_probability.decides(chance.next_raw())
        } else {
            false
        };
        let fresh = if self.wants_fresh(replace, anchor_hit) {
            palette.next_pitch()
        } else {
            0
        };
        let anchor_pitch = if self.wants_anchor(anchor_hit) {
            anchor.next_pitch()
        } else {
            0
        };
        let d = Draws { replace, anchor_hit, anchor: anchor_pitch, fresh };
        self.trigger(d)
    }
}

/// The trigger at which a calm loop, started empty, first plays position
/// `position`: position 0 is passed over by the opening anchor and is first
/// played one pass later.
pub open spec fn first_played(position: nat, length: nat) -> nat {
    if position == 0 {
        length
    } else {
        position
    }
}

/// What a loop started empty looks like after `count >= 1` calm triggers: the
/// cursor has gone round with the count, and each position that has been
/// played holds the pitch of its first playing.
proof fn lemma_calm_state(length: nat, draws: Seq<Draws>, count: nat)
    requires
        length >= 1,
        calm(draws),
        1 <= count <= draws.len(),
    ensures
        ({
            let s = LoopState::initial(length).after_run(draws, count);
            &&& s.wf()
            &&& s.slots.len() == length
            &&& s.cursor == count % length
            &&& !s.bootstrapping
            &&& forall|j: int|
                0 <= j < length ==> #[trigger] s.slots[j] == if first_played(j as nat, length)
                    < count {
                    Some(draws[first_played(j as nat, length) as int].fresh)
                } else {
                    None
                }
        }),
    decreases count,
{
    let start = LoopState::initial(length);
    if count == 1 {
        assert(start.after_run(draws, 0) == start);
        assert(!draws[0].replace && !draws[0].anchor_hit);
        lemma_step_wraps(0, length);
        lemma_count_reaches_remainder(1, length);
    } else {
        let before = (count - 1) as nat;
        lemma_calm_state(length, draws, before);
        let s = start.after_run(draws, before);
        let d = draws[before as int];
        assert(!d.replace && !d.anchor_hit);
        lemma_succ_mod(before, length);
        lemma_step_wraps(before % length, length);
        lemma_count_reaches_remainder(before, length);
        let t = s.after_trigger(d);
        assert forall|j: int| 0 <= j < length implies #[trigger] t.slots[j] == if first_played(
            j as nat,
            length,
        ) < count {
            Some(draws[first_played(j as nat, length) as int].fresh)
        } else {
            None
        } by {
            assert(s.slots[j] == if first_played(j as nat, length) < before {
                Some(draws[first_played(j as nat, length) as int].fresh)
            } else {
                None
            });
        }
    }
}

/// With both probabilities at zero a loop started empty gives out the anchor
/// at its first trigger and from then on, at each trigger, the palette pitch
/// with which the position under the cursor was first filled.
pub proof fn lemma_calm_run_outputs(length: nat, draws: Seq<Draws>, index: nat)
    requires
        length >= 1,
        calm(draws),
        index < draws.len(),
    ensures
        index == 0 ==> LoopState::initial(length).run_output(draws, index) == draws[0].anchor,
        index >= 1 ==> first_visit(index, length) <= index && LoopState::initial(
            length,
        ).run_output(draws, index) == draws[first_visit(index, length) as int].fresh,
        index >= 1 ==> (LoopState::initial(length).after_run(draws, index).takes_fresh(
            draws[index as int],
        ) <==> index <= length),
{
    let start = LoopState::initial(length);
    let d = draws[index as int];
    assert(!d.replace && !d.anchor_hit);
    if index == 0 {
        assert(start.after_run(draws, 0) == start);
    } else {
        lemma_calm_state(length, draws, index);
        lemma_count_reaches_remainder(index, length);
        let s = start.after_run(draws, index);
        let c = index % length;
        assert(s.cursor == c);
        assert(first_played(c, length) == first_visit(index, length));
    }
}

/// With both probabilities at zero the pitches given out after the first
/// trigger repeat every `length` triggers.
pub proof fn lemma_calm_run_repeats(length: nat, draws: Seq<Draws>, index: nat)
    requires
        length >= 1,
        calm(draws),
        index >= 1,
        index + length < draws.len(),
    ensures
        LoopState::initial(length).run_output(draws, index + length) == LoopState::initial(
            length,
        ).run_output(draws, index),
{
    lemma_calm_run_outputs(length, draws, index);
    lemma_calm_run_outputs(length, draws, index + length);
    vstd::arithmetic::div_mod::lemma_mod_add_multiples_vanish(index as int, length as int);
}

/// A trigger whose replace decision succeeds stores the fresh palette pitch
/// under the cursor and gives out that pitch, unless it plays the anchor.
pub proof fn lemma_replaced_slot_is_fresh(s: LoopState, d: Draws)
    requires
        s.wf(),
        d.replace,
    ensures
        s.takes_fresh(d),
        s.after_trigger(d).slots[s.cursor as int] == Some(d.fresh),
        s.emitted(d) == if s.plays_anchor(d) { d.anchor } else { d.fresh },
{
}

/// After its first trigger a loop is past its opening, whatever was drawn.
pub proof fn lemma_opening_ends(start: LoopState, draws: Seq<Draws>, count: nat)
    requires
        start.wf(),
        count <= draws.len(),
    ensures
        start.after_run(draws, count).wf(),
        start.after_run(draws, count).slots.len() == start.slots.len(),
        count >= 1 ==> !start.after_run(draws, count).bootstrapping,
    decreases count,
{
    if count > 0 {
        lemma_opening_ends(start, draws, (count - 1) as nat);
        let s = start.after_run(draws, (count - 1) as nat);
        lemma_step_wraps(s.cursor, s.slots.len());
    }
}

/// With the replace probability at one no pitch given out after the first
/// trigger is a stored one: each is the palette pitch drawn at that very
/// trigger, or the anchor at position 0 when the anchor decision succeeded.
pub proof fn lemma_certain_replacement_is_never_stale(
    length: nat,
    draws: Seq<Draws>,
    index: nat,
)
    requires
        length >= 1,
        forall|i: int| 0 <= i < draws.len() ==> (#[trigger] draws[i]).replace,
        1 <= index < draws.len(),
    ensures
        ({
            let s = LoopState::initial(length).after_run(draws, index);
            let d = draws[index as int];
            &&& s.takes_fresh(d)
            &&& s.after_trigger(d).slots[s.cursor as int] == Some(d.fresh)
            &&& s.emitted(d) == if s.cursor == 0 && d.anchor_hit {
                d.anchor
            } else {
                d.fresh
            }
        }),
{
    lemma_opening_ends(LoopState::initial(length), draws, index);
    assert(draws[index as int].replace);
}

/// A trigger moves the cursor on by one position round the loop, keeps the
/// length, leaves every other position as it was, and leaves a filled
/// position under the cursor as it was unless the replace decision succeeds.
pub proof fn lemma_trigger_keeps_the_rest(s: LoopState, d: Draws)
    requires
        s.wf(),
    ensures
        s.after_trigger(d).wf(),
        s.after_trigger(d).slots.len() == s.slots.len(),
        s.after_trigger(d).cursor == (s.cursor + 1) as int % (s.slots.len() as int),
        forall|j: int|
            0 <= j < s.slots.len() && j != s.cursor ==> #[trigger] s.after_trigger(d).slots[j]
                == s.slots[j],
        !d.replace && s.slots[s.cursor as int] is Some ==> s.after_trigger(d).slots == s.slots,
{
    lemma_step_wraps(s.cursor, s.slots.len());
}

} // verus!
