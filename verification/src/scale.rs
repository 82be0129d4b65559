use vstd::prelude::*;
use crate::error::BuildError;

verus! {

/// `base` raised by `times` octaves: doubled that many times.
pub open spec fn doubled(base: nat, times: nat) -> nat
    decreases times,
{
    if times == 0 {
        base
    } else {
        2 * doubled(base, (times - 1) as nat)
    }
}

/// The distance between two frequencies.
pub open spec fn distance(a: nat, b: nat) -> nat {
    if a >= b {
        (a - b) as nat
    } else {
        (b - a) as nat
    }
}

/// Whether `q` is at least as good a choice for `target` as `other`: nearer,
/// or as near and not higher.
pub open spec fn no_worse(q: nat, other: nat, target: nat) -> bool {
    distance(q, target) < distance(other, target) || (distance(q, target) == distance(
        other,
        target,
    ) && q <= other)
}

/// Raising by more octaves never lowers a frequency.
pub proof fn lemma_doubled_grows(base: nat, fewer: nat, more: nat)
    requires
        fewer <= more,
    ensures
        doubled(base, fewer) <= doubled(base, more),
    decreases more,
{
    if fewer < more {
        lemma_doubled_grows(base, fewer, (more - 1) as nat);
    }
}

/// A scale, as mathematics: the frequencies of its degrees in the lowest
/// octave, and the number of octaves over which they are repeated.
pub struct ScaleModel {
    pub bases: Seq<u64>,
    pub octaves: nat,
}

impl ScaleModel {
    /// Some degree has the frequency zero.
    pub open spec fn has_zero(self) -> bool {
        exists|i: int| 0 <= i < self.bases.len() && #[trigger] self.bases[i] == 0
    }

    /// Two degrees have the same frequency.
    pub open spec fn has_duplicate(self) -> bool {
        exists|i: int, j: int|
            0 <= i < j < self.bases.len() && #[trigger] self.bases[i] == #[trigger] self.bases[j]
    }

    /// Some degree leaves the frequency range in the highest octave.
    pub open spec fn overflows(self) -> bool {
        exists|i: int|
            0 <= i < self.bases.len() && doubled(
                #[trigger] self.bases[i] as nat,
                (self.octaves - 1) as nat,
            ) > u64::MAX
    }

    /// Why these parameters make no scale, if they make none. The reasons
    /// are tested in this order.
    pub open spec fn defect(self) -> Option<BuildError> {
        if self.bases.len() == 0 {
            Some(BuildError::EmptyScale)
        } else if self.octaves == 0 {
            Some(BuildError::NoOctaves)
        } else if self.has_zero() {
            Some(BuildError::ZeroFrequency)
        } else if self.has_duplicate() {
            Some(BuildError::DuplicateDegree)
        } else if self.overflows() {
            Some(BuildError::FrequencyOverflow)
        } else {
            None
        }
    }

    /// The invariant that every operation keeps.
    pub open spec fn wf(self) -> bool {
        self.defect() is None
    }

    /// The frequency of degree `degree` in octave `octave`, counted from the
    /// lowest.
    pub open spec fn note(self, degree: int, octave: nat) -> nat {
        doubled(self.bases[degree] as nat, octave)
    }

    /// Whether `degree` and `octave` name a note of the scale.
    pub open spec fn in_range(self, degree: int, octave: nat) -> bool {
        0 <= degree < self.bases.len() && octave < self.octaves
    }

    /// Whether `frequency` is a note of the scale.
    pub open spec fn is_member(self, frequency: nat) -> bool {
        exists|degree: int, octave: nat|
            self.in_range(degree, octave) && #[trigger] self.note(degree, octave) == frequency
    }

    /// Whether `q` is the note of the scale nearest to `target`, the lower
    /// one of two that are equally near.
    pub open spec fn is_nearest(self, q: nat, target: nat) -> bool {
        &&& self.is_member(q)
        &&& forall|degree: int, octave: nat|
            self.in_range(degree, octave) ==> no_worse(
                q,
                #[trigger] self.note(degree, octave),
                target,
            )
    }
}

/// The nearest note is determined: two notes that both qualify are the same.
pub proof fn lemma_nearest_is_unique(scale: ScaleModel, first: nat, second: nat, target: nat)
    requires
        scale.is_nearest(first, target),
        scale.is_nearest(second, target),
    ensures
        first == second,
{
    let (d1, o1) = choose|degree: int, octave: nat|
        scale.in_range(degree, octave) && #[trigger] scale.note(degree, octave) == first;
    let (d2, o2) = choose|degree: int, octave: nat|
        scale.in_range(degree, octave) && #[trigger] scale.note(degree, octave) == second;
    assert(no_worse(first, scale.note(d2, o2), target));
    assert(no_worse(second, scale.note(d1, o1), target));
}

/// A frequency that is itself a note of the scale is its own nearest note.
pub proof fn lemma_member_is_kept(scale: ScaleModel, q: nat, target: nat)
    requires
        scale.is_nearest(q, target),
        scale.is_member(target),
    ensures
        q == target,
{
    let (d, o) = choose|degree: int, octave: nat|
        scale.in_range(degree, octave) && #[trigger] scale.note(degree, octave) == target;
    assert(no_worse(q, scale.note(d, o), target));
}

/// A musical scale over a bounded range of octaves, to which frequencies
/// are snapped. Frequencies are whole numbers of the caller's unit.
pub struct Scale {
    bases: Vec<u64>,
    octaves: u32,
}

impl View for Scale {
    type V = ScaleModel;

    closed spec fn view(&self) -> ScaleModel {
        ScaleModel { bases: self.bases@, octaves: self.octaves as nat }
    }
}

impl Scale {
    /// The invariant that every operation keeps.
    pub open spec fn wf(&self) -> bool {
        self@.wf()
    }

    /// The scale whose degrees have the frequencies `bases` in its lowest
    /// octave and that spans `octaves` octaves. It is refused if it has no
    /// degree or no octave, if a degree is zero or occurs twice, or if a
    /// degree's highest octave does not fit in 64 bits.
    pub fn new(bases: Vec<u64>, octaves: u32) -> (made: Result<Scale, BuildError>)
        ensures
            match made {
                Ok(scale) => {
                    &&& scale.wf()
                    &&& scale@ == (ScaleModel { bases: bases@, octaves: octaves as nat })
                },
                Err(e) => (ScaleModel { bases: bases@, octaves: octaves as nat }).defect() == Some(
                    e,
                ),
            },
    {
        let ghost model = ScaleModel { bases: bases@, octaves: octaves as nat };
        let count = bases.len();
        if count == 0 {
            return Err(BuildError::EmptyScale);
        }
        if octaves == 0 {
            return Err(BuildError::NoOctaves);
        }
        let mut i: usize = 0;
        while i < count
            invariant
                i <= count,
                count == bases@.len(),
                count > 0,
                octaves >= 1,
                model == (ScaleModel { bases: bases@, octaves: octaves as nat }),
                forall|j: int| 0 <= j < i ==> bases@[j] != 0,
            decreases count - i,
        {
            if bases[i] == 0 {
                assert(model.bases[i as int] == 0);
                return Err(BuildError::ZeroFrequency);
            }
            i += 1;
        }
        assert(!model.has_zero());
        let mut i: usize = 0;
        while i < count
            invariant
                i <= count,
                count == bases@.len(),
                count > 0,
                octaves >= 1,
                model == (ScaleModel { bases: bases@, octaves: octaves as nat }),
                !model.has_zero(),
                forall|a: int, b: int| 0 <= a < b < count && a < i ==> bases@[a] != bases@[b],
            decreases count - i,
        {
            let mut j: usize = i + 1;
            while j < count
                invariant
                    i < j <= count,
                    count == bases@.len(),
                    octaves >= 1,
                    model == (ScaleModel { bases: bases@, octaves: octaves as nat }),
                    !model.has_zero(),
                    forall|b: int| i < b < j ==> bases@[i as int] != bases@[b],
                decreases count - j,
            {
                if bases[i] == bases[j] {
                    assert(model.bases[i as int] == model.bases[j as int]);
                    return Err(BuildError::DuplicateDegree);
                }
                j += 1;
            }
            i += 1;
        }
        assert(!model.has_duplicate());
        let mut i: usize = 0;
        while i < count
            invariant
                i <= count,
                count == bases@.len(),
                count > 0,
                octaves >= 1,
                model == (ScaleModel { bases: bases@, octaves: octaves as nat }),
                !model.has_zero(),
                !model.has_duplicate(),
                forall|j: int| 0 <= j < i ==> doubled(bases@[j] as nat, (octaves - 1) as nat)
                    <= u64::MAX,
            decreases count - i,
        {
            let mut note: u64 = bases[i];
            let mut octave: u32 = 0;
            while octave + 1 < octaves
                invariant
                    i < count,
                    count == bases@.len(),
                    octave < octaves,
                    note == doubled(bases@[i as int] as nat, octave as nat),
                    model == (ScaleModel { bases: bases@, octaves: octaves as nat }),
                    !model.has_zero(),
                    !model.has_duplicate(),
                decreases octaves - octave,
            {
                if note > u64::MAX / 2 {
                    proof {
                        lemma_doubled_grows(
                            bases@[i as int] as nat,
                            (octave + 1) as nat,
                            (octaves - 1) as nat,
                        );
                        assert(doubled(model.bases[i as int] as nat, (model.octaves - 1) as nat)
                            > u64::MAX);
                    }
                    return Err(BuildError::FrequencyOverflow);
                }
                note = note * 2;
                octave += 1;
            }
            i += 1;
        }
        assert(!model.overflows());
        Ok(Scale { bases, octaves })
    }

    /// The number of degrees.
    pub fn degrees(&self) -> (n: usize)
        ensures
            n == self@.bases.len(),
    {
        self.bases.len()
    }

    /// The number of octaves.
    pub fn octaves(&self) -> (n: u32)
        ensures
            n == self@.octaves,
    {
        self.octaves
    }

    /// Snaps `frequency` to the nearest note of the scale, the lower one of
    /// two that are equally near.
    pub fn quantize(&self, frequency: u64) -> (q: u64)
        requires
            self.wf(),
        ensures
            self@.is_nearest(q as nat, frequency as nat),
    {
        let ghost model = self@;
        let ghost target = frequency as nat;
        let count = self.bases.len();
        let mut best: u64 = self.bases[0];
        let mut best_gap: u64 = gap(best, frequency);
        assert(model.note(0, 0) == best);
        let mut i: usize = 0;
        while i < count
            invariant
                i <= count,
                count == self.bases@.len(),
                model == self@,
                target == frequency as nat,
                self.wf(),
                model.is_member(best as nat),
                best_gap == distance(best as nat, target),
                forall|degree: int, octave: nat|
                    model.in_range(degree, octave) && degree < i ==> no_worse(
                        best as nat,
                        #[trigger] model.note(degree, octave),
                        target,
                    ),
            decreases count - i,
        {
            let mut note: u64 = self.bases[i];
            let mut octave: u32 = 0;
            while octave < self.octaves
                invariant
                    i < count,
                    count == self.bases@.len(),
                    model == self@,
                    target == frequency as nat,
                    self.wf(),
                    octave <= self.octaves,
                    octave < self.octaves ==> note == model.note(i as int, octave as nat),
                    model.is_member(best as nat),
                    best_gap == distance(best as nat, target),
                    forall|degree: int, o: nat|
                        model.in_range(degree, o) && (degree < i || (degree == i && o < octave))
                            ==> no_worse(best as nat, #[trigger] model.note(degree, o), target),
                decreases self.octaves - octave,
            {
                let note_gap = gap(note, frequency);
                if note_gap < best_gap || (note_gap == best_gap && note < best) {
                    best = note;
                    best_gap = note_gap;
                    assert(model.in_range(i as int, octave as nat));
                }
                if octave + 1 < self.octaves {
                    proof {
                        assert(doubled(model.bases[i as int] as nat, (model.octaves - 1) as nat)
                            <= u64::MAX);
                        lemma_doubled_grows(
                            model.bases[i as int] as nat,
                            (octave + 1) as nat,
                            (model.octaves - 1) as nat,
                        );
                    }
                    note = note * 2;
                }
                octave += 1;
            }
            i += 1;
        }
        best
    }
}

/// The distance between two frequencies.
fn gap(a: u64, b: u64) -> (d: u64)
    ensures
        d == distance(a as nat, b as nat),
{
    if a >= b {
        a - b
    } else {
        b - a
    }
}

} // verus!
