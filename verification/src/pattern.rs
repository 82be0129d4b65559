use vstd::prelude::*;
use crate::cycle::{firings, lemma_step_wraps, lemma_succ_mod, step_round};
use crate::error::BuildError;

verus! {

/// The number of channels that one pattern mask can address.
pub const MASK_BITS: usize = 8;

/// The cymbal's channel in the drum pattern.
pub const CYMBAL: usize = 0;

/// The snare's channel in the drum pattern.
pub const SNARE: usize = 1;

/// The kick's channel in the drum pattern.
pub const KICK: usize = 2;

/// Whether bit number `channel` of `mask` is set.
pub open spec fn bit_set(mask: u8, channel: nat) -> bool {
    channel < 8 && mask & (1u8 << (channel as u8)) != 0
}

/// The mask whose set bits are the channels below `channels`.
pub open spec fn channel_mask(channels: nat) -> u8 {
    if channels >= 8 {
        0xffu8
    } else {
        ((1u8 << (channels as u8)) - 1) as u8
    }
}

/// Whether bit number `channel` of `mask` is set.
pub fn channel_fired(mask: u8, channel: usize) -> (set: bool)
    ensures
        set == bit_set(mask, channel as nat),
{
    if channel < 8 {
        let c = channel as u8;
        mask & (1u8 << c) != 0
    } else {
        false
    }
}

/// The state of a pattern demultiplexer, as mathematics.
pub struct PatternState {
    /// One mask per step: bit `c` says whether channel `c` fires on that step.
    pub table: Seq<u8>,
    /// The number of output channels.
    pub channels: nat,
    /// The step that the next input firing plays.
    pub cursor: nat,
}

impl PatternState {
    /// The invariant that every operation keeps.
    pub open spec fn wf(self) -> bool {
        &&& self.table.len() >= 1
        &&& self.channels <= 8
        &&& self.cursor < self.table.len()
    }

    /// The demultiplexer over `table` that has seen no firing.
    pub open spec fn fresh(table: Seq<u8>, channels: nat) -> PatternState {
        PatternState { table, channels, cursor: 0 }
    }

    /// Whether channel `channel` fires on this sample.
    pub open spec fn fires(self, fired: bool, channel: nat) -> bool {
        fired && channel < self.channels && bit_set(self.table[self.cursor as int], channel)
    }

    /// The channels that fire on this sample, as a mask.
    pub open spec fn emitted(self, fired: bool) -> u8 {
        if fired {
            self.table[self.cursor as int] & channel_mask(self.channels)
        } else {
            0u8
        }
    }

    /// The state after this sample.
    pub open spec fn after(self, fired: bool) -> PatternState {
        if fired {
            PatternState {
                table: self.table,
                channels: self.channels,
                cursor: step_round(self.cursor, self.table.len()),
            }
        } else {
            self
        }
    }

    /// The state after the first `count` samples of `inputs`.
    pub open spec fn after_run(self, inputs: Seq<bool>, count: nat) -> PatternState
        decreases count,
    {
        if count == 0 {
            self
        } else {
            self.after_run(inputs, (count - 1) as nat).after(inputs[count - 1])
        }
    }

    /// The mask given out on sample number `index` of `inputs`.
    pub open spec fn run_output(self, inputs: Seq<bool>, index: nat) -> u8 {
        self.after_run(inputs, index).emitted(inputs[index as int])
    }
}

/// A mask cut down to the channels below `channels` keeps exactly the bits
/// of those channels.
pub proof fn lemma_masked_bits(mask: u8, channels: nat, channel: nat)
    requires
        channels <= 8,
    ensures
        bit_set(mask & channel_mask(channels), channel) <==> (channel < channels && bit_set(
            mask,
            channel,
        )),
        !bit_set(0u8, channel),
{
    if channel < 8 {
        let c = channel as u8;
        assert(0u8 & (1u8 << c) == 0) by (bit_vector);
        if channels >= 8 {
            assert((mask & 0xffu8) == mask) by (bit_vector);
        } else {
            let k = channels as u8;
            let low = ((1u8 << k) - 1) as u8;
            assert(((mask & low) & (1u8 << c) != 0) <==> (c < k && mask & (1u8 << c) != 0))
                by (bit_vector)
                requires
                    k < 8,
                    c < 8,
                    low == ((1u8 << k) - 1) as u8,
            ;
        }
    }
}

/// Expands one trigger into one trigger per channel, as a table of masks
/// says: each input firing plays the step under the cursor and moves on.
pub struct PatternDemux {
    table: Vec<u8>,
    channels: usize,
    cursor: usize,
}

impl View for PatternDemux {
    type V = PatternState;

    closed spec fn view(&self) -> PatternState {
        PatternState {
            table: self.table@,
            channels: self.channels as nat,
            cursor: self.cursor as nat,
        }
    }
}

impl PatternDemux {
    /// The invariant that every operation keeps.
    pub open spec fn wf(&self) -> bool {
        self@.wf()
    }

    /// A demultiplexer over `table` with `channels` outputs. More channels
    /// than a mask has bits are refused, and so is a table without steps.
    pub fn new(table: Vec<u8>, channels: usize) -> (made: Result<PatternDemux, BuildError>)
        ensures
            channels > MASK_BITS <==> made == Err::<PatternDemux, BuildError>(
                BuildError::TooManyChannels,
            ),
            channels <= MASK_BITS && table@.len() == 0 <==> made == Err::<
                PatternDemux,
                BuildError,
            >(BuildError::EmptyPattern),
            channels <= MASK_BITS && table@.len() > 0 <==> made is Ok,
            made matches Ok(p) ==> p.wf() && p@ == PatternState::fresh(table@, channels as nat),
    {
        if channels > MASK_BITS {
            Err(BuildError::TooManyChannels)
        } else if table.len() == 0 {
            Err(BuildError::EmptyPattern)
        } else {
            Ok(PatternDemux { table, channels, cursor: 0 })
        }
    }

    /// The number of steps of the table.
    pub fn steps(&self) -> (n: usize)
        ensures
            n == self@.table.len(),
    {
        self.table.len()
    }

    /// The number of output channels.
    pub fn channels(&self) -> (n: usize)
        ensures
            n == self@.channels,
    {
        self.channels
    }

    /// The step that the next input firing plays.
    pub fn cursor(&self) -> (c: usize)
        ensures
            c == self@.cursor,
    {
        self.cursor
    }

    /// Takes one sample of the input and gives the channels that fire on it.
    pub fn step(&mut self, fired: bool) -> (mask: u8)
        requires
            old(self).wf(),
        ensures
            final(self).wf(),
            final(self)@ == old(self)@.after(fired),
            mask == old(self)@.emitted(fired),
            forall|channel: nat| #[trigger]
                bit_set(mask, channel) <==> old(self)@.fires(fired, channel),
    {
        if !fired {
            proof {
                assert forall|channel: nat| !#[trigger] bit_set(0u8, channel) by {
                    lemma_masked_bits(0u8, 0, channel);
                }
            }
            return 0;
        }
        let position = self.cursor;
        let length = self.table.len();
        let entry = self.table[position];
        let keep: u8 = if self.channels >= 8 {
            0xff
        } else {
            let k = self.channels as u8;
            assert(1u8 << k >= 1) by (bit_vector)
                requires
                    k < 8,
            ;
            (1u8 << k) - 1
        };
        proof {
            lemma_step_wraps(position as nat, self.table@.len());
            assert forall|channel: nat| #[trigger]
                bit_set(entry & keep, channel) <==> old(self)@.fires(fired, channel) by {
                lemma_masked_bits(entry, self.channels as nat, channel);
            }
        }
        self.cursor = if position + 1 == length {
            0
        } else {
            position + 1
        };
        entry & keep
    }
}

/// A fresh demultiplexer plays, on each firing of its input, the step whose
/// number is the count of earlier firings modulo the table's length: channel
/// `c` fires exactly on the firings whose step has bit `c` set.
pub proof fn lemma_pattern_follows_table(
    table: Seq<u8>,
    channels: nat,
    inputs: Seq<bool>,
    index: nat,
    channel: nat,
)
    requires
        table.len() >= 1,
        channels <= 8,
        index < inputs.len(),
    ensures
        PatternState::fresh(table, channels).after_run(inputs, index).cursor == firings(
            inputs,
            index,
        ) % table.len(),
        PatternState::fresh(table, channels).run_output(inputs, index) == if inputs[index as int] {
            table[(firings(inputs, index) % table.len()) as int] & channel_mask(channels)
        } else {
            0u8
        },
        bit_set(PatternState::fresh(table, channels).run_output(inputs, index), channel) <==> (
        inputs[index as int] && channel < channels && bit_set(
            table[(firings(inputs, index) % table.len()) as int],
            channel,
        )),
{
    lemma_pattern_cursor(table, channels, inputs, index);
    let step = table[(firings(inputs, index) % table.len()) as int];
    lemma_masked_bits(step, channels, channel);
}

/// After any run the cursor of a fresh demultiplexer is the count of input
/// firings modulo the table's length.
pub proof fn lemma_pattern_cursor(table: Seq<u8>, channels: nat, inputs: Seq<bool>, count: nat)
    requires
        table.len() >= 1,
        channels <= 8,
        count <= inputs.len(),
    ensures
        PatternState::fresh(table, channels).after_run(inputs, count).wf(),
        PatternState::fresh(table, channels).after_run(inputs, count).table == table,
        PatternState::fresh(table, channels).after_run(inputs, count).channels == channels,
        PatternState::fresh(table, channels).after_run(inputs, count).cursor == firings(
            inputs,
            count,
        ) % table.len(),
    decreases count,
{
    if count == 0 {
        vstd::arithmetic::div_mod::lemma_small_mod(0, table.len());
    } else {
        let before = (count - 1) as nat;
        lemma_pattern_cursor(table, channels, inputs, before);
        let f = firings(inputs, before);
        lemma_succ_mod(f, table.len());
        lemma_step_wraps(f % table.len(), table.len());
    }
}

/// The pattern repeats with the table: two firings of the input whose
/// numbers differ by the table's length give out the same channels.
pub proof fn lemma_pattern_repeats(
    table: Seq<u8>,
    channels: nat,
    inputs: Seq<bool>,
    first: nat,
    second: nat,
)
    requires
        table.len() >= 1,
        channels <= 8,
        first < inputs.len(),
        second < inputs.len(),
        inputs[first as int],
        inputs[second as int],
        firings(inputs, second) == firings(inputs, first) + table.len(),
    ensures
        PatternState::fresh(table, channels).run_output(inputs, second) == PatternState::fresh(
            table,
            channels,
        ).run_output(inputs, first),
{
    lemma_pattern_follows_table(table, channels, inputs, first, 0);
    lemma_pattern_follows_table(table, channels, inputs, second, 0);
    vstd::arithmetic::div_mod::lemma_mod_add_multiples_vanish(
        firings(inputs, first) as int,
        table.len() as int,
    );
}

/// The sixteen steps of the drum pattern: the cymbal on every step, the kick
/// on steps 0, 4, 8, 12 and 13, the snare on steps 2, 6, 7, 10, 14 and 15.
pub open spec fn drum_table() -> Seq<u8> {
    seq![5u8, 1u8, 3u8, 1u8, 5u8, 1u8, 3u8, 3u8, 5u8, 1u8, 3u8, 1u8, 5u8, 5u8, 3u8, 3u8]
}

/// Builds the drum pattern from the three instruments' channels.
pub fn drum_pattern() -> (table: Vec<u8>)
    ensures
        table@ == drum_table(),
{
    let cymbal: u8 = 1u8 << (CYMBAL as u8);
    let snare: u8 = 1u8 << (SNARE as u8);
    let kick: u8 = 1u8 << (KICK as u8);
    assert(1u8 << 0u8 == 1u8 && 1u8 << 1u8 == 2u8 && 1u8 << 2u8 == 4u8) by (bit_vector);
    assert(1u8 | 4u8 == 5u8 && 1u8 | 2u8 == 3u8) by (bit_vector);
    let table = vec![
        cymbal | kick,
        cymbal,
        cymbal | snare,
        cymbal,
        cymbal | kick,
        cymbal,
        cymbal | snare,
        cymbal | snare,
        cymbal | kick,
        cymbal,
        cymbal | snare,
        cymbal,
        cymbal | kick,
        cymbal | kick,
        cymbal | snare,
        cymbal | snare,
    ];
    assert(table@ =~= drum_table());
    table
}

} // verus!
