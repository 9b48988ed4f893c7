//! One instrument lane: an instrument, its effect chain, its modulators and
//! its pattern.

use vstd::prelude::*;

use crate::event::{is_note, MidiEvent};
use crate::modulation::{rack, Modulator, ModulatorModel};
use crate::pattern::{
    fresh_player, player_output, player_processed, player_report, process_fits, report_view,
    PatternNotification, PatternPlayer, PlayerModel,
};
use crate::remap::{events_remapped, NoteRemapper, RemapEntry};
use crate::scalar::{F32Bits, F64Bits, ONE};

verus! {

/// The bits of 48000.0, the sample rate to go by until a plugin is loaded.
pub const DEFAULT_SAMPLE_RATE: u32 = 0x473b_8000;

/// A loaded plugin, by what the graph needs to know of it.
#[derive(Clone, Copy, Debug, PartialEq, Eq, Structural)]
pub struct PluginHandle {
    pub id: u64,
    /// Number of audio outputs.
    pub outputs: usize,
    pub sample_rate: F32Bits,
}

/// One instrument with its effects, modulators and pattern.
#[derive(Debug)]
pub struct InstrumentLane {
    /// The notes that it plays, inclusive; all if `None`.
    pub range: Option<(u8, u8)>,
    pub instrument: Option<PluginHandle>,
    pub volume: F32Bits,
    /// How many buffers there are for the instrument's outputs.
    pub inst_outputs: usize,
    pub effects: Vec<PluginHandle>,
    /// Dry/wet mix of each effect.
    pub mix_values: Vec<F64Bits>,
    pub remapper: Option<NoteRemapper>,
    /// Modulators for the whole lane. Targets address the chain by slot: 0 is
    /// the instrument, 1..N are the effects.
    pub modulators: Vec<Modulator>,
    pub pattern: PatternPlayer,
    /// Semitones added to notes.
    pub transpose: i8,
    /// The group whose bus takes the output, instead of the master.
    pub group: Option<usize>,
}

/// What a lane holds.
#[verifier::ext_equal]
pub struct LaneModel {
    pub range: Option<(u8, u8)>,
    pub instrument: Option<PluginHandle>,
    pub volume: F32Bits,
    pub inst_outputs: usize,
    pub effects: Seq<PluginHandle>,
    pub mix_values: Seq<F64Bits>,
    pub remapper: Option<Map<u8, RemapEntry>>,
    pub modulators: Seq<ModulatorModel>,
    pub pattern: PlayerModel,
    pub transpose: i8,
    pub group: Option<usize>,
}

/// The table of an optional remapper.
pub open spec fn remapper_view(r: Option<NoteRemapper>) -> Option<Map<u8, RemapEntry>> {
    match r {
        Some(m) => Some(m@),
        None => None,
    }
}

impl View for InstrumentLane {
    type V = LaneModel;

    open spec fn view(&self) -> LaneModel {
        LaneModel {
            range: self.range,
            instrument: self.instrument,
            volume: self.volume,
            inst_outputs: self.inst_outputs,
            effects: self.effects@,
            mix_values: self.mix_values@,
            remapper: remapper_view(self.remapper),
            modulators: rack(self.modulators@),
            pattern: self.pattern@,
            transpose: self.transpose,
            group: self.group,
        }
    }
}

/// A lane as it is first added.
pub open spec fn fresh_lane() -> LaneModel {
    LaneModel {
        range: None,
        instrument: None,
        volume: F32Bits { bits: ONE },
        inst_outputs: 0,
        effects: Seq::empty(),
        mix_values: Seq::empty(),
        remapper: None,
        modulators: Seq::empty(),
        pattern: fresh_player(F32Bits { bits: DEFAULT_SAMPLE_RATE }),
        transpose: 0,
        group: None,
    }
}

/// The sample rate of a lane: its instrument's, or the default.
pub open spec fn lane_sample_rate(l: LaneModel) -> F32Bits {
    match l.instrument {
        Some(p) => p.sample_rate,
        None => F32Bits { bits: DEFAULT_SAMPLE_RATE },
    }
}

/// The plugin in a slot of a lane's chain.
pub open spec fn slot_plugin(l: LaneModel, slot: usize) -> Option<PluginHandle> {
    if slot == 0 {
        l.instrument
    } else if slot <= l.effects.len() {
        Some(l.effects[slot - 1])
    } else {
        None
    }
}

// ---------------------------------------------------------------------------
// MIDI through a lane
// ---------------------------------------------------------------------------

/// A note lies in a range; every note lies in an open one.
pub open spec fn in_range(range: Option<(u8, u8)>, note: u8) -> bool {
    match range {
        Some((lo, hi)) => lo <= note <= hi,
        None => true,
    }
}

/// A message that a lane with this range hears: a note in its range, or
/// anything that is not a note.
pub open spec fn hears(range: Option<(u8, u8)>, ev: MidiEvent) -> bool {
    is_note(ev) ==> in_range(range, ev.1[1])
}

/// The messages that a lane with this range hears.
pub open spec fn heard(range: Option<(u8, u8)>, midi: Seq<MidiEvent>) -> Seq<MidiEvent> {
    midi.filter(|ev: MidiEvent| hears(range, ev))
}

/// A transposed message. A note that leaves 0..=127 is dropped.
pub open spec fn event_transposed(ev: MidiEvent, semitones: i8) -> Option<MidiEvent> {
    let note = ev.1[1] + semitones;
    if !is_note(ev) {
        Some(ev)
    } else if 0 <= note <= 127 {
        Some((ev.0, [ev.1[0], note as u8, ev.1[2]]))
    } else {
        None
    }
}

/// Messages transposed by a number of semitones. A transposition by none
/// leaves them as they are.
pub open spec fn events_transposed(midi: Seq<MidiEvent>, semitones: i8) -> Seq<MidiEvent>
    decreases midi.len(),
{
    if semitones == 0 || midi.len() == 0 {
        midi
    } else {
        let rest = events_transposed(midi.drop_last(), semitones);
        match event_transposed(midi.last(), semitones) {
            Some(ev) => rest.push(ev),
            None => rest,
        }
    }
}

/// What reaches a lane's pattern player: notes in range, remapped.
pub open spec fn lane_incoming(l: LaneModel, midi: Seq<MidiEvent>) -> Seq<MidiEvent> {
    match l.remapper {
        Some(table) => events_remapped(table, heard(l.range, midi)),
        None => heard(l.range, midi),
    }
}

/// What reaches a lane's instrument and modulators.
pub open spec fn lane_outgoing(
    l: LaneModel,
    incoming: Seq<MidiEvent>,
    frames: int,
    degrees: &[u8],
) -> Seq<MidiEvent> {
    events_transposed(player_output(l.pattern, incoming, frames, degrees), l.transpose)
}

/// The events of a buffer at the end of a lane's MIDI path, and a report if a
/// recording ended.
#[derive(Debug)]
pub struct LaneOutput {
    pub events: Vec<MidiEvent>,
    pub notification: Option<PatternNotification>,
}

fn note_message(ev: &MidiEvent) -> (r: bool)
    ensures
        r == is_note(*ev),
{
    let status: u8 = ev.1[0] & 0xF0;
    status == 0x80 || status == 0x90
}

/// Whether a note lies in a range.
pub fn range_holds(range: Option<(u8, u8)>, note: u8) -> (r: bool)
    ensures
        r == in_range(range, note),
{
    match range {
        Some((lo, hi)) => note >= lo && note <= hi,
        None => true,
    }
}

/// The messages that a lane with this range hears.
pub fn filter_range(range: Option<(u8, u8)>, midi: &[MidiEvent]) -> (out: Vec<MidiEvent>)
    ensures
        out@ == heard(range, midi@),
{
    let mut out: Vec<MidiEvent> = Vec::new();
    let mut i: usize = 0;
    proof {
        reveal(Seq::filter);
    }
    while i < midi.len()
        invariant
            i <= midi.len(),
            out@ == heard(range, midi@.take(i as int)),
        decreases midi.len() - i,
    {
        proof {
            reveal(Seq::filter);
            assert(midi@.take(i + 1).drop_last() =~= midi@.take(i as int));
        }
        let ev: MidiEvent = midi[i];
        if !note_message(&ev) || range_holds(range, ev.1[1]) {
            out.push(ev);
        }
        i += 1;
    }
    assert(midi@.take(midi@.len() as int) =~= midi@);
    out
}

fn transpose_events(midi: Vec<MidiEvent>, semitones: i8) -> (out: Vec<MidiEvent>)
    ensures
        out@ == events_transposed(midi@, semitones),
{
    if semitones == 0 {
        return midi;
    }
    let mut out: Vec<MidiEvent> = Vec::new();
    let mut i: usize = 0;
    assert(midi@.take(0) =~= Seq::empty());
    while i < midi.len()
        invariant
            semitones != 0,
            i <= midi.len(),
            out@ == events_transposed(midi@.take(i as int), semitones),
        decreases midi.len() - i,
    {
        assert(midi@.take(i + 1).drop_last() =~= midi@.take(i as int));
        let ev: MidiEvent = midi[i];
        if note_message(&ev) {
            let note: i16 = ev.1[1] as i16 + semitones as i16;
            if 0 <= note && note <= 127 {
                out.push((ev.0, [ev.1[0], note as u8, ev.1[2]]));
            }
        } else {
            out.push(ev);
        }
        i += 1;
    }
    assert(midi@.take(midi@.len() as int) =~= midi@);
    out
}

impl InstrumentLane {
    /// An empty lane at full volume.
    pub fn new() -> (l: Self)
        ensures
            l@ == fresh_lane(),
    {
        let l = InstrumentLane {
            range: None,
            instrument: None,
            volume: F32Bits { bits: ONE },
            inst_outputs: 0,
            effects: Vec::new(),
            mix_values: Vec::new(),
            remapper: None,
            modulators: Vec::new(),
            pattern: PatternPlayer::new(F32Bits { bits: DEFAULT_SAMPLE_RATE }),
            transpose: 0,
            group: None,
        };
        assert(l@.modulators =~= Seq::empty());
        l
    }

    /// The sample rate, from the instrument if there is one.
    pub fn sample_rate(&self) -> (rate: F32Bits)
        ensures
            rate == lane_sample_rate(self@),
    {
        match self.instrument {
            Some(p) => p.sample_rate,
            None => F32Bits { bits: DEFAULT_SAMPLE_RATE },
        }
    }

    /// The plugin in a slot of the chain: 0 is the instrument.
    pub fn plugin_at(&self, slot: usize) -> (plugin: Option<PluginHandle>)
        ensures
            plugin == slot_plugin(self@, slot),
    {
        if slot == 0 {
            self.instrument
        } else if slot <= self.effects.len() {
            Some(self.effects[slot - 1])
        } else {
            None
        }
    }

    /// Filter messages by this lane's key range: notes pass if they lie in it,
    /// controllers, pitch bend and the like always do.
    pub fn filter_midi(&self, midi_events: &[MidiEvent]) -> (out: Vec<MidiEvent>)
        ensures
            out@ == heard(self@.range, midi_events@),
    {
        filter_range(self.range, midi_events)
    }

    /// The messages that reach the pattern player: in range, then remapped.
    pub fn incoming(&self, midi_events: &[MidiEvent]) -> (out: Vec<MidiEvent>)
        ensures
            out@ == lane_incoming(self@, midi_events@),
    {
        let filtered = self.filter_midi(midi_events);
        match &self.remapper {
            Some(remapper) => {
                let mut out: Vec<MidiEvent> = Vec::new();
                remapper.remap_events(filtered.as_slice(), &mut out);
                out
            },
            None => filtered,
        }
    }

    /// Run the incoming messages of a buffer (see `incoming`) through the
    /// pattern player and the transposition. `degrees` and `length` are those
    /// of `PatternPlayer::process`.
    pub fn outgoing(
        &mut self,
        incoming: &[MidiEvent],
        frames: usize,
        degrees: &[u8],
        length: u64,
    ) -> (output: LaneOutput)
        requires
            process_fits(old(self)@.pattern, incoming@, frames as int),
            old(self)@.pattern.in_key ==> degrees@.len() == 256,
        ensures
            final(self)@ == (LaneModel {
                pattern: player_processed(
                    old(self)@.pattern,
                    incoming@,
                    frames as int,
                    degrees,
                    length,
                ),
                ..old(self)@
            }),
            output.events@ == lane_outgoing(old(self)@, incoming@, frames as int, degrees),
            report_view(output.notification) == player_report(
                old(self)@.pattern,
                incoming@,
                frames as int,
                length,
            ),
    {
        let played = self.pattern.process(incoming, frames, degrees, length);
        LaneOutput {
            events: transpose_events(played.events, self.transpose),
            notification: played.notification,
        }
    }
}

// ---------------------------------------------------------------------------
// Rendering a lane
// ---------------------------------------------------------------------------

/// One of the two buffers that an effect chain alternates between.
#[derive(Clone, Copy, Debug, PartialEq, Eq, Structural)]
pub enum Buffer {
    A,
    B,
}

/// One step of rendering a lane into its output.
#[derive(Clone, Copy, Debug, PartialEq, Eq, Structural)]
pub enum RenderStep {
    /// Fill the output with silence.
    Silence,
    /// Run the instrument straight into the output.
    InstrumentToOutput,
    /// Clear the instrument's own buffers and run it into them.
    InstrumentToBuffers,
    /// Scale the first instrument buffers by the lane volume.
    ScaleVolume { channels: usize },
    /// Copy the instrument's buffers to the output; channels without one are
    /// silent.
    CopyToOutput,
    /// Clear both chain buffers and copy the instrument's into the first.
    CopyToChain,
    /// Run an effect from one chain buffer to the other and mix the dry signal
    /// back in.
    Effect { index: usize, from: Buffer, to: Buffer },
    /// Copy a chain buffer to the output.
    ChainToOutput { from: Buffer },
    /// Add the metronome on top.
    Metronome,
}

/// The buffer that holds the signal after `n` effects.
pub open spec fn buffer_after(n: int) -> Buffer {
    if n % 2 == 0 {
        Buffer::A
    } else {
        Buffer::B
    }
}

/// Run effect `i` of a chain.
pub open spec fn effect_step(i: int) -> RenderStep {
    RenderStep::Effect { index: i as usize, from: buffer_after(i), to: buffer_after(i + 1) }
}

/// The steps that render a lane with `num_channels` output channels.
pub open spec fn lane_plan(l: LaneModel, num_channels: usize) -> Seq<RenderStep> {
    let n = l.effects.len() as int;
    if l.instrument is None {
        seq![RenderStep::Silence, RenderStep::Metronome]
    } else if l.inst_outputs <= num_channels && n == 0 && l.volume.unity() {
        seq![RenderStep::InstrumentToOutput, RenderStep::Metronome]
    } else {
        let channels = if l.inst_outputs < num_channels {
            l.inst_outputs
        } else {
            num_channels
        };
        let source = if l.volume.rescales() {
            seq![RenderStep::InstrumentToBuffers, RenderStep::ScaleVolume { channels }]
        } else {
            seq![RenderStep::InstrumentToBuffers]
        };
        if n == 0 {
            source + seq![RenderStep::CopyToOutput, RenderStep::Metronome]
        } else {
            source + seq![RenderStep::CopyToChain] + Seq::new(n as nat, |i: int| effect_step(i))
                + seq![
                RenderStep::ChainToOutput { from: buffer_after(n) },
                RenderStep::Metronome,
            ]
        }
    }
}

impl InstrumentLane {
    /// The steps that render this lane with `num_channels` output channels.
    pub fn render_plan(&self, num_channels: usize) -> (steps: Vec<RenderStep>)
        ensures
            steps@ == lane_plan(self@, num_channels),
    {
        let mut steps: Vec<RenderStep> = Vec::new();
        if self.instrument.is_none() {
            steps.push(RenderStep::Silence);
            steps.push(RenderStep::Metronome);
            assert(steps@ =~= lane_plan(self@, num_channels));
            return steps;
        }
        let n: usize = self.effects.len();
        if self.inst_outputs <= num_channels && n == 0 && self.volume.is_unity() {
            steps.push(RenderStep::InstrumentToOutput);
            steps.push(RenderStep::Metronome);
            assert(steps@ =~= lane_plan(self@, num_channels));
            return steps;
        }
        steps.push(RenderStep::InstrumentToBuffers);
        if self.volume.is_rescaling() {
            let channels: usize = if self.inst_outputs < num_channels {
                self.inst_outputs
            } else {
                num_channels
            };
            steps.push(RenderStep::ScaleVolume { channels });
        }
        if n == 0 {
            steps.push(RenderStep::CopyToOutput);
            steps.push(RenderStep::Metronome);
            assert(steps@ =~= lane_plan(self@, num_channels));
            return steps;
        }
        steps.push(RenderStep::CopyToChain);
        let ghost head = steps@;
        let mut from: Buffer = Buffer::A;
        let mut i: usize = 0;
        while i < n
            invariant
                i <= n,
                from == buffer_after(i as int),
                steps@ == head + Seq::new(i as nat, |k: int| effect_step(k)),
            decreases n - i,
        {
            let to: Buffer = match from {
                Buffer::A => Buffer::B,
                Buffer::B => Buffer::A,
            };
            steps.push(RenderStep::Effect { index: i, from, to });
            assert(steps@ =~= head + Seq::new((i + 1) as nat, |k: int| effect_step(k)));
            from = to;
            i += 1;
        }
        steps.push(RenderStep::ChainToOutput { from });
        steps.push(RenderStep::Metronome);
        assert(steps@ =~= lane_plan(self@, num_channels));
        steps
    }
}

} // verus!
