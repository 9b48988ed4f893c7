//! What a rack of modulators does per buffer, and the commands that edit it.

use vstd::prelude::*;

use crate::event::{classify, note_edge, MidiEvent, NoteEdge};
use crate::modulation::{
    apply_cross_mod_field, field_written, fixup_cross_mod_after_remove, rack, rack_after,
    rack_rebased, sibling_field, update_cross_mod_base, CrossModField, EnvState, LfoWaveform,
    ModSource, ModTarget, ModTargetKind, Modulator, ModulatorModel, RackEdit,
};
use crate::scalar::{F32Bits, ONE};

verus! {

// ---------------------------------------------------------------------------
// Envelope notes
// ---------------------------------------------------------------------------

/// Envelope state and held-note count after one message.
pub open spec fn env_after_event(state: EnvState, held: u32, ev: MidiEvent) -> (EnvState, u32) {
    match note_edge(ev) {
        // Every note-on retriggers from Attack.
        NoteEdge::On => (
            EnvState::Attack,
            if held < u32::MAX {
                (held + 1) as u32
            } else {
                held
            },
        ),
        // The last note-off releases.
        NoteEdge::Off => if held <= 1 {
            (EnvState::Release, 0)
        } else {
            (state, (held - 1) as u32)
        },
        NoteEdge::Neither => (state, held),
    }
}

/// Envelope state and held-note count after a buffer's messages.
pub open spec fn env_after_events(
    state: EnvState,
    held: u32,
    midi: Seq<MidiEvent>,
) -> (EnvState, u32)
    decreases midi.len(),
{
    if midi.len() == 0 {
        (state, held)
    } else {
        let (s, h) = env_after_events(state, held, midi.drop_last());
        env_after_event(s, h, midi.last())
    }
}

/// A modulator once its envelope has seen a buffer's notes. An LFO ignores
/// them.
pub open spec fn notes_tracked(m: ModulatorModel, midi: Seq<MidiEvent>) -> ModulatorModel {
    match m.source {
        ModSource::Lfo { .. } => m,
        ModSource::Envelope { attack, decay, sustain, release, state, level, notes_held } => {
            let (s, h) = env_after_events(state, notes_held, midi);
            ModulatorModel {
                source: ModSource::Envelope {
                    attack,
                    decay,
                    sustain,
                    release,
                    state: s,
                    level,
                    notes_held: h,
                },
                ..m
            }
        },
    }
}

impl EnvState {
    /// The stage that follows once the level has run through this one.
    pub open spec fn successor(self) -> EnvState {
        match self {
            EnvState::Idle => EnvState::Idle,
            EnvState::Attack => EnvState::Decay,
            EnvState::Decay => EnvState::Sustain,
            EnvState::Sustain => EnvState::Sustain,
            EnvState::Release => EnvState::Idle,
        }
    }

    /// The stage after one block, given whether the level reached the end of
    /// this one (peak, sustain level or silence).
    pub fn advance(self, reached_end: bool) -> (next: EnvState)
        ensures
            next == (if reached_end {
                self.successor()
            } else {
                self
            }),
    {
        if reached_end {
            match self {
                EnvState::Idle => EnvState::Idle,
                EnvState::Attack => EnvState::Decay,
                EnvState::Decay => EnvState::Sustain,
                EnvState::Sustain => EnvState::Sustain,
                EnvState::Release => EnvState::Idle,
            }
        } else {
            self
        }
    }
}

impl Modulator {
    /// A modulator with no targets and a silent output.
    pub fn new(source: ModSource, sample_rate: F32Bits) -> (m: Self)
        ensures
            m@ == fresh_modulator(source, sample_rate),
    {
        Modulator {
            source,
            sample_rate,
            targets: Vec::new(),
            last_output: F32Bits { bits: 0 },
        }
    }

    /// Let an envelope see a buffer's notes: a note-on retriggers it, the last
    /// note-off releases it.
    pub fn track_notes(&mut self, midi_events: &[MidiEvent])
        ensures
            final(self)@ == notes_tracked(old(self)@, midi_events@),
    {
        match self.source {
            ModSource::Lfo { .. } => {},
            ModSource::Envelope { attack, decay, sustain, release, state, level, notes_held } => {
                let mut s: EnvState = state;
                let mut h: u32 = notes_held;
                let mut i: usize = 0;
                while i < midi_events.len()
                    invariant
                        i <= midi_events.len(),
                        (s, h) == env_after_events(
                            state,
                            notes_held,
                            midi_events@.take(i as int),
                        ),
                    decreases midi_events.len() - i,
                {
                    assert(midi_events@.take(i + 1).drop_last() =~= midi_events@.take(i as int));
                    match classify(&midi_events[i]) {
                        NoteEdge::On => {
                            h = h.saturating_add(1);
                            s = EnvState::Attack;
                        },
                        NoteEdge::Off => {
                            h = h.saturating_sub(1);
                            if h == 0 {
                                s = EnvState::Release;
                            }
                        },
                        NoteEdge::Neither => {},
                    }
                    i += 1;
                }
                assert(midi_events@.take(midi_events@.len() as int) =~= midi_events@);
                self.source = ModSource::Envelope {
                    attack,
                    decay,
                    sustain,
                    release,
                    state: s,
                    level,
                    notes_held: h,
                };
            },
        }
    }
}

/// The bits of 0.001, below which a release is over.
pub const RELEASE_FLOOR: u32 = 0x3a83_126f;

/// Whether the step to `stepped` ran a stage to its end: the attack to full
/// level, the decay to the sustain level, the release to near silence.
pub open spec fn stage_over(state: EnvState, stepped: F32Bits, sustain: F32Bits) -> bool {
    match state {
        EnvState::Attack => (F32Bits { bits: ONE }).at_most(stepped),
        EnvState::Decay => stepped.at_most(sustain),
        EnvState::Release => stepped.at_most(F32Bits { bits: RELEASE_FLOOR }),
        _ => false,
    }
}

/// The level at which a stage's step leaves an envelope. A stage that is over
/// leaves it at the stage's end; without a slope the level is silence or the
/// sustain level.
pub open spec fn level_after(state: EnvState, stepped: F32Bits, sustain: F32Bits) -> F32Bits {
    let over = stage_over(state, stepped, sustain);
    match state {
        EnvState::Idle => F32Bits { bits: 0 },
        EnvState::Attack => if over {
            F32Bits { bits: ONE }
        } else {
            stepped
        },
        EnvState::Decay => if over {
            sustain
        } else {
            stepped
        },
        EnvState::Sustain => sustain,
        EnvState::Release => if over {
            F32Bits { bits: 0 }
        } else {
            stepped
        },
    }
}

/// A modulator one block later, its envelope's level stepped to `stepped` by the
/// slope of its stage. An LFO has no stages.
pub open spec fn level_settled(m: ModulatorModel, stepped: F32Bits) -> ModulatorModel {
    match m.source {
        ModSource::Lfo { .. } => m,
        ModSource::Envelope { attack, decay, sustain, release, state, notes_held, .. } => {
            let level = level_after(state, stepped, sustain);
            ModulatorModel {
                source: ModSource::Envelope {
                    attack,
                    decay,
                    sustain,
                    release,
                    state: if stage_over(state, stepped, sustain) {
                        state.successor()
                    } else {
                        state
                    },
                    level,
                    notes_held,
                },
                last_output: level,
                ..m
            }
        },
    }
}

impl Modulator {
    /// End an envelope's block: its level was stepped to `stepped` by the slope
    /// of its stage, which ends where the level reached its end.
    pub fn settle_level(&mut self, stepped: F32Bits)
        ensures
            final(self)@ == level_settled(old(self)@, stepped),
    {
        match self.source {
            ModSource::Lfo { .. } => {},
            ModSource::Envelope { attack, decay, sustain, release, state, level: _, notes_held } => {
                let silence = F32Bits { bits: 0 };
                let full = F32Bits { bits: ONE };
                let floor = F32Bits { bits: RELEASE_FLOOR };
                let (over, end): (bool, F32Bits) = match state {
                    EnvState::Idle => (false, silence),
                    EnvState::Attack => (full.is_at_most(stepped), full),
                    EnvState::Decay => (stepped.is_at_most(sustain), sustain),
                    EnvState::Sustain => (false, sustain),
                    EnvState::Release => (stepped.is_at_most(floor), silence),
                };
                let level: F32Bits = match state {
                    EnvState::Idle => end,
                    EnvState::Sustain => end,
                    _ => if over {
                        end
                    } else {
                        stepped
                    },
                };
                self.source = ModSource::Envelope {
                    attack,
                    decay,
                    sustain,
                    release,
                    state: state.advance(over),
                    level,
                    notes_held,
                };
                self.last_output = level;
            },
        }
    }
}

/// An envelope is not in its release while a note is held.
pub open spec fn held_unreleased(m: ModulatorModel) -> bool {
    m.source matches ModSource::Envelope { state, notes_held, .. } ==> notes_held > 0
        ==> state !is Release
}

/// Two modulators have the same settings: rate and waveform, or envelope times
/// and sustain level, and the same targets.
pub open spec fn settings_equal(a: ModulatorModel, b: ModulatorModel) -> bool {
    &&& a.targets == b.targets
    &&& a.sample_rate == b.sample_rate
    &&& match (a.source, b.source) {
        (
            ModSource::Lfo { waveform: w, rate: r, .. },
            ModSource::Lfo { waveform, rate, .. },
        ) => w == waveform && r == rate,
        (
            ModSource::Envelope { attack: a0, decay: d0, sustain: s0, release: r0, .. },
            ModSource::Envelope { attack, decay, sustain, release, .. },
        ) => a0 == attack && d0 == decay && s0 == sustain && r0 == release,
        _ => false,
    }
}

proof fn events_bar_release(state: EnvState, held: u32, midi: Seq<MidiEvent>)
    requires
        held > 0 ==> state !is Release,
    ensures
        ({
            let (s, h) = env_after_events(state, held, midi);
            h > 0 ==> s !is Release
        }),
    decreases midi.len(),
{
    if midi.len() > 0 {
        events_bar_release(state, held, midi.drop_last());
    }
}

/// A held note keeps an envelope out of its release: a note-off starts the
/// release only when no other note is held, and no stage runs into it. Neither
/// notes nor stages touch the settings and targets.
pub proof fn held_notes_bar_release(m: ModulatorModel, midi: Seq<MidiEvent>, stepped: F32Bits)
    requires
        held_unreleased(m),
    ensures
        held_unreleased(notes_tracked(m, midi)),
        held_unreleased(level_settled(notes_tracked(m, midi), stepped)),
        settings_equal(m, level_settled(notes_tracked(m, midi), stepped)),
{
    if let ModSource::Envelope { state, notes_held, .. } = m.source {
        events_bar_release(state, notes_held, midi);
    }
}

/// A step goes the way of its stage: up in the attack, down in the decay and the
/// release.
pub open spec fn steps_with_stage(state: EnvState, level: F32Bits, stepped: F32Bits) -> bool {
    match state {
        EnvState::Attack => level.at_most(stepped),
        EnvState::Decay => stepped.at_most(level),
        EnvState::Release => stepped.at_most(level),
        _ => true,
    }
}

/// An envelope stays between silence and full level, and puts out its level; when
/// it comes to rest it is silent.
pub proof fn levels_stay_in_bounds(m: ModulatorModel, stepped: F32Bits)
    requires
        m.source matches ModSource::Envelope { sustain, state, level, .. } && sustain.in_unit()
            && level.in_unit() && steps_with_stage(state, level, stepped),
    ensures
        level_settled(m, stepped).source matches ModSource::Envelope { state, level, .. } && {
            &&& level.in_unit()
            &&& level_settled(m, stepped).last_output == level
            &&& state is Idle ==> level == (F32Bits { bits: 0 })
        },
{
}

/// A buffer leaves an envelope sound. Its notes are tracked and its level steps
/// the way of the stage that they lead to; then the level is between silence and
/// full level and is what it puts out, its settings and targets are as before, it
/// is not in its release while a note is held, and at rest it is silent.
pub proof fn buffers_leave_envelopes_sound(
    m: ModulatorModel,
    midi: Seq<MidiEvent>,
    stepped: F32Bits,
)
    requires
        held_unreleased(m),
        m.source matches ModSource::Envelope { sustain, level, .. } && sustain.in_unit()
            && level.in_unit(),
        notes_tracked(m, midi).source matches ModSource::Envelope { state, level, .. }
            && steps_with_stage(state, level, stepped),
    ensures
        ({
            let after = level_settled(notes_tracked(m, midi), stepped);
            &&& after.source matches ModSource::Envelope { state, level, .. }
            &&& level.in_unit()
            &&& after.last_output == level
            &&& state is Idle ==> level == (F32Bits { bits: 0 })
            &&& settings_equal(m, after)
            &&& held_unreleased(after)
        }),
{
    held_notes_bar_release(m, midi, stepped);
    levels_stay_in_bounds(notes_tracked(m, midi), stepped);
}

/// A modulator as it is first inserted.
pub open spec fn fresh_modulator(source: ModSource, sample_rate: F32Bits) -> ModulatorModel {
    ModulatorModel { source, sample_rate, targets: Seq::empty(), last_output: F32Bits { bits: 0 } }
}

/// A rack once every modulator has seen a buffer's notes.
pub open spec fn rack_tracked(
    mods: Seq<ModulatorModel>,
    midi: Seq<MidiEvent>,
) -> Seq<ModulatorModel> {
    Seq::new(mods.len(), |i: int| notes_tracked(mods[i], midi))
}

/// Let every envelope of a rack see a buffer's notes.
pub fn track_rack_notes(mods: &mut Vec<Modulator>, midi_events: &[MidiEvent])
    ensures
        rack(final(mods)@) == rack_tracked(rack(old(mods)@), midi_events@),
{
    let ghost before = mods@;
    let mut i: usize = 0;
    while i < mods.len()
        invariant
            mods.len() == before.len(),
            i <= mods.len(),
            forall|k: int|
                0 <= k < i ==> #[trigger] mods@[k]@ == notes_tracked(before[k]@, midi_events@),
            forall|k: int| i <= k < mods.len() ==> mods@[k] == before[k],
        decreases mods.len() - i,
    {
        mods[i].track_notes(midi_events);
        i += 1;
    }
    assert(rack(mods@) =~= rack_tracked(rack(before), midi_events@));
}

// ---------------------------------------------------------------------------
// Sibling cross-modulation
// ---------------------------------------------------------------------------

/// One sibling cross-mod connection: target `target` of modulator `source`
/// drives `field` of modulator `mod_index`.
#[derive(Clone, Copy, Debug, PartialEq, Eq, Structural)]
pub struct CrossModRoute {
    pub source: usize,
    pub target: usize,
    pub mod_index: usize,
    pub field: CrossModField,
}

/// The sibling and field that a target kind drives.
pub open spec fn cross_field(kind: ModTargetKind) -> Option<(usize, CrossModField)> {
    match kind {
        ModTargetKind::ModulatorRate { mod_index } => Some((mod_index, CrossModField::Rate)),
        ModTargetKind::ModulatorAttack { mod_index } => Some((mod_index, CrossModField::Attack)),
        ModTargetKind::ModulatorDecay { mod_index } => Some((mod_index, CrossModField::Decay)),
        ModTargetKind::ModulatorSustain { mod_index } => Some((mod_index, CrossModField::Sustain)),
        ModTargetKind::ModulatorRelease { mod_index } => Some((mod_index, CrossModField::Release)),
        ModTargetKind::ModulatorDepth { mod_index, target_index } => Some(
            (mod_index, CrossModField::Depth(target_index)),
        ),
        _ => None,
    }
}

fn cross_field_of(kind: &ModTargetKind) -> (r: Option<(usize, CrossModField)>)
    ensures
        r == cross_field(*kind),
{
    match *kind {
        ModTargetKind::ModulatorRate { mod_index } => Some((mod_index, CrossModField::Rate)),
        ModTargetKind::ModulatorAttack { mod_index } => Some((mod_index, CrossModField::Attack)),
        ModTargetKind::ModulatorDecay { mod_index } => Some((mod_index, CrossModField::Decay)),
        ModTargetKind::ModulatorSustain { mod_index } => Some((mod_index, CrossModField::Sustain)),
        ModTargetKind::ModulatorRelease { mod_index } => Some((mod_index, CrossModField::Release)),
        ModTargetKind::ModulatorDepth { mod_index, target_index } => Some(
            (mod_index, CrossModField::Depth(target_index)),
        ),
        _ => None,
    }
}

/// The cross-mod routes out of the first `n` targets of modulator `source`.
/// A modulator does not drive itself.
pub open spec fn target_cross_routes(
    targets: Seq<ModTarget>,
    source: int,
    n: nat,
) -> Seq<CrossModRoute>
    decreases n,
{
    if n == 0 {
        Seq::empty()
    } else {
        let rest = target_cross_routes(targets, source, (n - 1) as nat);
        match cross_field(targets[n - 1].kind) {
            Some((mod_index, field)) if mod_index != source => rest.push(
                CrossModRoute {
                    source: source as usize,
                    target: (n - 1) as usize,
                    mod_index,
                    field,
                },
            ),
            _ => rest,
        }
    }
}

/// The cross-mod routes out of the first `n` modulators, in rack order.
pub open spec fn rack_cross_routes(mods: Seq<ModulatorModel>, n: nat) -> Seq<CrossModRoute>
    decreases n,
{
    if n == 0 {
        Seq::empty()
    } else {
        rack_cross_routes(mods, (n - 1) as nat) + target_cross_routes(
            mods[n - 1].targets,
            n - 1,
            mods[n - 1].targets.len(),
        )
    }
}

/// The sibling cross-mod connections of a rack, in the order in which their
/// values are written.
pub fn cross_mod_routes(modulators: &Vec<Modulator>) -> (routes: Vec<CrossModRoute>)
    ensures
        routes@ == rack_cross_routes(rack(modulators@), modulators.len() as nat),
{
    let ghost mods = rack(modulators@);
    let mut routes: Vec<CrossModRoute> = Vec::new();
    let mut i: usize = 0;
    while i < modulators.len()
        invariant
            mods == rack(modulators@),
            i <= modulators.len(),
            routes@ == rack_cross_routes(mods, i as nat),
        decreases modulators.len() - i,
    {
        let ghost done = routes@;
        let mut j: usize = 0;
        while j < modulators[i].targets.len()
            invariant
                mods == rack(modulators@),
                i < modulators.len(),
                j <= modulators@[i as int].targets.len(),
                routes@ == done + target_cross_routes(mods[i as int].targets, i as int, j as nat),
            decreases modulators@[i as int].targets.len() - j,
        {
            if let Some((mod_index, field)) = cross_field_of(&modulators[i].targets[j].kind) {
                if mod_index != i {
                    routes.push(CrossModRoute { source: i, target: j, mod_index, field });
                }
            }
            j += 1;
        }
        i += 1;
    }
    routes
}

/// A rack after the first `n` routed values were written. A route to a missing
/// modulator writes nothing; of two writes to one field the later one stays.
pub open spec fn cross_mod_written(
    mods: Seq<ModulatorModel>,
    routes: Seq<CrossModRoute>,
    values: Seq<F32Bits>,
    n: nat,
) -> Seq<ModulatorModel>
    decreases n,
{
    if n == 0 {
        mods
    } else {
        let before = cross_mod_written(mods, routes, values, (n - 1) as nat);
        let r = routes[n - 1];
        if r.mod_index < before.len() {
            before.update(
                r.mod_index as int,
                field_written(before[r.mod_index as int], r.field, values[n - 1]),
            )
        } else {
            before
        }
    }
}

/// Write one value per route of `cross_mod_routes` into the sibling fields.
pub fn apply_cross_mod(modulators: &mut Vec<Modulator>, values: &Vec<F32Bits>)
    requires
        values.len() == rack_cross_routes(
            rack(old(modulators)@),
            old(modulators).len() as nat,
        ).len(),
    ensures
        ({
            let mods = rack(old(modulators)@);
            rack(final(modulators)@) == cross_mod_written(
                mods,
                rack_cross_routes(mods, mods.len()),
                values@,
                values@.len(),
            )
        }),
{
    let ghost mods = rack(modulators@);
    let routes = cross_mod_routes(modulators);
    let mut n: usize = 0;
    assert(rack(modulators@).len() == mods.len());
    while n < routes.len()
        invariant
            n <= routes.len(),
            routes.len() == values.len(),
            modulators.len() == mods.len(),
            rack(modulators@) == cross_mod_written(mods, routes@, values@, n as nat),
        decreases routes.len() - n,
    {
        let ghost before = rack(modulators@);
        let r = routes[n];
        if r.mod_index < modulators.len() {
            apply_cross_mod_field(&mut modulators[r.mod_index], r.field, values[n]);
            assert(rack(modulators@) =~= before.update(
                r.mod_index as int,
                field_written(before[r.mod_index as int], r.field, values@[n as int]),
            ));
        }
        n += 1;
    }
}

/// A modulator never appears as the target of its own cross-mod route.
pub proof fn no_self_modulation(mods: Seq<ModulatorModel>, n: nat, k: int)
    requires
        n <= mods.len() <= usize::MAX,
        0 <= k < rack_cross_routes(mods, n).len(),
    ensures
        rack_cross_routes(mods, n)[k].mod_index != rack_cross_routes(mods, n)[k].source,
    decreases n,
{
    let prev = rack_cross_routes(mods, (n - 1) as nat);
    if k < prev.len() {
        no_self_modulation(mods, (n - 1) as nat, k);
    } else {
        let targets = mods[n - 1].targets;
        targets_skip_source(targets, n - 1, targets.len(), k - prev.len());
    }
}

proof fn targets_skip_source(targets: Seq<ModTarget>, source: int, n: nat, k: int)
    requires
        0 <= source <= usize::MAX,
        0 <= k < target_cross_routes(targets, source, n).len(),
    ensures
        target_cross_routes(targets, source, n)[k].mod_index != target_cross_routes(
            targets,
            source,
            n,
        )[k].source,
    decreases n,
{
    if k < target_cross_routes(targets, source, (n - 1) as nat).len() {
        targets_skip_source(targets, source, (n - 1) as nat, k);
    }
}

// ---------------------------------------------------------------------------
// Rack commands
// ---------------------------------------------------------------------------

/// An edit of one rack, whether it belongs to a lane or to a group.
#[derive(Clone, Copy, Debug, PartialEq, Eq, Structural)]
pub enum RackCommand {
    Insert { index: usize, source: ModSource },
    Remove { index: usize },
    SetRate { mod_index: usize, rate: F32Bits },
    SetWaveform { mod_index: usize, waveform: LfoWaveform },
    SetSource { mod_index: usize, source: ModSource },
    SetEnvelope {
        mod_index: usize,
        attack: F32Bits,
        decay: F32Bits,
        sustain: F32Bits,
        release: F32Bits,
    },
    AddTarget { mod_index: usize, target: ModTarget },
    RemoveTarget { mod_index: usize, target_index: usize },
    SetDepth { mod_index: usize, target_index: usize, depth: F32Bits },
}

/// The smaller of an index and a length.
pub open spec fn clip(index: usize, len: nat) -> int {
    if index < len {
        index as int
    } else {
        len as int
    }
}

/// `field` of modulator `i` set to `value`; nothing where there is none.
pub open spec fn rack_field_set(
    mods: Seq<ModulatorModel>,
    i: usize,
    field: CrossModField,
    value: F32Bits,
) -> Seq<ModulatorModel> {
    if i < mods.len() {
        mods.update(i as int, field_written(mods[i as int], field, value))
    } else {
        mods
    }
}

/// The user sets `field` of modulator `i`: the field changes, and siblings that
/// drive it move around the new value.
pub open spec fn rack_field_turned(
    mods: Seq<ModulatorModel>,
    i: usize,
    field: CrossModField,
    value: F32Bits,
) -> Seq<ModulatorModel> {
    rack_rebased(rack_field_set(mods, i, field, value), sibling_field(i, field), value)
}

/// A rack after a command. A modulator inserted now runs at `sample_rate`.
pub open spec fn rack_commanded(
    mods: Seq<ModulatorModel>,
    cmd: RackCommand,
    sample_rate: F32Bits,
) -> Seq<ModulatorModel> {
    match cmd {
        RackCommand::Insert { index, source } => mods.insert(
            clip(index, mods.len()),
            fresh_modulator(source, sample_rate),
        ),
        RackCommand::Remove { index } => if index < mods.len() {
            rack_after(mods.remove(index as int), RackEdit::ModulatorRemoved { removed: index })
        } else {
            mods
        },
        RackCommand::SetRate { mod_index, rate } => rack_field_turned(
            mods,
            mod_index,
            CrossModField::Rate,
            rate,
        ),
        RackCommand::SetWaveform { mod_index, waveform } => if mod_index < mods.len() {
            match mods[mod_index as int].source {
                ModSource::Lfo { rate, phase, .. } => mods.update(
                    mod_index as int,
                    ModulatorModel {
                        source: ModSource::Lfo { waveform, rate, phase },
                        ..mods[mod_index as int]
                    },
                ),
                _ => mods,
            }
        } else {
            mods
        },
        RackCommand::SetSource { mod_index, source } => if mod_index < mods.len() {
            mods.update(
                mod_index as int,
                ModulatorModel {
                    source,
                    last_output: F32Bits { bits: 0 },
                    ..mods[mod_index as int]
                },
            )
        } else {
            mods
        },
        RackCommand::SetEnvelope { mod_index, attack, decay, sustain, release } => {
            let a = rack_field_turned(mods, mod_index, CrossModField::Attack, attack);
            let d = rack_field_turned(a, mod_index, CrossModField::Decay, decay);
            let s = rack_field_turned(d, mod_index, CrossModField::Sustain, sustain);
            rack_field_turned(s, mod_index, CrossModField::Release, release)
        },
        RackCommand::AddTarget { mod_index, target } => if mod_index < mods.len() {
            let m = mods[mod_index as int];
            mods.update(
                mod_index as int,
                ModulatorModel { targets: m.targets.push(target), ..m },
            )
        } else {
            mods
        },
        RackCommand::RemoveTarget { mod_index, target_index } => if mod_index < mods.len()
            && target_index < mods[mod_index as int].targets.len() {
            let m = mods[mod_index as int];
            mods.update(
                mod_index as int,
                ModulatorModel { targets: m.targets.remove(target_index as int), ..m },
            )
        } else {
            mods
        },
        RackCommand::SetDepth { mod_index, target_index, depth } => rack_field_set(
            mods,
            mod_index,
            CrossModField::Depth(target_index),
            depth,
        ),
    }
}

fn set_rack_field(mods: &mut Vec<Modulator>, i: usize, field: CrossModField, value: F32Bits)
    ensures
        rack(final(mods)@) == rack_field_set(rack(old(mods)@), i, field, value),
{
    let ghost before = rack(mods@);
    if i < mods.len() {
        apply_cross_mod_field(&mut mods[i], field, value);
    }
    assert(rack(mods@) =~= rack_field_set(before, i, field, value));
}

fn turn_rack_field(mods: &mut Vec<Modulator>, i: usize, field: CrossModField, value: F32Bits)
    ensures
        rack(final(mods)@) == rack_field_turned(rack(old(mods)@), i, field, value),
{
    set_rack_field(mods, i, field, value);
    update_cross_mod_base(mods, i, field, value);
}

/// Carry out a command on a rack. A modulator inserted now runs at
/// `sample_rate`.
pub fn command_rack(mods: &mut Vec<Modulator>, cmd: RackCommand, sample_rate: F32Bits)
    ensures
        rack(final(mods)@) == rack_commanded(rack(old(mods)@), cmd, sample_rate),
{
    let ghost before = rack(mods@);
    match cmd {
        RackCommand::Insert { index, source } => {
            let at: usize = if index < mods.len() {
                index
            } else {
                mods.len()
            };
            mods.insert(at, Modulator::new(source, sample_rate));
            assert(rack(mods@) =~= rack_commanded(before, cmd, sample_rate));
        },
        RackCommand::Remove { index } => {
            if index < mods.len() {
                mods.remove(index);
                assert(rack(mods@) =~= before.remove(index as int));
                fixup_cross_mod_after_remove(mods, index);
            }
        },
        RackCommand::SetRate { mod_index, rate } => {
            turn_rack_field(mods, mod_index, CrossModField::Rate, rate);
        },
        RackCommand::SetWaveform { mod_index, waveform } => {
            if mod_index < mods.len() {
                if let ModSource::Lfo { waveform: w, .. } = &mut mods[mod_index].source {
                    *w = waveform;
                }
            }
            assert(rack(mods@) =~= rack_commanded(before, cmd, sample_rate));
        },
        RackCommand::SetSource { mod_index, source } => {
            if mod_index < mods.len() {
                mods[mod_index].source = source;
                mods[mod_index].last_output = F32Bits { bits: 0 };
            }
            assert(rack(mods@) =~= rack_commanded(before, cmd, sample_rate));
        },
        RackCommand::SetEnvelope { mod_index, attack, decay, sustain, release } => {
            turn_rack_field(mods, mod_index, CrossModField::Attack, attack);
            turn_rack_field(mods, mod_index, CrossModField::Decay, decay);
            turn_rack_field(mods, mod_index, CrossModField::Sustain, sustain);
            turn_rack_field(mods, mod_index, CrossModField::Release, release);
        },
        RackCommand::AddTarget { mod_index, target } => {
            if mod_index < mods.len() {
                mods[mod_index].targets.push(target);
            }
            assert(rack(mods@) =~= rack_commanded(before, cmd, sample_rate));
        },
        RackCommand::RemoveTarget { mod_index, target_index } => {
            if mod_index < mods.len() && target_index < mods[mod_index].targets.len() {
                mods[mod_index].targets.remove(target_index);
            }
            assert(rack(mods@) =~= rack_commanded(before, cmd, sample_rate));
        },
        RackCommand::SetDepth { mod_index, target_index, depth } => {
            set_rack_field(mods, mod_index, CrossModField::Depth(target_index), depth);
        },
    }
}

} // verus!
