//! Writing a session: from what the user interface holds to the tables of a
//! session file.

use vstd::prelude::*;

use crate::config::{
    text_view, ParamSetting, PianoConfig, RemapConfig, RemapTarget, TargetModel,
};
use crate::loader::{member_mod_named, sibling_named};
use crate::modulation::{sibling_field, CrossModField, ModTargetKind};
use crate::notes::{format_range, note_name, note_names_read_back, note_text, range_text};
use crate::scalar::{F32Bits, F64Bits};
use crate::session::{
    event_tables, events_of, pattern_of, EventRawModel, PatternError, PatternEventRaw,
    PatternModel, PatternRaw, PatternRawModel, WIDE_TWO,
};
use crate::text::{
    key_place, keys_sorted, place_settled, placing_keeps_keys_sorted, precedes, same_text,
};

verus! {

// ---------------------------------------------------------------------------
// What is saved
// ---------------------------------------------------------------------------

/// An instrument slot to save.
#[derive(Debug)]
pub struct SaveInstrumentSlot {
    pub range: Option<(u8, u8)>,
    pub transpose: i8,
    /// Lane-scoped modulators, whose targets carry their chain slot.
    pub modulators: Vec<SaveModulator>,
    pub instrument: Option<SaveInstrument>,
    pub effects: Vec<SaveEffect>,
    pub pattern: Option<SavePattern>,
    pub group: Option<usize>,
}

/// A submix group to save.
#[derive(Debug)]
pub struct SaveGroup {
    pub name: Option<String>,
    pub volume: F32Bits,
    pub pan: F32Bits,
    pub effects: Vec<SaveEffect>,
    pub modulators: Vec<SaveModulator>,
}

/// A pattern to save.
#[derive(Debug)]
pub struct SavePattern {
    pub bpm: F32Bits,
    pub length_beats: F32Bits,
    pub looping: bool,
    pub base_note: Option<u8>,
    /// (frame, status, note, velocity)
    pub events: Vec<(u64, u8, u8, u8)>,
    pub enabled: bool,
    pub in_key: bool,
}

/// The source of a modulator to save.
#[derive(Debug)]
pub enum SaveModSource {
    Lfo { waveform: String, rate: F32Bits },
    Envelope { attack: F32Bits, decay: F32Bits, sustain: F32Bits, release: F32Bits },
    /// A learned MIDI control: a controller, the pitch-bend wheel, or neither
    /// yet.
    MidiLearn { cc: Option<u8>, pitch_bend: bool },
}

/// A modulator to save.
#[derive(Debug)]
pub struct SaveModulator {
    pub source: SaveModSource,
    pub targets: Vec<SaveModTarget>,
}

/// A modulation target to save.
#[derive(Debug)]
pub struct SaveModTarget {
    pub kind: ModTargetKind,
    pub label: String,
    pub depth: F32Bits,
    /// Chain slot of a plugin parameter: 0 is the instrument.
    pub slot: usize,
}

/// An instrument plugin to save.
#[derive(Debug)]
pub struct SaveInstrument {
    pub plugin: String,
    pub volume: F32Bits,
    pub preset: Option<String>,
    pub params: Vec<ParamSetting>,
    pub pitch_bend_range: F64Bits,
    pub remap: Vec<RemapConfig>,
}

/// An effect plugin to save.
#[derive(Debug)]
pub struct SaveEffect {
    pub plugin: String,
    pub mix: F32Bits,
    pub preset: Option<String>,
    pub params: Vec<ParamSetting>,
}

// ---------------------------------------------------------------------------
// Modulation targets
// ---------------------------------------------------------------------------

/// A target table. A field that is `None` is left out of the file.
#[derive(Debug)]
pub struct ModTargetOut {
    pub param: Option<String>,
    pub slot: Option<usize>,
    pub member: Option<usize>,
    pub bus: Option<usize>,
    pub mod_rate: Option<usize>,
    pub mod_depth: Option<Vec<usize>>,
    pub mod_attack: Option<usize>,
    pub mod_decay: Option<usize>,
    pub mod_sustain: Option<usize>,
    pub mod_release: Option<usize>,
    pub depth: F32Bits,
}

/// What a target table holds.
pub struct TargetOutModel {
    pub param: Option<Seq<char>>,
    pub slot: Option<usize>,
    pub member: Option<usize>,
    pub bus: Option<usize>,
    pub mod_rate: Option<usize>,
    pub mod_depth: Option<Seq<usize>>,
    pub mod_attack: Option<usize>,
    pub mod_decay: Option<usize>,
    pub mod_sustain: Option<usize>,
    pub mod_release: Option<usize>,
    pub depth: F32Bits,
}

impl View for ModTargetOut {
    type V = TargetOutModel;

    open spec fn view(&self) -> TargetOutModel {
        TargetOutModel {
            param: text_view(self.param),
            slot: self.slot,
            member: self.member,
            bus: self.bus,
            mod_rate: self.mod_rate,
            mod_depth: match self.mod_depth {
                Some(pair) => Some(pair@),
                None => None,
            },
            mod_attack: self.mod_attack,
            mod_decay: self.mod_decay,
            mod_sustain: self.mod_sustain,
            mod_release: self.mod_release,
            depth: self.depth,
        }
    }
}

/// A target table with nothing in it but a depth.
pub open spec fn blank_target(depth: F32Bits) -> TargetOutModel {
    TargetOutModel {
        param: None,
        slot: None,
        member: None,
        bus: None,
        mod_rate: None,
        mod_depth: None,
        mod_attack: None,
        mod_decay: None,
        mod_sustain: None,
        mod_release: None,
        depth,
    }
}

/// A table with the field for `field` of modulator `mod_index` filled in.
pub open spec fn with_field(
    out: TargetOutModel,
    mod_index: usize,
    field: CrossModField,
) -> TargetOutModel {
    match field {
        CrossModField::Rate => TargetOutModel { mod_rate: Some(mod_index), ..out },
        CrossModField::Attack => TargetOutModel { mod_attack: Some(mod_index), ..out },
        CrossModField::Decay => TargetOutModel { mod_decay: Some(mod_index), ..out },
        CrossModField::Sustain => TargetOutModel { mod_sustain: Some(mod_index), ..out },
        CrossModField::Release => TargetOutModel { mod_release: Some(mod_index), ..out },
        CrossModField::Depth(ti) => TargetOutModel {
            mod_depth: Some(seq![mod_index, ti]),
            ..out
        },
    }
}

/// A slot number as it is written: the instrument's is left out.
pub open spec fn slot_out(slot: usize) -> Option<usize> {
    if slot != 0 {
        Some(slot)
    } else {
        None
    }
}

/// The table for a target.
pub open spec fn target_out(
    kind: ModTargetKind,
    label: Seq<char>,
    depth: F32Bits,
    slot: usize,
) -> TargetOutModel {
    let blank = blank_target(depth);
    match kind {
        ModTargetKind::PluginParam { .. } => TargetOutModel {
            param: Some(label),
            slot: slot_out(slot),
            ..blank
        },
        ModTargetKind::GroupMember { member, slot, .. } => TargetOutModel {
            param: Some(label),
            member: Some(member),
            slot: slot_out(slot),
            ..blank
        },
        ModTargetKind::GroupBus { effect_index, .. } => TargetOutModel {
            param: Some(label),
            bus: Some(effect_index),
            ..blank
        },
        ModTargetKind::GroupMemberMod { member, mod_index, field } => with_field(
            TargetOutModel { member: Some(member), ..blank },
            mod_index,
            field,
        ),
        ModTargetKind::ModulatorRate { mod_index } => with_field(
            blank,
            mod_index,
            CrossModField::Rate,
        ),
        ModTargetKind::ModulatorDepth { mod_index, target_index } => with_field(
            blank,
            mod_index,
            CrossModField::Depth(target_index),
        ),
        ModTargetKind::ModulatorAttack { mod_index } => with_field(
            blank,
            mod_index,
            CrossModField::Attack,
        ),
        ModTargetKind::ModulatorDecay { mod_index } => with_field(
            blank,
            mod_index,
            CrossModField::Decay,
        ),
        ModTargetKind::ModulatorSustain { mod_index } => with_field(
            blank,
            mod_index,
            CrossModField::Sustain,
        ),
        ModTargetKind::ModulatorRelease { mod_index } => with_field(
            blank,
            mod_index,
            CrossModField::Release,
        ),
    }
}

fn fill_field(out: &mut ModTargetOut, mod_index: usize, field: CrossModField)
    ensures
        final(out)@ == with_field(old(out)@, mod_index, field),
{
    match field {
        CrossModField::Rate => {
            out.mod_rate = Some(mod_index);
        },
        CrossModField::Attack => {
            out.mod_attack = Some(mod_index);
        },
        CrossModField::Decay => {
            out.mod_decay = Some(mod_index);
        },
        CrossModField::Sustain => {
            out.mod_sustain = Some(mod_index);
        },
        CrossModField::Release => {
            out.mod_release = Some(mod_index);
        },
        CrossModField::Depth(ti) => {
            let mut pair: Vec<usize> = Vec::new();
            pair.push(mod_index);
            pair.push(ti);
            assert(pair@ =~= seq![mod_index, ti]);
            out.mod_depth = Some(pair);
        },
    }
}

/// The table for a target.
pub fn save_mod_target_to_out(t: &SaveModTarget) -> (out: ModTargetOut)
    ensures
        out@ == target_out(t.kind, t.label@, t.depth, t.slot),
{
    let mut out = ModTargetOut {
        param: None,
        slot: None,
        member: None,
        bus: None,
        mod_rate: None,
        mod_depth: None,
        mod_attack: None,
        mod_decay: None,
        mod_sustain: None,
        mod_release: None,
        depth: t.depth,
    };
    match t.kind {
        ModTargetKind::PluginParam { .. } => {
            out.param = Some(t.label.clone());
            if t.slot != 0 {
                out.slot = Some(t.slot);
            }
        },
        ModTargetKind::GroupMember { member, slot, .. } => {
            out.param = Some(t.label.clone());
            out.member = Some(member);
            if slot != 0 {
                out.slot = Some(slot);
            }
        },
        ModTargetKind::GroupBus { effect_index, .. } => {
            out.param = Some(t.label.clone());
            out.bus = Some(effect_index);
        },
        ModTargetKind::GroupMemberMod { member, mod_index, field } => {
            out.member = Some(member);
            fill_field(&mut out, mod_index, field);
        },
        ModTargetKind::ModulatorRate { mod_index } => {
            fill_field(&mut out, mod_index, CrossModField::Rate);
        },
        ModTargetKind::ModulatorDepth { mod_index, target_index } => {
            fill_field(&mut out, mod_index, CrossModField::Depth(target_index));
        },
        ModTargetKind::ModulatorAttack { mod_index } => {
            fill_field(&mut out, mod_index, CrossModField::Attack);
        },
        ModTargetKind::ModulatorDecay { mod_index } => {
            fill_field(&mut out, mod_index, CrossModField::Decay);
        },
        ModTargetKind::ModulatorSustain { mod_index } => {
            fill_field(&mut out, mod_index, CrossModField::Sustain);
        },
        ModTargetKind::ModulatorRelease { mod_index } => {
            fill_field(&mut out, mod_index, CrossModField::Release);
        },
    }
    out
}

// ---------------------------------------------------------------------------
// Modulators
// ---------------------------------------------------------------------------

/// A modulator table. A field that is `None` is left out of the file.
#[derive(Debug)]
pub struct ModulatorOut {
    pub mod_type: String,
    pub waveform: Option<String>,
    pub rate: Option<F32Bits>,
    pub attack: Option<F32Bits>,
    pub decay: Option<F32Bits>,
    pub sustain: Option<F32Bits>,
    pub release: Option<F32Bits>,
    pub midi_cc: Option<u8>,
    pub midi_pitch_bend: bool,
    pub targets: Vec<ModTargetOut>,
}

/// What a modulator table holds.
pub struct ModulatorOutModel {
    pub mod_type: Seq<char>,
    pub waveform: Option<Seq<char>>,
    pub rate: Option<F32Bits>,
    pub attack: Option<F32Bits>,
    pub decay: Option<F32Bits>,
    pub sustain: Option<F32Bits>,
    pub release: Option<F32Bits>,
    pub midi_cc: Option<u8>,
    pub midi_pitch_bend: bool,
    pub targets: Seq<TargetOutModel>,
}

/// Target tables as a sequence of models.
pub open spec fn target_tables(targets: Seq<ModTargetOut>) -> Seq<TargetOutModel> {
    Seq::new(targets.len(), |i: int| targets[i]@)
}

impl View for ModulatorOut {
    type V = ModulatorOutModel;

    open spec fn view(&self) -> ModulatorOutModel {
        ModulatorOutModel {
            mod_type: self.mod_type@,
            waveform: text_view(self.waveform),
            rate: self.rate,
            attack: self.attack,
            decay: self.decay,
            sustain: self.sustain,
            release: self.release,
            midi_cc: self.midi_cc,
            midi_pitch_bend: self.midi_pitch_bend,
            targets: target_tables(self.targets@),
        }
    }
}

/// Modulator tables as a sequence of models.
pub open spec fn modulator_tables(mods: Seq<ModulatorOut>) -> Seq<ModulatorOutModel> {
    Seq::new(mods.len(), |i: int| mods[i]@)
}

/// The table for a modulator: only the fields of its kind are written.
pub open spec fn modulator_out(m: SaveModulator) -> ModulatorOutModel {
    let targets = Seq::new(
        m.targets@.len(),
        |i: int|
            target_out(
                m.targets@[i].kind,
                m.targets@[i].label@,
                m.targets@[i].depth,
                m.targets@[i].slot,
            ),
    );
    let blank = ModulatorOutModel {
        mod_type: Seq::empty(),
        waveform: None,
        rate: None,
        attack: None,
        decay: None,
        sustain: None,
        release: None,
        midi_cc: None,
        midi_pitch_bend: false,
        targets,
    };
    match m.source {
        SaveModSource::Lfo { waveform, rate } => ModulatorOutModel {
            mod_type: "lfo"@,
            waveform: Some(waveform@),
            rate: Some(rate),
            ..blank
        },
        SaveModSource::Envelope { attack, decay, sustain, release } => ModulatorOutModel {
            mod_type: "envelope"@,
            attack: Some(attack),
            decay: Some(decay),
            sustain: Some(sustain),
            release: Some(release),
            ..blank
        },
        SaveModSource::MidiLearn { cc, pitch_bend } => ModulatorOutModel {
            mod_type: "midi"@,
            midi_cc: cc,
            midi_pitch_bend: pitch_bend,
            ..blank
        },
    }
}

fn modulator_to_out(m: &SaveModulator) -> (out: ModulatorOut)
    ensures
        out@ == modulator_out(*m),
{
    let mut targets: Vec<ModTargetOut> = Vec::new();
    let ghost tables = modulator_out(*m).targets;
    let mut i: usize = 0;
    assert(target_tables(targets@) =~= tables.take(0));
    while i < m.targets.len()
        invariant
            i <= m.targets.len(),
            tables == modulator_out(*m).targets,
            target_tables(targets@) == tables.take(i as int),
        decreases m.targets.len() - i,
    {
        let ghost done = targets@;
        let out = save_mod_target_to_out(&m.targets[i]);
        targets.push(out);
        assert(target_tables(targets@) =~= target_tables(done).push(out@));
        assert(tables.take(i + 1) =~= tables.take(i as int).push(tables[i as int]));
        i += 1;
    }
    assert(tables.take(m.targets@.len() as int) =~= tables);
    match &m.source {
        SaveModSource::Lfo { waveform, rate } => ModulatorOut {
            mod_type: "lfo".to_owned(),
            waveform: Some(waveform.clone()),
            rate: Some(*rate),
            attack: None,
            decay: None,
            sustain: None,
            release: None,
            midi_cc: None,
            midi_pitch_bend: false,
            targets,
        },
        SaveModSource::Envelope { attack, decay, sustain, release } => ModulatorOut {
            mod_type: "envelope".to_owned(),
            waveform: None,
            rate: None,
            attack: Some(*attack),
            decay: Some(*decay),
            sustain: Some(*sustain),
            release: Some(*release),
            midi_cc: None,
            midi_pitch_bend: false,
            targets,
        },
        SaveModSource::MidiLearn { cc, pitch_bend } => ModulatorOut {
            mod_type: "midi".to_owned(),
            waveform: None,
            rate: None,
            attack: None,
            decay: None,
            sustain: None,
            release: None,
            midi_cc: *cc,
            midi_pitch_bend: *pitch_bend,
            targets,
        },
    }
}

/// The tables for modulators.
pub open spec fn modulators_out(mods: Seq<SaveModulator>) -> Seq<ModulatorOutModel> {
    Seq::new(mods.len(), |i: int| modulator_out(mods[i]))
}

/// The tables for modulators, in order.
pub fn mods_to_out(mods: &Vec<SaveModulator>) -> (out: Vec<ModulatorOut>)
    ensures
        modulator_tables(out@) == modulators_out(mods@),
{
    let mut out: Vec<ModulatorOut> = Vec::new();
    let ghost tables = modulators_out(mods@);
    let mut i: usize = 0;
    assert(modulator_tables(out@) =~= tables.take(0));
    while i < mods.len()
        invariant
            i <= mods.len(),
            tables == modulators_out(mods@),
            modulator_tables(out@) == tables.take(i as int),
        decreases mods.len() - i,
    {
        let ghost done = out@;
        let m = modulator_to_out(&mods[i]);
        out.push(m);
        assert(modulator_tables(out@) =~= modulator_tables(done).push(m@));
        assert(tables.take(i + 1) =~= tables.take(i as int).push(tables[i as int]));
        i += 1;
    }
    assert(tables.take(mods@.len() as int) =~= tables);
    out
}

// ---------------------------------------------------------------------------
// Parameters and remappings, by name
// ---------------------------------------------------------------------------

/// What a parameter setting holds.
pub struct SettingModel {
    pub name: Seq<char>,
    pub value: F32Bits,
}

impl View for ParamSetting {
    type V = SettingModel;

    open spec fn view(&self) -> SettingModel {
        SettingModel { name: self.name@, value: self.value }
    }
}

/// Settings as a sequence of models.
pub open spec fn setting_list(settings: Seq<ParamSetting>) -> Seq<SettingModel> {
    Seq::new(settings.len(), |i: int| settings[i]@)
}

/// The names of settings.
pub open spec fn setting_names(settings: Seq<SettingModel>) -> Seq<Seq<char>> {
    Seq::new(settings.len(), |i: int| settings[i].name)
}

/// Sorted settings with one more: a name that is there gets the new value.
pub open spec fn setting_put(sorted: Seq<SettingModel>, s: SettingModel) -> Seq<SettingModel> {
    let at = key_place(setting_names(sorted), s.name, sorted.len()) as int;
    if at < sorted.len() && sorted[at].name == s.name {
        sorted.update(at, s)
    } else {
        sorted.insert(at, s)
    }
}

/// The first `n` settings sorted by name; of two with one name the later one
/// stays.
pub open spec fn settings_sorted(settings: Seq<SettingModel>, n: nat) -> Seq<SettingModel>
    decreases n,
{
    if n == 0 {
        Seq::empty()
    } else {
        setting_put(settings_sorted(settings, (n - 1) as nat), settings[n - 1])
    }
}

/// Sorted settings are in dictionary order, each name once.
pub proof fn sorted_settings_in_order(settings: Seq<SettingModel>, n: nat)
    requires
        n <= settings.len(),
    ensures
        keys_sorted(setting_names(settings_sorted(settings, n))),
    decreases n,
{
    if n > 0 {
        sorted_settings_in_order(settings, (n - 1) as nat);
        let before = settings_sorted(settings, (n - 1) as nat);
        let s = settings[n - 1];
        let keys = setting_names(before);
        let at = key_place(keys, s.name, keys.len()) as int;
        placing_keeps_keys_sorted(keys, s.name);
        let after = setting_names(settings_sorted(settings, n));
        if at < before.len() && before[at].name == s.name {
            assert(after =~= keys);
        } else {
            assert(after =~= keys.insert(at, s.name));
        }
    }
}

/// Settings sorted by name.
pub fn sort_settings(settings: &Vec<ParamSetting>) -> (out: Vec<ParamSetting>)
    ensures
        setting_list(out@) == settings_sorted(setting_list(settings@), settings@.len()),
{
    let ghost list = setting_list(settings@);
    let mut out: Vec<ParamSetting> = Vec::new();
    let mut i: usize = 0;
    assert(setting_list(out@) =~= settings_sorted(list, 0));
    while i < settings.len()
        invariant
            i <= settings.len(),
            list == setting_list(settings@),
            setting_list(out@) == settings_sorted(list, i as nat),
        decreases settings.len() - i,
    {
        let s: &ParamSetting = &settings[i];
        assert(list[i as int] == s@);
        let ghost sorted = setting_list(out@);
        let ghost keys = setting_names(sorted);
        let mut at: usize = 0;
        while at < out.len() && precedes(out[at].name.as_str(), s.name.as_str())
            invariant
                at <= out.len(),
                sorted == setting_list(out@),
                keys == setting_names(sorted),
                key_place(keys, s.name@, at as nat) == at,
            decreases out.len() - at,
        {
            assert(keys[at as int] == out@[at as int]@.name);
            at += 1;
        }
        proof {
            if at < out.len() {
                assert(keys[at as int] == out@[at as int]@.name);
                assert(key_place(keys, s.name@, (at + 1) as nat) == at);
                place_settled(keys, s.name@, (at + 1) as nat, keys.len());
            }
        }
        let setting = ParamSetting { name: s.name.clone(), value: s.value };
        if at < out.len() && same_text(out[at].name.as_str(), s.name.as_str()) {
            out.set(at, setting);
        } else {
            out.insert(at, setting);
        }
        assert(setting_list(out@) =~= setting_put(sorted, s@));
        i += 1;
    }
    out
}

/// What a remapping holds.
pub struct RemapModel {
    pub source: Seq<char>,
    pub note: Seq<char>,
    pub detune: F64Bits,
}

impl View for RemapConfig {
    type V = RemapModel;

    open spec fn view(&self) -> RemapModel {
        RemapModel {
            source: self.source@,
            note: self.target.note@,
            detune: self.target.detune,
        }
    }
}

/// Remappings as a sequence of models.
pub open spec fn remap_list(remap: Seq<RemapConfig>) -> Seq<RemapModel> {
    Seq::new(remap.len(), |i: int| remap[i]@)
}

/// The names of the remapped notes.
pub open spec fn remap_names(remap: Seq<RemapModel>) -> Seq<Seq<char>> {
    Seq::new(remap.len(), |i: int| remap[i].source)
}

/// Sorted remappings with one more: a note that is there gets the new target.
pub open spec fn remap_put(sorted: Seq<RemapModel>, r: RemapModel) -> Seq<RemapModel> {
    let at = key_place(remap_names(sorted), r.source, sorted.len()) as int;
    if at < sorted.len() && sorted[at].source == r.source {
        sorted.update(at, r)
    } else {
        sorted.insert(at, r)
    }
}

/// The first `n` remappings sorted by the name of the remapped note; of two
/// for one note the later one stays.
pub open spec fn remaps_sorted(remap: Seq<RemapModel>, n: nat) -> Seq<RemapModel>
    decreases n,
{
    if n == 0 {
        Seq::empty()
    } else {
        remap_put(remaps_sorted(remap, (n - 1) as nat), remap[n - 1])
    }
}

/// Remappings sorted by the name of the remapped note.
pub fn sort_remaps(remap: &Vec<RemapConfig>) -> (out: Vec<RemapConfig>)
    ensures
        remap_list(out@) == remaps_sorted(remap_list(remap@), remap@.len()),
{
    let ghost list = remap_list(remap@);
    let mut out: Vec<RemapConfig> = Vec::new();
    let mut i: usize = 0;
    assert(remap_list(out@) =~= remaps_sorted(list, 0));
    while i < remap.len()
        invariant
            i <= remap.len(),
            list == remap_list(remap@),
            remap_list(out@) == remaps_sorted(list, i as nat),
        decreases remap.len() - i,
    {
        let r: &RemapConfig = &remap[i];
        assert(list[i as int] == r@);
        let ghost sorted = remap_list(out@);
        let ghost keys = remap_names(sorted);
        let mut at: usize = 0;
        while at < out.len() && precedes(out[at].source.as_str(), r.source.as_str())
            invariant
                at <= out.len(),
                sorted == remap_list(out@),
                keys == remap_names(sorted),
                key_place(keys, r.source@, at as nat) == at,
            decreases out.len() - at,
        {
            assert(keys[at as int] == out@[at as int]@.source);
            at += 1;
        }
        proof {
            if at < out.len() {
                assert(keys[at as int] == out@[at as int]@.source);
                assert(key_place(keys, r.source@, (at + 1) as nat) == at);
                place_settled(keys, r.source@, (at + 1) as nat, keys.len());
            }
        }
        let entry = RemapConfig {
            source: r.source.clone(),
            target: RemapTarget { note: r.target.note.clone(), detune: r.target.detune },
        };
        if at < out.len() && same_text(out[at].source.as_str(), r.source.as_str()) {
            out.set(at, entry);
        } else {
            out.insert(at, entry);
        }
        assert(remap_list(out@) =~= remap_put(sorted, r@));
        i += 1;
    }
    out
}

// ---------------------------------------------------------------------------
// Patterns
// ---------------------------------------------------------------------------

/// The table for a pattern event.
pub open spec fn event_out(e: (u64, u8, u8, u8)) -> EventRawModel {
    EventRawModel {
        frame: e.0,
        status: if e.1 == 0x90 {
            "on"@
        } else {
            "off"@
        },
        note: note_text(e.2),
        velocity: e.3,
    }
}

/// The table for a pattern. The transpose mode is written only for "in_key".
pub open spec fn pattern_out(p: SavePattern) -> PatternRawModel {
    PatternRawModel {
        bpm: p.bpm,
        length_beats: p.length_beats,
        looping: p.looping,
        base_note: match p.base_note {
            Some(n) => Some(note_text(n)),
            None => None,
        },
        events: Seq::new(p.events@.len(), |i: int| event_out(p.events@[i])),
        enabled: p.enabled,
        transpose: if p.in_key {
            Some("in_key"@)
        } else {
            None
        },
    }
}

/// The table for a pattern.
pub fn pattern_to_out(p: &SavePattern) -> (out: PatternRaw)
    ensures
        out@ == pattern_out(*p),
{
    let ghost tables = pattern_out(*p).events;
    let mut events: Vec<PatternEventRaw> = Vec::new();
    let mut i: usize = 0;
    assert(event_tables(events@) =~= tables.take(0));
    while i < p.events.len()
        invariant
            i <= p.events.len(),
            tables == pattern_out(*p).events,
            event_tables(events@) == tables.take(i as int),
        decreases p.events.len() - i,
    {
        let ghost done = events@;
        let (frame, status, note, velocity) = p.events[i];
        let e = PatternEventRaw {
            frame,
            status: if status == 0x90 {
                "on".to_owned()
            } else {
                "off".to_owned()
            },
            note: note_name(note),
            velocity,
        };
        events.push(e);
        assert(event_tables(events@) =~= event_tables(done).push(e@));
        assert(tables.take(i + 1) =~= tables.take(i as int).push(tables[i as int]));
        i += 1;
    }
    assert(tables.take(p.events@.len() as int) =~= tables);
    PatternRaw {
        bpm: p.bpm,
        length_beats: p.length_beats,
        looping: p.looping,
        base_note: match p.base_note {
            Some(n) => Some(note_name(n)),
            None => None,
        },
        events,
        enabled: p.enabled,
        transpose: if p.in_key {
            Some("in_key".to_owned())
        } else {
            None
        },
    }
}

// ---------------------------------------------------------------------------
// Slots, groups and the session
// ---------------------------------------------------------------------------

/// An effect table.
#[derive(Debug)]
pub struct EffectOut {
    pub plugin: String,
    pub mix: F32Bits,
    pub preset: Option<String>,
    pub params: Vec<ParamSetting>,
}

/// What an effect table holds.
pub struct EffectOutModel {
    pub plugin: Seq<char>,
    pub mix: F32Bits,
    pub preset: Option<Seq<char>>,
    pub params: Seq<SettingModel>,
}

impl View for EffectOut {
    type V = EffectOutModel;

    open spec fn view(&self) -> EffectOutModel {
        EffectOutModel {
            plugin: self.plugin@,
            mix: self.mix,
            preset: text_view(self.preset),
            params: setting_list(self.params@),
        }
    }
}

/// Effect tables as a sequence of models.
pub open spec fn effect_tables(effects: Seq<EffectOut>) -> Seq<EffectOutModel> {
    Seq::new(effects.len(), |i: int| effects[i]@)
}

/// The table for an effect.
pub open spec fn effect_out(fx: SaveEffect) -> EffectOutModel {
    EffectOutModel {
        plugin: fx.plugin@,
        mix: fx.mix,
        preset: text_view(fx.preset),
        params: settings_sorted(setting_list(fx.params@), fx.params@.len()),
    }
}

/// The tables for effects.
pub open spec fn effects_out(effects: Seq<SaveEffect>) -> Seq<EffectOutModel> {
    Seq::new(effects.len(), |i: int| effect_out(effects[i]))
}

fn copy_text(s: &Option<String>) -> (out: Option<String>)
    ensures
        text_view(out) == text_view(*s),
{
    match s {
        Some(t) => Some(t.clone()),
        None => None,
    }
}

/// The table for an effect.
pub fn effect_to_out(fx: &SaveEffect) -> (out: EffectOut)
    ensures
        out@ == effect_out(*fx),
{
    EffectOut {
        plugin: fx.plugin.clone(),
        mix: fx.mix,
        preset: copy_text(&fx.preset),
        params: sort_settings(&fx.params),
    }
}

fn effects_to_out(effects: &Vec<SaveEffect>) -> (out: Vec<EffectOut>)
    ensures
        effect_tables(out@) == effects_out(effects@),
{
    let ghost tables = effects_out(effects@);
    let mut out: Vec<EffectOut> = Vec::new();
    let mut i: usize = 0;
    assert(effect_tables(out@) =~= tables.take(0));
    while i < effects.len()
        invariant
            i <= effects.len(),
            tables == effects_out(effects@),
            effect_tables(out@) == tables.take(i as int),
        decreases effects.len() - i,
    {
        let ghost done = out@;
        let e = effect_to_out(&effects[i]);
        out.push(e);
        assert(effect_tables(out@) =~= effect_tables(done).push(e@));
        assert(tables.take(i + 1) =~= tables.take(i as int).push(tables[i as int]));
        i += 1;
    }
    assert(tables.take(effects@.len() as int) =~= tables);
    out
}

/// An instrument table; the plugin's fields stand beside the slot's own.
#[derive(Debug)]
pub struct InstrumentSlotOut {
    pub plugin: Option<String>,
    pub volume: Option<F32Bits>,
    pub preset: Option<String>,
    pub params: Vec<ParamSetting>,
    pub pitch_bend_range: Option<F64Bits>,
    pub remap: Vec<RemapConfig>,
    pub modulators: Vec<ModulatorOut>,
    pub range: Option<String>,
    pub transpose: i8,
    pub group: Option<usize>,
    pub effects: Vec<EffectOut>,
    pub pattern: Option<PatternRaw>,
}

/// What an instrument table holds.
pub struct SlotOutModel {
    pub plugin: Option<Seq<char>>,
    pub volume: Option<F32Bits>,
    pub preset: Option<Seq<char>>,
    pub params: Seq<SettingModel>,
    pub pitch_bend_range: Option<F64Bits>,
    pub remap: Seq<RemapModel>,
    pub modulators: Seq<ModulatorOutModel>,
    pub range: Option<Seq<char>>,
    pub transpose: i8,
    pub group: Option<usize>,
    pub effects: Seq<EffectOutModel>,
    pub pattern: Option<PatternRawModel>,
}

impl View for InstrumentSlotOut {
    type V = SlotOutModel;

    open spec fn view(&self) -> SlotOutModel {
        SlotOutModel {
            plugin: text_view(self.plugin),
            volume: self.volume,
            preset: text_view(self.preset),
            params: setting_list(self.params@),
            pitch_bend_range: self.pitch_bend_range,
            remap: remap_list(self.remap@),
            modulators: modulator_tables(self.modulators@),
            range: text_view(self.range),
            transpose: self.transpose,
            group: self.group,
            effects: effect_tables(self.effects@),
            pattern: match self.pattern {
                Some(p) => Some(p@),
                None => None,
            },
        }
    }
}

/// The table for an instrument slot.
pub open spec fn slot_table(s: SaveInstrumentSlot) -> SlotOutModel {
    let empty = SlotOutModel {
        plugin: None,
        volume: None,
        preset: None,
        params: Seq::empty(),
        pitch_bend_range: None,
        remap: Seq::empty(),
        modulators: modulators_out(s.modulators@),
        range: match s.range {
            Some(r) => Some(range_text(r)),
            None => None,
        },
        transpose: s.transpose,
        group: s.group,
        effects: effects_out(s.effects@),
        pattern: match s.pattern {
            Some(p) => Some(pattern_out(p)),
            None => None,
        },
    };
    match s.instrument {
        Some(inst) => SlotOutModel {
            plugin: Some(inst.plugin@),
            volume: Some(inst.volume),
            preset: text_view(inst.preset),
            params: settings_sorted(setting_list(inst.params@), inst.params@.len()),
            pitch_bend_range: Some(inst.pitch_bend_range),
            remap: remaps_sorted(remap_list(inst.remap@), inst.remap@.len()),
            ..empty
        },
        None => empty,
    }
}

/// The table for an instrument slot.
pub fn slot_to_out(slot: &SaveInstrumentSlot) -> (out: InstrumentSlotOut)
    ensures
        out@ == slot_table(*slot),
{
    let range: Option<String> = match slot.range {
        Some(r) => Some(format_range(r)),
        None => None,
    };
    let pattern: Option<PatternRaw> = match &slot.pattern {
        Some(p) => Some(pattern_to_out(p)),
        None => None,
    };
    match &slot.instrument {
        Some(inst) => InstrumentSlotOut {
            plugin: Some(inst.plugin.clone()),
            volume: Some(inst.volume),
            preset: copy_text(&inst.preset),
            params: sort_settings(&inst.params),
            pitch_bend_range: Some(inst.pitch_bend_range),
            remap: sort_remaps(&inst.remap),
            modulators: mods_to_out(&slot.modulators),
            range,
            transpose: slot.transpose,
            group: slot.group,
            effects: effects_to_out(&slot.effects),
            pattern,
        },
        None => {
            let out = InstrumentSlotOut {
                plugin: None,
                volume: None,
                preset: None,
                params: Vec::new(),
                pitch_bend_range: None,
                remap: Vec::new(),
                modulators: mods_to_out(&slot.modulators),
                range,
                transpose: slot.transpose,
                group: slot.group,
                effects: effects_to_out(&slot.effects),
                pattern,
            };
            assert(out@.params =~= Seq::empty());
            assert(out@.remap =~= Seq::empty());
            out
        },
    }
}

/// A group table.
#[derive(Debug)]
pub struct GroupOut {
    pub name: Option<String>,
    pub volume: F32Bits,
    pub pan: F32Bits,
    pub effects: Vec<EffectOut>,
    pub modulators: Vec<ModulatorOut>,
}

/// What a group table holds.
pub struct GroupOutModel {
    pub name: Option<Seq<char>>,
    pub volume: F32Bits,
    pub pan: F32Bits,
    pub effects: Seq<EffectOutModel>,
    pub modulators: Seq<ModulatorOutModel>,
}

impl View for GroupOut {
    type V = GroupOutModel;

    open spec fn view(&self) -> GroupOutModel {
        GroupOutModel {
            name: text_view(self.name),
            volume: self.volume,
            pan: self.pan,
            effects: effect_tables(self.effects@),
            modulators: modulator_tables(self.modulators@),
        }
    }
}

/// The table for a group.
pub open spec fn group_table(g: SaveGroup) -> GroupOutModel {
    GroupOutModel {
        name: text_view(g.name),
        volume: g.volume,
        pan: g.pan,
        effects: effects_out(g.effects@),
        modulators: modulators_out(g.modulators@),
    }
}

/// The table for a group.
pub fn group_to_out(g: &SaveGroup) -> (out: GroupOut)
    ensures
        out@ == group_table(*g),
{
    GroupOut {
        name: copy_text(&g.name),
        volume: g.volume,
        pan: g.pan,
        effects: effects_to_out(&g.effects),
        modulators: mods_to_out(&g.modulators),
    }
}

/// A session's tables. Of the piano only the scale is written.
#[derive(Debug)]
pub struct SessionOut {
    pub instruments: Vec<InstrumentSlotOut>,
    pub groups: Vec<GroupOut>,
    pub piano: Option<PianoOut>,
}

/// The piano table.
#[derive(Debug)]
pub struct PianoOut {
    pub scale: Option<String>,
}

/// The tables are those of a whole session.
pub open spec fn session_saved(
    instruments: Seq<SaveInstrumentSlot>,
    groups: Seq<SaveGroup>,
    piano: Option<PianoConfig>,
    out: SessionOut,
) -> bool {
    &&& out.instruments@.len() == instruments.len()
    &&& forall|i: int|
        0 <= i < instruments.len() ==> (#[trigger] out.instruments@[i])@ == slot_table(
            instruments[i],
        )
    &&& out.groups@.len() == groups.len()
    &&& forall|i: int|
        0 <= i < groups.len() ==> (#[trigger] out.groups@[i])@ == group_table(groups[i])
    &&& match (out.piano, piano) {
        (Some(o), Some(p)) => text_view(o.scale) == text_view(p.scale),
        (None, None) => true,
        _ => false,
    }
}

/// The tables of a whole session.
pub fn save(
    instruments: &Vec<SaveInstrumentSlot>,
    groups: &Vec<SaveGroup>,
    piano: &Option<PianoConfig>,
) -> (out: SessionOut)
    ensures
        session_saved(instruments@, groups@, *piano, out),
{
    let mut slots: Vec<InstrumentSlotOut> = Vec::new();
    let mut i: usize = 0;
    while i < instruments.len()
        invariant
            i <= instruments.len(),
            slots@.len() == i,
            forall|k: int| 0 <= k < i ==> (#[trigger] slots@[k])@ == slot_table(instruments@[k]),
        decreases instruments.len() - i,
    {
        slots.push(slot_to_out(&instruments[i]));
        i += 1;
    }
    let mut tables: Vec<GroupOut> = Vec::new();
    let mut j: usize = 0;
    while j < groups.len()
        invariant
            j <= groups.len(),
            tables@.len() == j,
            forall|k: int| 0 <= k < j ==> (#[trigger] tables@[k])@ == group_table(groups@[k]),
        decreases groups.len() - j,
    {
        tables.push(group_to_out(&groups[j]));
        j += 1;
    }
    SessionOut {
        instruments: slots,
        groups: tables,
        piano: match piano {
            Some(p) => Some(PianoOut { scale: copy_text(&p.scale) }),
            None => None,
        },
    }
}

// ---------------------------------------------------------------------------
// What is left out of a file
// ---------------------------------------------------------------------------

/// Whether a volume is left out: the usual one is.
pub fn is_default_volume_f32(v: &F32Bits) -> (r: bool)
    ensures
        r == v.unity(),
{
    v.is_unity()
}

/// Whether a pan is left out: the centre is.
pub fn is_default_pan_f32(v: &F32Bits) -> (r: bool)
    ensures
        r == v.negligible(),
{
    v.is_negligible()
}

/// Whether a mix is left out: a fully wet one is.
pub fn is_default_mix_f32(v: &F32Bits) -> (r: bool)
    ensures
        r == v.unity(),
{
    v.is_unity()
}

/// Whether a slot's volume is left out.
pub fn is_default_volume_f32_opt(v: &Option<F32Bits>) -> (r: bool)
    ensures
        r == (match *v {
            Some(b) => b.unity(),
            None => true,
        }),
{
    match v {
        Some(b) => b.is_unity(),
        None => true,
    }
}

/// Whether a slot's pitch bend range is left out: 2.0 is. No other number is
/// nearer to it than the machine epsilon.
pub fn is_default_pitch_bend_range_opt(v: &Option<F64Bits>) -> (r: bool)
    ensures
        r == (match *v {
            Some(b) => b.bits == WIDE_TWO,
            None => true,
        }),
{
    match v {
        Some(b) => b.bits == WIDE_TWO,
        None => true,
    }
}

/// Whether a flag that is usually set is left out.
pub fn is_true(v: &bool) -> (r: bool)
    ensures
        r == *v,
{
    *v
}

/// Whether a transposition is left out.
pub fn is_zero_i8(v: &i8) -> (r: bool)
    ensures
        r == (*v == 0),
{
    *v == 0
}

/// Whether a modulator's type is left out: an LFO's is.
pub fn is_lfo_type(s: &String) -> (r: bool)
    ensures
        r == (s@ == "lfo"@),
{
    same_text(s.as_str(), "lfo")
}

// ---------------------------------------------------------------------------
// Laws
// ---------------------------------------------------------------------------

/// A target as it is read back from its table: a slot that is left out is 0.
pub open spec fn target_read(t: TargetOutModel) -> TargetModel {
    TargetModel {
        param: t.param,
        slot: match t.slot {
            Some(s) => s,
            None => 0,
        },
        member: t.member,
        bus: t.bus,
        mod_rate: t.mod_rate,
        mod_depth: t.mod_depth,
        mod_attack: t.mod_attack,
        mod_decay: t.mod_decay,
        mod_sustain: t.mod_sustain,
        mod_release: t.mod_release,
        depth: t.depth,
    }
}

/// A target that was read is on the thing that was saved, with the same depth:
/// the same plugin slot, member or bus effect with its parameter name, or the
/// same field of the same modulator.
pub open spec fn target_kept(
    kind: ModTargetKind,
    label: Seq<char>,
    depth: F32Bits,
    slot: usize,
    t: TargetModel,
) -> bool {
    &&& t.depth == depth
    &&& match kind {
        ModTargetKind::PluginParam { .. } => t.param == Some(label) && t.slot == slot
            && t.member is None && t.bus is None,
        ModTargetKind::GroupMember { member, slot: s, .. } => t.param == Some(label) && t.slot == s
            && t.member == Some(member),
        ModTargetKind::GroupBus { effect_index, .. } => t.param == Some(label) && t.bus == Some(
            effect_index,
        ) && t.member is None,
        ModTargetKind::GroupMemberMod { member, mod_index, field } => t.param is None && t.member
            == Some(member) && member_mod_named(t) == Some((mod_index, field)),
        _ => t.param is None && t.member is None && t.bus is None && sibling_named(t) is Some
            && sibling_field((sibling_named(t)->0).0, (sibling_named(t)->0).1) == kind,
    }
}

/// A saved target reads back as a target on the same thing, with the same
/// depth.
pub proof fn saved_targets_read_back(
    kind: ModTargetKind,
    label: Seq<char>,
    depth: F32Bits,
    slot: usize,
)
    ensures
        target_kept(kind, label, depth, slot, target_read(target_out(kind, label, depth, slot))),
{
}

/// An event as recordings make them: on or off, in the MIDI range.
pub open spec fn plain_event(e: (u64, u8, u8, u8)) -> bool {
    (e.1 == 0x90 || e.1 == 0x80) && e.2 <= 127
}

proof fn saved_events_read_back(events: Seq<(u64, u8, u8, u8)>, n: nat)
    requires
        n <= events.len(),
        forall|i: int| 0 <= i < events.len() ==> plain_event(#[trigger] events[i]),
    ensures
        events_of(Seq::new(events.len(), |i: int| event_out(events[i])), n) == Ok::<
            Seq<(u64, u8, u8, u8)>,
            PatternError,
        >(events.take(n as int)),
    decreases n,
{
    let tables = Seq::new(events.len(), |i: int| event_out(events[i]));
    if n > 0 {
        saved_events_read_back(events, (n - 1) as nat);
        let e = events[n - 1];
        assert(plain_event(e));
        note_names_read_back(e.2);
        reveal_strlit("on");
        reveal_strlit("off");
        assert("on"@.len() == 2 && "off"@.len() == 3);
        assert(tables[n - 1] == event_out(e));
        assert(events.take(n as int) =~= events.take(n - 1).push(e));
    } else {
        assert(events.take(0) =~= Seq::empty());
    }
}

/// A saved pattern reads back as the same pattern.
pub proof fn saved_patterns_read_back(p: SavePattern)
    requires
        p.base_note is Some ==> p.base_note->0 <= 127,
        forall|i: int| 0 <= i < p.events@.len() ==> plain_event(#[trigger] p.events@[i]),
    ensures
        pattern_of(pattern_out(p)) == Ok::<PatternModel, PatternError>(
            PatternModel {
                bpm: p.bpm,
                length_beats: p.length_beats,
                looping: p.looping,
                base_note: p.base_note,
                events: p.events@,
                enabled: p.enabled,
                in_key: p.in_key,
            },
        ),
{
    if let Some(n) = p.base_note {
        note_names_read_back(n);
    }
    saved_events_read_back(p.events@, p.events@.len());
    assert(p.events@.take(p.events@.len() as int) =~= p.events@);
    reveal_strlit("chromatic");
    reveal_strlit("in_key");
    assert("chromatic"@.len() == 9 && "in_key"@.len() == 6);
}

} // verus!
