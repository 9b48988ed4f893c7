//! What a session describes: instruments, effects, modulators, patterns and
//! submix groups.

use vstd::prelude::*;

use crate::scalar::{F32Bits, F64Bits};

verus! {

/// Target of a note remapping.
#[derive(Clone, Debug)]
pub struct RemapTarget {
    pub note: String,
    pub detune: F64Bits,
}

/// A note remapping by the name of the note that is played.
#[derive(Clone, Debug)]
pub struct RemapConfig {
    pub source: String,
    pub target: RemapTarget,
}

/// A parameter setting by name.
#[derive(Clone, Debug)]
pub struct ParamSetting {
    pub name: String,
    pub value: F32Bits,
}

/// A whole session.
#[derive(Clone, Debug)]
pub struct SessionConfig {
    pub instruments: Vec<InstrumentSlotConfig>,
    pub groups: Vec<GroupConfig>,
    pub piano: Option<PianoConfig>,
}

/// A submix group; its members are the instruments whose `group` is its index.
#[derive(Clone, Debug)]
pub struct GroupConfig {
    pub name: Option<String>,
    pub volume: F32Bits,
    pub pan: F32Bits,
    pub effects: Vec<EffectConfig>,
    /// Group-scoped modulators, which drive members, bus effects and each
    /// other.
    pub modulators: Vec<ModulatorConfig>,
}

/// Tonality of the piano view.
#[derive(Clone, Debug)]
pub struct PianoConfig {
    /// A scale such as "C major" or "F# dorian".
    pub scale: Option<String>,
    /// Whether notes outside the scale are dropped.
    pub locked: bool,
}

/// One instrument slot: an optional plugin with range, effects and pattern.
#[derive(Clone, Debug)]
pub struct InstrumentSlotConfig {
    pub range: Option<(u8, u8)>,
    pub transpose: i8,
    pub instrument: Option<PluginConfig>,
    pub effects: Vec<EffectConfig>,
    pub pattern: Option<PatternConfig>,
    /// Index of the group that the slot belongs to.
    pub group: Option<usize>,
}

/// The pattern of an instrument slot.
#[derive(Clone, Debug)]
pub struct PatternConfig {
    pub bpm: F32Bits,
    pub length_beats: F32Bits,
    pub looping: bool,
    pub base_note: Option<u8>,
    /// (frame, status, note, velocity)
    pub events: Vec<(u64, u8, u8, u8)>,
    pub enabled: bool,
    /// Transpose by scale degrees instead of semitones.
    pub in_key: bool,
}

/// A modulator: an LFO, an envelope or a learned MIDI control.
#[derive(Clone, Debug)]
pub struct ModulatorConfig {
    pub mod_type: String,
    pub waveform: String,
    pub rate: F32Bits,
    pub attack: F32Bits,
    pub decay: F32Bits,
    pub sustain: F32Bits,
    pub release: F32Bits,
    /// The bound controller of a learned control.
    pub midi_cc: Option<u8>,
    /// Whether a learned control is bound to the pitch-bend wheel.
    pub midi_pitch_bend: bool,
    pub targets: Vec<ModTargetConfig>,
}

/// A modulation target: a plugin parameter, or a field of a modulator.
#[derive(Clone, Debug)]
pub struct ModTargetConfig {
    /// Name of a plugin parameter.
    pub param: Option<String>,
    /// Chain slot of the parameter: 0 is the instrument, 1..N are effects.
    pub slot: usize,
    /// For a group's modulator: the member that is driven.
    pub member: Option<usize>,
    /// For a group's modulator: the bus effect that is driven.
    pub bus: Option<usize>,
    pub mod_rate: Option<usize>,
    /// Modulator index and target index.
    pub mod_depth: Option<Vec<usize>>,
    pub mod_attack: Option<usize>,
    pub mod_decay: Option<usize>,
    pub mod_sustain: Option<usize>,
    pub mod_release: Option<usize>,
    pub depth: F32Bits,
}

/// An instrument plugin.
#[derive(Clone, Debug)]
pub struct PluginConfig {
    pub plugin: String,
    pub preset: Option<String>,
    pub volume: F64Bits,
    pub pitch_bend_range: F64Bits,
    pub remap: Vec<RemapConfig>,
    pub params: Vec<ParamSetting>,
    pub modulators: Vec<ModulatorConfig>,
}

/// An effect plugin.
#[derive(Clone, Debug)]
pub struct EffectConfig {
    pub plugin: String,
    pub preset: Option<String>,
    pub mix: F64Bits,
    pub params: Vec<ParamSetting>,
    /// Modulators of older sessions, which drive this effect.
    pub modulators: Vec<ModulatorConfig>,
}

/// What a plugin says of one of its parameters.
#[derive(Clone, Debug)]
pub struct ParameterInfo {
    pub name: String,
    pub index: u32,
    pub min: F32Bits,
    pub max: F32Bits,
    pub default: F32Bits,
    /// The names of the values, where the parameter is a choice.
    pub labels: Option<Vec<String>>,
}

/// What a plugin says of one of its presets.
#[derive(Clone, Debug)]
pub struct Preset {
    pub name: String,
    pub id: String,
}

// ---------------------------------------------------------------------------
// Models
// ---------------------------------------------------------------------------

/// Strings as a sequence of texts.
pub open spec fn text_list(texts: Seq<String>) -> Seq<Seq<char>> {
    Seq::new(texts.len(), |i: int| texts[i]@)
}

/// The text of an optional string.
pub open spec fn text_view(s: Option<String>) -> Option<Seq<char>> {
    match s {
        Some(t) => Some(t@),
        None => None,
    }
}

/// What a target configuration holds.
pub struct TargetModel {
    pub param: Option<Seq<char>>,
    pub slot: usize,
    pub member: Option<usize>,
    pub bus: Option<usize>,
    pub mod_rate: Option<usize>,
    pub mod_depth: Option<Seq<usize>>,
    pub mod_attack: Option<usize>,
    pub mod_decay: Option<usize>,
    pub mod_sustain: Option<usize>,
    pub mod_release: Option<usize>,
    pub depth: F32Bits,
}

impl View for ModTargetConfig {
    type V = TargetModel;

    open spec fn view(&self) -> TargetModel {
        TargetModel {
            param: text_view(self.param),
            slot: self.slot,
            member: self.member,
            bus: self.bus,
            mod_rate: self.mod_rate,
            mod_depth: match self.mod_depth {
                Some(pair) => Some(pair@),
                None => None,
            },
            mod_attack: self.mod_attack,
            mod_decay: self.mod_decay,
            mod_sustain: self.mod_sustain,
            mod_release: self.mod_release,
            depth: self.depth,
        }
    }
}

/// What a modulator configuration holds.
pub struct ModConfigModel {
    pub mod_type: Seq<char>,
    pub waveform: Seq<char>,
    pub rate: F32Bits,
    pub attack: F32Bits,
    pub decay: F32Bits,
    pub sustain: F32Bits,
    pub release: F32Bits,
    pub midi_cc: Option<u8>,
    pub midi_pitch_bend: bool,
    pub targets: Seq<TargetModel>,
}

/// Target configurations as a sequence of models.
pub open spec fn target_list(targets: Seq<ModTargetConfig>) -> Seq<TargetModel> {
    Seq::new(targets.len(), |i: int| targets[i]@)
}

impl View for ModulatorConfig {
    type V = ModConfigModel;

    open spec fn view(&self) -> ModConfigModel {
        ModConfigModel {
            mod_type: self.mod_type@,
            waveform: self.waveform@,
            rate: self.rate,
            attack: self.attack,
            decay: self.decay,
            sustain: self.sustain,
            release: self.release,
            midi_cc: self.midi_cc,
            midi_pitch_bend: self.midi_pitch_bend,
            targets: target_list(self.targets@),
        }
    }
}

/// Modulator configurations as a sequence of models.
pub open spec fn mod_config_list(mods: Seq<ModulatorConfig>) -> Seq<ModConfigModel> {
    Seq::new(mods.len(), |i: int| mods[i]@)
}

/// What a parameter description holds.
pub struct ParamModel {
    pub name: Seq<char>,
    pub index: u32,
    pub min: F32Bits,
    pub max: F32Bits,
    pub default: F32Bits,
    pub labels: Option<Seq<Seq<char>>>,
}

impl View for ParameterInfo {
    type V = ParamModel;

    open spec fn view(&self) -> ParamModel {
        ParamModel {
            name: self.name@,
            index: self.index,
            min: self.min,
            max: self.max,
            default: self.default,
            labels: match self.labels {
                Some(labels) => Some(text_list(labels@)),
                None => None,
            },
        }
    }
}

/// Parameter descriptions as a sequence of models.
pub open spec fn param_list(params: Seq<ParameterInfo>) -> Seq<ParamModel> {
    Seq::new(params.len(), |i: int| params[i]@)
}

/// The parameters of every plugin in a chain.
pub open spec fn chain_list(chain: Seq<Vec<ParameterInfo>>) -> Seq<Seq<ParamModel>> {
    Seq::new(chain.len(), |i: int| param_list(chain[i]@))
}

} // verus!
