//! Reading a session: from the tables of a session file to what it describes.

use vstd::prelude::*;

use crate::config::{
    text_view, EffectConfig, GroupConfig, InstrumentSlotConfig, ModulatorConfig, ParamSetting,
    PatternConfig, PianoConfig, PluginConfig, Preset, RemapConfig, SessionConfig,
};
use crate::notes::{
    note_message, note_of, parse_note_name, parse_range, range_message, range_of, NoteError,
    RangeError,
};
use crate::scalar::{F32Bits, F64Bits, WIDE_ONE};
use crate::text::same_text;

verus! {

/// The double-precision bits of 2.0, the usual pitch bend range.
pub const WIDE_TWO: u64 = 0x4000_0000_0000_0000;

// ---------------------------------------------------------------------------
// Tables
// ---------------------------------------------------------------------------

/// A session file's tables.
#[derive(Clone, Debug)]
pub struct SessionRaw {
    pub instruments: Vec<InstrumentSlotRaw>,
    pub groups: Vec<GroupRaw>,
    pub piano: Option<PianoConfig>,
}

/// A group table.
#[derive(Clone, Debug)]
pub struct GroupRaw {
    pub name: Option<String>,
    pub volume: F32Bits,
    pub pan: F32Bits,
    pub effects: Vec<EffectConfig>,
    pub modulators: Vec<ModulatorConfig>,
}

/// An instrument table; the plugin's fields stand beside the slot's own.
#[derive(Clone, Debug)]
pub struct InstrumentSlotRaw {
    pub plugin: Option<String>,
    pub preset: Option<String>,
    pub volume: F64Bits,
    pub pitch_bend_range: F64Bits,
    pub remap: Vec<RemapConfig>,
    pub params: Vec<ParamSetting>,
    pub modulators: Vec<ModulatorConfig>,
    pub range: Option<String>,
    pub transpose: i8,
    pub group: Option<usize>,
    pub effects: Vec<EffectConfig>,
    pub pattern: Option<PatternRaw>,
}

/// A pattern table.
#[derive(Clone, Debug)]
pub struct PatternRaw {
    pub bpm: F32Bits,
    pub length_beats: F32Bits,
    pub looping: bool,
    pub base_note: Option<String>,
    pub events: Vec<PatternEventRaw>,
    pub enabled: bool,
    /// "chromatic" or "in_key".
    pub transpose: Option<String>,
}

/// An event of a pattern table.
#[derive(Clone, Debug)]
pub struct PatternEventRaw {
    pub frame: u64,
    /// "on" or "off".
    pub status: String,
    pub note: String,
    pub velocity: u8,
}

/// What a pattern event table holds.
pub struct EventRawModel {
    pub frame: u64,
    pub status: Seq<char>,
    pub note: Seq<char>,
    pub velocity: u8,
}

impl View for PatternEventRaw {
    type V = EventRawModel;

    open spec fn view(&self) -> EventRawModel {
        EventRawModel {
            frame: self.frame,
            status: self.status@,
            note: self.note@,
            velocity: self.velocity,
        }
    }
}

/// Event tables as a sequence of models.
pub open spec fn event_tables(events: Seq<PatternEventRaw>) -> Seq<EventRawModel> {
    Seq::new(events.len(), |i: int| events[i]@)
}

/// What a pattern table holds.
pub struct PatternRawModel {
    pub bpm: F32Bits,
    pub length_beats: F32Bits,
    pub looping: bool,
    pub base_note: Option<Seq<char>>,
    pub events: Seq<EventRawModel>,
    pub enabled: bool,
    pub transpose: Option<Seq<char>>,
}

impl View for PatternRaw {
    type V = PatternRawModel;

    open spec fn view(&self) -> PatternRawModel {
        PatternRawModel {
            bpm: self.bpm,
            length_beats: self.length_beats,
            looping: self.looping,
            base_note: text_view(self.base_note),
            events: event_tables(self.events@),
            enabled: self.enabled,
            transpose: text_view(self.transpose),
        }
    }
}

/// What a pattern holds.
pub struct PatternModel {
    pub bpm: F32Bits,
    pub length_beats: F32Bits,
    pub looping: bool,
    pub base_note: Option<u8>,
    pub events: Seq<(u64, u8, u8, u8)>,
    pub enabled: bool,
    pub in_key: bool,
}

impl View for PatternConfig {
    type V = PatternModel;

    open spec fn view(&self) -> PatternModel {
        PatternModel {
            bpm: self.bpm,
            length_beats: self.length_beats,
            looping: self.looping,
            base_note: self.base_note,
            events: self.events@,
            enabled: self.enabled,
            in_key: self.in_key,
        }
    }
}

// ---------------------------------------------------------------------------
// Patterns
// ---------------------------------------------------------------------------

/// Why a pattern table is not a pattern.
#[derive(Clone, Copy, Debug, PartialEq, Eq, Structural)]
pub enum PatternError {
    /// The base note is not a note.
    BaseNote { error: NoteError },
    /// The transpose mode is not known.
    Transpose,
    /// The note of this event is not a note.
    EventNote { event: usize, error: NoteError },
    /// The status of this event is neither "on" nor "off".
    EventStatus { event: usize },
}

/// Whether a transpose mode keeps to the scale; `None` if it is not known.
pub open spec fn transpose_mode(mode: Option<Seq<char>>) -> Option<bool> {
    match mode {
        None => Some(false),
        Some(s) => if s == "chromatic"@ {
            Some(false)
        } else if s == "in_key"@ || s == "in-key"@ || s == "in key"@ {
            Some(true)
        } else {
            None
        },
    }
}

/// The status byte for an event's status.
pub open spec fn status_of(s: Seq<char>) -> Option<u8> {
    if s == "on"@ {
        Some(0x90)
    } else if s == "off"@ {
        Some(0x80)
    } else {
        None
    }
}

/// The first `n` events of a pattern.
pub open spec fn events_of(events: Seq<EventRawModel>, n: nat) -> Result<
    Seq<(u64, u8, u8, u8)>,
    PatternError,
>
    decreases n,
{
    if n == 0 {
        Ok(Seq::empty())
    } else {
        match events_of(events, (n - 1) as nat) {
            Err(e) => Err(e),
            Ok(rest) => {
                let ev = events[n - 1];
                match note_of(ev.note) {
                    Err(error) => Err(PatternError::EventNote { event: (n - 1) as usize, error }),
                    Ok(note) => match status_of(ev.status) {
                        None => Err(PatternError::EventStatus { event: (n - 1) as usize }),
                        Some(status) => Ok(rest.push((ev.frame, status, note, ev.velocity))),
                    },
                }
            },
        }
    }
}

/// The base note of a pattern.
pub open spec fn base_of(text: Option<Seq<char>>) -> Result<Option<u8>, PatternError> {
    match text {
        None => Ok(None),
        Some(s) => match note_of(s) {
            Ok(n) => Ok(Some(n)),
            Err(error) => Err(PatternError::BaseNote { error }),
        },
    }
}

/// The pattern that a table describes.
pub open spec fn pattern_of(raw: PatternRawModel) -> Result<PatternModel, PatternError> {
    match base_of(raw.base_note) {
        Err(e) => Err(e),
        Ok(base_note) => match transpose_mode(raw.transpose) {
            None => Err(PatternError::Transpose),
            Some(in_key) => match events_of(raw.events, raw.events.len()) {
                Err(e) => Err(e),
                Ok(events) => Ok(
                    PatternModel {
                        bpm: raw.bpm,
                        length_beats: raw.length_beats,
                        looping: raw.looping,
                        base_note,
                        events,
                        enabled: raw.enabled,
                        in_key,
                    },
                ),
            },
        },
    }
}

/// The model of a parsed pattern.
pub open spec fn pattern_view(r: Result<PatternConfig, PatternError>) -> Result<
    PatternModel,
    PatternError,
> {
    match r {
        Ok(p) => Ok(p@),
        Err(e) => Err(e),
    }
}

/// Parse a pattern table.
pub fn parse_pattern_raw(raw: &PatternRaw) -> (r: Result<PatternConfig, PatternError>)
    ensures
        pattern_view(r) == pattern_of(raw@),
{
    let base_note: Option<u8> = match &raw.base_note {
        None => None,
        Some(name) => match parse_note_name(name.as_str()) {
            Ok(n) => Some(n),
            Err(error) => {
                return Err(PatternError::BaseNote { error });
            },
        },
    };
    let in_key: bool = match &raw.transpose {
        None => false,
        Some(mode) => {
            let m: &str = mode.as_str();
            if same_text(m, "chromatic") {
                false
            } else if same_text(m, "in_key") || same_text(m, "in-key") || same_text(m, "in key") {
                true
            } else {
                return Err(PatternError::Transpose);
            }
        },
    };
    let ghost tables = event_tables(raw.events@);
    let mut events: Vec<(u64, u8, u8, u8)> = Vec::new();
    let mut i: usize = 0;
    while i < raw.events.len()
        invariant
            i <= raw.events.len(),
            tables == event_tables(raw.events@),
            base_of(raw@.base_note) == Ok::<Option<u8>, PatternError>(base_note),
            transpose_mode(raw@.transpose) == Some(in_key),
            events_of(tables, i as nat) == Ok::<Seq<(u64, u8, u8, u8)>, PatternError>(events@),
        decreases raw.events.len() - i,
    {
        let ev: &PatternEventRaw = &raw.events[i];
        assert(tables[i as int] == ev@);
        let note: u8 = match parse_note_name(ev.note.as_str()) {
            Ok(n) => n,
            Err(error) => {
                proof {
                    event_error_stays(tables, (i + 1) as nat, tables.len());
                }
                return Err(PatternError::EventNote { event: i, error });
            },
        };
        let status: u8 = if same_text(ev.status.as_str(), "on") {
            0x90
        } else if same_text(ev.status.as_str(), "off") {
            0x80
        } else {
            proof {
                event_error_stays(tables, (i + 1) as nat, tables.len());
            }
            return Err(PatternError::EventStatus { event: i });
        };
        events.push((ev.frame, status, note, ev.velocity));
        i += 1;
    }
    Ok(
        PatternConfig {
            bpm: raw.bpm,
            length_beats: raw.length_beats,
            looping: raw.looping,
            base_note,
            events,
            enabled: raw.enabled,
            in_key,
        },
    )
}

proof fn event_error_stays(events: Seq<EventRawModel>, n: nat, all: nat)
    requires
        n <= all,
        events_of(events, n) is Err,
    ensures
        events_of(events, all) == events_of(events, n),
    decreases all - n,
{
    if n < all {
        event_error_stays(events, n + 1, all);
    }
}

// ---------------------------------------------------------------------------
// Sessions
// ---------------------------------------------------------------------------

/// Why the tables are not a session: what is wrong with an instrument.
#[derive(Clone, Copy, Debug, PartialEq, Eq, Structural)]
pub enum SessionError {
    Range { slot: usize, error: RangeError },
    Pattern { slot: usize, error: PatternError },
}

/// The range of a slot.
pub open spec fn slot_range(text: Option<String>) -> Result<Option<(u8, u8)>, RangeError> {
    match text {
        None => Ok(None),
        Some(s) => match range_of(s@) {
            Ok(r) => Ok(Some(r)),
            Err(e) => Err(e),
        },
    }
}

/// What is wrong with a slot, the range being looked at first.
pub open spec fn slot_error(s: InstrumentSlotRaw, slot: int) -> Option<SessionError> {
    match slot_range(s.range) {
        Err(error) => Some(SessionError::Range { slot: slot as usize, error }),
        Ok(_) => match s.pattern {
            None => None,
            Some(p) => match pattern_of(p@) {
                Err(error) => Some(SessionError::Pattern { slot: slot as usize, error }),
                Ok(_) => None,
            },
        },
    }
}

/// What is wrong with the first of the first `n` slots that has something
/// wrong with it.
pub open spec fn first_error(slots: Seq<InstrumentSlotRaw>, n: nat) -> Option<SessionError>
    decreases n,
{
    if n == 0 {
        None
    } else {
        match first_error(slots, (n - 1) as nat) {
            Some(e) => Some(e),
            None => slot_error(slots[n - 1], n - 1),
        }
    }
}

/// A group is what its table says, with its pan in range.
pub open spec fn group_loaded(raw: GroupRaw, g: GroupConfig) -> bool {
    &&& g.name == raw.name
    &&& g.volume == raw.volume
    &&& g.pan == raw.pan.clamped()
    &&& g.effects == raw.effects
    &&& g.modulators == raw.modulators
}

/// A plugin is what its slot's table says.
pub open spec fn plugin_loaded(raw: InstrumentSlotRaw, p: PluginConfig) -> bool {
    &&& raw.plugin == Some(p.plugin)
    &&& p.preset == raw.preset
    &&& p.volume == raw.volume
    &&& p.pitch_bend_range == raw.pitch_bend_range
    &&& p.remap == raw.remap
    &&& p.params == raw.params
    &&& p.modulators == raw.modulators
}

/// A slot is what its table says. A group that is not there is left out.
pub open spec fn slot_loaded(
    raw: InstrumentSlotRaw,
    groups: nat,
    s: InstrumentSlotConfig,
) -> bool {
    &&& slot_range(raw.range) == Ok::<Option<(u8, u8)>, RangeError>(s.range)
    &&& s.transpose == raw.transpose
    &&& match s.instrument {
        Some(p) => plugin_loaded(raw, p),
        None => raw.plugin is None,
    }
    &&& s.effects == raw.effects
    &&& match (raw.pattern, s.pattern) {
        (None, None) => true,
        (Some(r), Some(p)) => pattern_of(r@) == Ok::<PatternModel, PatternError>(p@),
        _ => false,
    }
    &&& s.group == (match raw.group {
        Some(g) if g < groups => Some(g),
        _ => None,
    })
}

/// A session is what its tables say.
pub open spec fn session_loaded(raw: SessionRaw, s: SessionConfig) -> bool {
    &&& s.groups@.len() == raw.groups@.len()
    &&& forall|i: int|
        0 <= i < raw.groups@.len() ==> group_loaded(#[trigger] raw.groups@[i], s.groups@[i])
    &&& s.instruments@.len() == raw.instruments@.len()
    &&& forall|i: int|
        0 <= i < raw.instruments@.len() ==> slot_loaded(
            #[trigger] raw.instruments@[i],
            raw.groups@.len(),
            s.instruments@[i],
        )
    &&& s.piano == raw.piano
}

fn load_slot(raw: InstrumentSlotRaw, groups: usize, slot: usize) -> (r: Result<
    InstrumentSlotConfig,
    SessionError,
>)
    ensures
        match r {
            Ok(s) => slot_error(raw, slot as int) is None && slot_loaded(raw, groups as nat, s),
            Err(e) => slot_error(raw, slot as int) == Some(e),
        },
{
    let range: Option<(u8, u8)> = match &raw.range {
        None => None,
        Some(text) => match parse_range(text.as_str()) {
            Ok(r) => Some(r),
            Err(error) => {
                return Err(SessionError::Range { slot, error });
            },
        },
    };
    let pattern: Option<PatternConfig> = match &raw.pattern {
        None => None,
        Some(table) => match parse_pattern_raw(table) {
            Ok(p) => Some(p),
            Err(error) => {
                return Err(SessionError::Pattern { slot, error });
            },
        },
    };
    let instrument: Option<PluginConfig> = match raw.plugin {
        Some(plugin) => Some(
            PluginConfig {
                plugin,
                preset: raw.preset,
                volume: raw.volume,
                pitch_bend_range: raw.pitch_bend_range,
                remap: raw.remap,
                params: raw.params,
                modulators: raw.modulators,
            },
        ),
        None => None,
    };
    let group: Option<usize> = match raw.group {
        Some(g) => if g < groups {
            Some(g)
        } else {
            None
        },
        None => None,
    };
    Ok(
        InstrumentSlotConfig {
            range,
            transpose: raw.transpose,
            instrument,
            effects: raw.effects,
            pattern,
            group,
        },
    )
}

/// Make a session of its tables: ranges and patterns are parsed, pans brought
/// into range, and memberships of missing groups dropped.
pub fn load(raw: SessionRaw) -> (r: Result<SessionConfig, SessionError>)
    ensures
        match r {
            Ok(s) => first_error(raw.instruments@, raw.instruments@.len()) is None
                && session_loaded(raw, s),
            Err(e) => first_error(raw.instruments@, raw.instruments@.len()) == Some(e),
        },
{
    let ghost tables = raw;
    let mut groups: Vec<GroupConfig> = Vec::new();
    for g in it: raw.groups
        invariant
            it.seq() == tables.groups@,
            groups@.len() == it.index(),
            forall|i: int|
                0 <= i < it.index() ==> group_loaded(#[trigger] tables.groups@[i], groups@[i]),
    {
        groups.push(
            GroupConfig {
                name: g.name,
                volume: g.volume,
                pan: g.pan.clamp_unit(),
                effects: g.effects,
                modulators: g.modulators,
            },
        );
    }
    let count: usize = groups.len();
    let mut instruments: Vec<InstrumentSlotConfig> = Vec::new();
    for slot in it: raw.instruments
        invariant
            it.seq() == tables.instruments@,
            count == tables.groups@.len(),
            instruments@.len() == it.index(),
            first_error(tables.instruments@, it.index() as nat) is None,
            forall|i: int|
                0 <= i < it.index() ==> slot_loaded(
                    #[trigger] tables.instruments@[i],
                    count as nat,
                    instruments@[i],
                ),
    {
        let index: usize = instruments.len();
        assert(slot == tables.instruments@[index as int]);
        match load_slot(slot, count, index) {
            Ok(s) => {
                instruments.push(s);
            },
            Err(e) => {
                proof {
                    error_stays(tables.instruments@, (index + 1) as nat, tables.instruments@.len());
                }
                return Err(e);
            },
        }
    }
    Ok(SessionConfig { instruments, groups, piano: raw.piano })
}

proof fn error_stays(slots: Seq<InstrumentSlotRaw>, n: nat, all: nat)
    requires
        n <= all,
        first_error(slots, n) is Some,
    ensures
        first_error(slots, all) == first_error(slots, n),
    decreases all - n,
{
    if n < all {
        error_stays(slots, n + 1, all);
    }
}

// ---------------------------------------------------------------------------
// Messages
// ---------------------------------------------------------------------------

/// What is said of a pattern that was not understood; `text` is the text in
/// question.
pub open spec fn pattern_message(e: PatternError, text: Seq<char>) -> Seq<char> {
    match e {
        PatternError::BaseNote { error } => note_message(error, text),
        PatternError::EventNote { error, .. } => note_message(error, text),
        PatternError::Transpose => "invalid pattern transpose '"@ + text
            + "', expected 'chromatic' or 'in_key'"@,
        PatternError::EventStatus { .. } => "invalid pattern event status '"@ + text
            + "', expected 'on' or 'off'"@,
    }
}

impl PatternError {
    /// The message for the user; `text` is the text that was read.
    pub fn message(&self, text: &str) -> (message: String)
        ensures
            message@ == pattern_message(*self, text@),
    {
        match *self {
            PatternError::BaseNote { error } => error.message(text),
            PatternError::EventNote { error, .. } => error.message(text),
            PatternError::Transpose => "invalid pattern transpose '".to_owned().concat(text).concat(
                "', expected 'chromatic' or 'in_key'",
            ),
            PatternError::EventStatus { .. } => "invalid pattern event status '".to_owned().concat(
                text,
            ).concat("', expected 'on' or 'off'"),
        }
    }
}

impl SessionError {
    /// The message for the user; `text` is the text that was read.
    pub fn message(&self, text: &str) -> (message: String)
        ensures
            message@ == (match *self {
                SessionError::Range { error, .. } => range_message(error, text@),
                SessionError::Pattern { error, .. } => pattern_message(error, text@),
            }),
    {
        match *self {
            SessionError::Range { error, .. } => error.message(text),
            SessionError::Pattern { error, .. } => error.message(text),
        }
    }
}

// ---------------------------------------------------------------------------
// Defaults
// ---------------------------------------------------------------------------

/// What a table's `looping` is when it is left out.
pub fn default_true() -> (v: bool)
    ensures
        v,
{
    true
}

/// What a modulator's type is when it is left out.
pub fn default_mod_type() -> (s: String)
    ensures
        s@ == "lfo"@,
{
    "lfo".to_owned()
}

/// What an LFO's waveform is when it is left out.
pub fn default_waveform() -> (s: String)
    ensures
        s@ == "sine"@,
{
    "sine".to_owned()
}

/// A new session: one oscillator at full volume, and nothing else.
pub open spec fn is_default_session(s: SessionConfig) -> bool {
    &&& s.groups@.len() == 0
    &&& s.piano is None
    &&& s.instruments@.len() == 1
    &&& {
        let slot = s.instruments@[0];
        &&& slot.range is None
        &&& slot.transpose == 0
        &&& slot.effects@.len() == 0
        &&& slot.pattern is None
        &&& slot.group is None
        &&& slot.instrument matches Some(p) && {
            &&& p.plugin@ == "builtin:osc"@
            &&& p.preset is None
            &&& p.volume == F64Bits { bits: WIDE_ONE }
            &&& p.pitch_bend_range == F64Bits { bits: WIDE_TWO }
            &&& p.remap@.len() == 0
            &&& p.params@.len() == 0
            &&& p.modulators@.len() == 0
        }
    }
}

/// A new session: one oscillator at full volume, and nothing else.
pub fn default_session() -> (s: SessionConfig)
    ensures
        is_default_session(s),
{
    let mut instruments: Vec<InstrumentSlotConfig> = Vec::new();
    instruments.push(
        InstrumentSlotConfig {
            range: None,
            transpose: 0,
            instrument: Some(
                PluginConfig {
                    plugin: "builtin:osc".to_owned(),
                    preset: None,
                    volume: F64Bits { bits: WIDE_ONE },
                    pitch_bend_range: F64Bits { bits: WIDE_TWO },
                    remap: Vec::new(),
                    params: Vec::new(),
                    modulators: Vec::new(),
                },
            ),
            effects: Vec::new(),
            pattern: None,
            group: None,
        },
    );
    SessionConfig { instruments, groups: Vec::new(), piano: None }
}

// ---------------------------------------------------------------------------
// Presets
// ---------------------------------------------------------------------------

/// The first of the first `n` presets with this display name.
pub open spec fn preset_named(presets: Seq<Preset>, name: Seq<char>, n: nat) -> Option<nat>
    decreases n,
{
    if n == 0 {
        None
    } else {
        match preset_named(presets, name, (n - 1) as nat) {
            Some(i) => Some(i),
            None => if presets[n - 1].name@ == name {
                Some((n - 1) as nat)
            } else {
                None
            },
        }
    }
}

/// The first of the first `n` presets with this id.
pub open spec fn preset_with_id(presets: Seq<Preset>, id: Seq<char>, n: nat) -> Option<nat>
    decreases n,
{
    if n == 0 {
        None
    } else {
        match preset_with_id(presets, id, (n - 1) as nat) {
            Some(i) => Some(i),
            None => if presets[n - 1].id@ == id {
                Some((n - 1) as nat)
            } else {
                None
            },
        }
    }
}

/// The preset that a reference means: one of that name, else one of that id.
pub open spec fn preset_meant(presets: Seq<Preset>, reference: Seq<char>) -> Option<nat> {
    match preset_named(presets, reference, presets.len()) {
        Some(i) => Some(i),
        None => preset_with_id(presets, reference, presets.len()),
    }
}

/// Find the preset to apply, by display name or by id.
pub fn apply_preset(presets: &Vec<Preset>, preset_ref: &str) -> (found: Option<usize>)
    ensures
        match found {
            Some(i) => i < presets.len() && preset_meant(presets@, preset_ref@) == Some(i as nat),
            None => preset_meant(presets@, preset_ref@) is None,
        },
{
    let mut by_name: Option<usize> = None;
    let mut by_id: Option<usize> = None;
    let mut i: usize = 0;
    while i < presets.len()
        invariant
            i <= presets.len(),
            match by_name {
                Some(k) => k < i && preset_named(presets@, preset_ref@, i as nat) == Some(k as nat),
                None => preset_named(presets@, preset_ref@, i as nat) is None,
            },
            match by_id {
                Some(k) => k < i && preset_with_id(presets@, preset_ref@, i as nat) == Some(
                    k as nat,
                ),
                None => preset_with_id(presets@, preset_ref@, i as nat) is None,
            },
        decreases presets.len() - i,
    {
        if by_name.is_none() && same_text(presets[i].name.as_str(), preset_ref) {
            by_name = Some(i);
        }
        if by_id.is_none() && same_text(presets[i].id.as_str(), preset_ref) {
            by_id = Some(i);
        }
        i += 1;
    }
    match by_name {
        Some(k) => Some(k),
        None => by_id,
    }
}

} // verus!
