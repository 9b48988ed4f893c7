use std::collections::HashMap;

use tang::bus::BusStep;
use tang::command::{GraphCommand, GraphEffect, PatternTiming};
use tang::event::MidiEvent;
use tang::graph::{build_group_midi, group_member_lane, lane_member_ordinal, AudioGraph};
use tang::lane::{Buffer, InstrumentLane, PluginHandle, RenderStep};
use tang::modulation::{
    CrossModField, EnvState, LfoWaveform, ModSource, ModTarget, ModTargetKind, Modulator,
};
use tang::rack::{apply_cross_mod, cross_mod_routes};
use tang::remap::{NoteRemapper, RemapRequest};
use tang::render::GraphStep;
use tang::routes::{chain_routes, ParamDest, ParamRoute};
use tang::scalar::{F32Bits, F64Bits};

const FRAMES: usize = 64;

fn b(v: f32) -> F32Bits {
    F32Bits { bits: v.to_bits() }
}

fn f(v: F32Bits) -> f32 {
    f32::from_bits(v.bits)
}

fn w(v: f64) -> F64Bits {
    F64Bits { bits: v.to_bits() }
}

/// Plugins that are simple enough to predict.
enum Mock {
    /// Outputs a constant value on all channels while a note is held.
    Const { value: f32, has_note: bool },
    /// Copies input to output.
    Passthrough,
    /// Multiplies by a constant, which is also parameter 0.
    Scale(f32),
    /// Adds a constant.
    Offset(f32),
    /// Outputs parameter 0.
    Tracking(f32),
}

impl Mock {
    fn process(&mut self, events: &[MidiEvent], input: &[Vec<f32>], output: &mut [Vec<f32>]) {
        match self {
            Mock::Const { value, has_note } => {
                for &(_, [status, _, velocity]) in events {
                    match status & 0xF0 {
                        0x90 if velocity > 0 => *has_note = true,
                        0x80 | 0x90 => *has_note = false,
                        _ => {}
                    }
                }
                let v = if *has_note { *value } else { 0.0 };
                for ch in output.iter_mut() {
                    ch.fill(v);
                }
            }
            Mock::Passthrough => {
                for (o, i) in output.iter_mut().zip(input) {
                    o.copy_from_slice(i);
                }
            }
            Mock::Scale(gain) => {
                for (o, i) in output.iter_mut().zip(input) {
                    for (x, y) in o.iter_mut().zip(i) {
                        *x = *y * *gain;
                    }
                }
            }
            Mock::Offset(offset) => {
                for (o, i) in output.iter_mut().zip(input) {
                    for (x, y) in o.iter_mut().zip(i) {
                        *x = *y + *offset;
                    }
                }
            }
            Mock::Tracking(value) => {
                for ch in output.iter_mut() {
                    ch.fill(*value);
                }
            }
        }
    }

    fn set_parameter(&mut self, index: u32, value: f32) {
        if index == 0 {
            match self {
                Mock::Scale(v) | Mock::Tracking(v) => *v = value,
                _ => {}
            }
        }
    }

    fn parameter(&self) -> Option<f32> {
        match self {
            Mock::Scale(v) | Mock::Tracking(v) => Some(*v),
            _ => None,
        }
    }
}

fn eval(waveform: LfoWaveform, phase: f32) -> f32 {
    match waveform {
        LfoWaveform::Sine => (phase * std::f32::consts::TAU).sin(),
        LfoWaveform::Triangle if phase < 0.25 => phase * 4.0,
        LfoWaveform::Triangle if phase < 0.75 => 1.0 - (phase - 0.25) * 4.0,
        LfoWaveform::Triangle => -1.0 + (phase - 0.75) * 4.0,
        LfoWaveform::Saw => phase * 2.0 - 1.0,
        LfoWaveform::Square => {
            if phase < 0.5 {
                1.0
            } else {
                -1.0
            }
        }
    }
}

fn tick(m: &mut Modulator, frames: usize, events: &[MidiEvent]) {
    m.track_notes(events);
    let rate_hz = f(m.sample_rate);
    match m.source {
        ModSource::Lfo { waveform, rate, phase } => {
            let p = (f(phase) + f(rate) * frames as f32 / rate_hz) % 1.0;
            m.source = ModSource::Lfo { waveform, rate, phase: b(p) };
            m.last_output = b(eval(waveform, p));
        }
        ModSource::Envelope { attack, decay, sustain, release, state, level, .. } => {
            let dt = frames as f32 / rate_hz;
            let pace = |t: f32| if t > 0.0 { dt / t } else { 1.0 };
            let now = f(level);
            let stepped = match state {
                EnvState::Idle | EnvState::Sustain => now,
                EnvState::Attack => now + pace(f(attack)),
                EnvState::Decay => now - pace(f(decay)) * (1.0 - f(sustain)),
                EnvState::Release => now - pace(f(release)) * now.max(0.001),
            };
            m.settle_level(b(stepped));
        }
    }
}

fn target_offset(m: &Modulator, t: &ModTarget) -> f32 {
    let out = f(m.last_output);
    match m.source {
        ModSource::Lfo { .. } => out * f(t.depth) * (f(t.param_max) - f(t.param_min)),
        ModSource::Envelope { .. } => {
            -(1.0 - out) * f(t.depth) * (f(t.base_value) - f(t.param_min))
        }
    }
}

fn modulated(m: &Modulator, t: &ModTarget) -> f32 {
    (f(t.base_value) + target_offset(m, t)).clamp(f(t.param_min), f(t.param_max))
}

fn summed(mods: &[Modulator], route: &ParamRoute) -> f32 {
    let first = route.contributions[0];
    let lead = &mods[first.modulator].targets[first.target];
    let offset: f32 = route
        .contributions
        .iter()
        .map(|c| target_offset(&mods[c.modulator], &mods[c.modulator].targets[c.target]))
        .sum();
    (f(lead.base_value) + offset).clamp(f(lead.param_min), f(lead.param_max))
}

fn cross_modulate(mods: &mut Vec<Modulator>) {
    let values = cross_mod_routes(mods)
        .iter()
        .map(|r| b(modulated(&mods[r.source], &mods[r.source].targets[r.target])))
        .collect();
    apply_cross_mod(mods, &values);
}

/// A graph with its mock plugins.
struct Rig {
    graph: AudioGraph,
    plugins: HashMap<u64, Mock>,
    returned: Vec<u64>,
    next: u64,
}

impl Rig {
    fn empty() -> Rig {
        Rig { graph: AudioGraph::new(2), plugins: HashMap::new(), returned: Vec::new(), next: 0 }
    }

    /// A graph with this many lanes.
    fn with_lanes(n: usize) -> Rig {
        let mut rig = Rig::empty();
        for _ in 0..n {
            rig.send(GraphCommand::AddInstrument { range: None });
        }
        rig
    }

    fn send(&mut self, command: GraphCommand) {
        assert!(self.graph.accepts(&command));
        let timing = PatternTiming { beat_length: 24000, pattern_length: 96000 };
        for effect in self.graph.apply(command, timing) {
            match effect {
                GraphEffect::Return { plugin } => self.returned.push(plugin.id),
                GraphEffect::Discard { plugin } => {
                    self.plugins.remove(&plugin.id);
                }
                GraphEffect::SetParameter { plugin, param_index, value } => {
                    if let Some(p) = self.plugins.get_mut(&plugin.id) {
                        p.set_parameter(param_index, f(value));
                    }
                }
                GraphEffect::LoadPreset { .. } | GraphEffect::Notify { .. } => {}
            }
        }
    }

    fn own(&mut self, mock: Mock, outputs: usize) -> PluginHandle {
        let id = self.next;
        self.next += 1;
        self.plugins.insert(id, mock);
        PluginHandle { id, outputs, sample_rate: b(48000.0) }
    }

    fn instrument(&mut self, inst: usize, mock: Mock, outputs: usize) -> u64 {
        let instrument = self.own(mock, outputs);
        self.send(GraphCommand::SwapInstrument {
            inst,
            instrument,
            inst_outputs: outputs,
            remapper: None,
        });
        instrument.id
    }

    fn constant(&mut self, inst: usize, value: f32) -> u64 {
        self.instrument(inst, Mock::Const { value, has_note: false }, 2)
    }

    fn effect(&mut self, index: usize, mock: Mock, mix: f64) -> u64 {
        let effect = self.own(mock, 2);
        self.send(GraphCommand::InsertEffect { inst: 0, index, effect, mix: w(mix) });
        effect.id
    }

    fn set_param(&mut self, plugin: Option<PluginHandle>, value: f32) {
        if let Some(p) = plugin.and_then(|h| self.plugins.get_mut(&h.id)) {
            p.set_parameter(0, value);
        }
    }

    fn run_effect(&mut self, id: u64, mix: f32, from: Buffer, bufs: &mut [Vec<Vec<f32>>; 2]) {
        let [a, z] = bufs;
        let (dry, wet) = match from {
            Buffer::A => (a, z),
            Buffer::B => (z, a),
        };
        self.plugins.get_mut(&id).unwrap().process(&[], dry, wet);
        if mix < 1.0 {
            for (x, y) in wet.iter_mut().flatten().zip(dry.iter().flatten()) {
                *x = *y * (1.0 - mix) + *x * mix;
            }
        }
    }

    fn lane(&mut self, inst: usize, midi: &[MidiEvent]) -> Vec<Vec<f32>> {
        let heard = self.graph.instruments[inst].incoming(midi);
        assert!(self.graph.instruments[inst].pattern.fits(&heard, FRAMES));
        let degrees = [0u8; 256];
        let events =
            self.graph.instruments[inst].outgoing(&heard, FRAMES, &degrees, 96000).events;
        let mods = &mut self.graph.instruments[inst].modulators;
        for m in mods.iter_mut() {
            tick(m, FRAMES, &events);
        }
        cross_modulate(mods);
        let lane = &self.graph.instruments[inst];
        let writes: Vec<(Option<PluginHandle>, f32)> = chain_routes(&lane.modulators)
            .iter()
            .map(|r| match r.dest {
                ParamDest::Chain { slot, .. } => {
                    (lane.plugin_at(slot), summed(&lane.modulators, r))
                }
                _ => panic!("a lane drives its own chain"),
            })
            .collect();
        for (plugin, value) in writes {
            self.set_param(plugin, value);
        }
        let lane = &self.graph.instruments[inst];
        let instrument = lane.instrument.map(|h| h.id);
        let effects: Vec<u64> = lane.effects.iter().map(|h| h.id).collect();
        let mixes: Vec<f32> =
            lane.mix_values.iter().map(|m| f64::from_bits(m.bits) as f32).collect();
        let volume = f(lane.volume);
        let mut own = vec![vec![0.0; FRAMES]; lane.inst_outputs];
        let mut bufs = [vec![vec![0.0; FRAMES]; 2], vec![vec![0.0; FRAMES]; 2]];
        let mut out = vec![vec![0.0; FRAMES]; 2];
        for step in lane.render_plan(2) {
            match step {
                RenderStep::Silence => out = vec![vec![0.0; FRAMES]; 2],
                RenderStep::InstrumentToOutput => {
                    self.plugins.get_mut(&instrument.unwrap()).unwrap().process(
                        &events,
                        &[],
                        &mut out,
                    );
                }
                RenderStep::InstrumentToBuffers => {
                    self.plugins.get_mut(&instrument.unwrap()).unwrap().process(
                        &events,
                        &[],
                        &mut own,
                    );
                }
                RenderStep::ScaleVolume { channels } => {
                    for s in own.iter_mut().take(channels).flatten() {
                        *s *= volume;
                    }
                }
                RenderStep::CopyToOutput => {
                    for (o, i) in out.iter_mut().zip(&own) {
                        o.copy_from_slice(i);
                    }
                }
                RenderStep::CopyToChain => {
                    for (o, i) in bufs[0].iter_mut().zip(&own) {
                        o.copy_from_slice(i);
                    }
                }
                RenderStep::Effect { index, from, .. } => {
                    self.run_effect(effects[index], mixes[index], from, &mut bufs);
                }
                RenderStep::ChainToOutput { from } => {
                    out = bufs[if from == Buffer::A { 0 } else { 1 }].clone();
                }
                RenderStep::Metronome => {}
            }
        }
        out
    }

    fn finish(&mut self, group: usize, bus: &mut Vec<Vec<f32>>) {
        let g = &self.graph.groups[group];
        let effects: Vec<u64> = g.effects.iter().map(|h| h.id).collect();
        let mixes: Vec<f32> = g.mix_values.iter().map(|m| f64::from_bits(m.bits) as f32).collect();
        let (volume, pan) = (f(g.volume), f(g.pan));
        let mut bufs = [vec![vec![0.0; FRAMES]; 2], vec![vec![0.0; FRAMES]; 2]];
        for step in g.finish_plan(2) {
            match step {
                BusStep::ScaleVolume => {
                    for s in bus.iter_mut().flatten() {
                        *s *= volume;
                    }
                }
                BusStep::CopyToChain => bufs[0] = bus.clone(),
                BusStep::Effect { index, from, .. } => {
                    self.run_effect(effects[index], mixes[index], from, &mut bufs);
                }
                BusStep::ChainToBus { from } => {
                    *bus = bufs[if from == Buffer::A { 0 } else { 1 }].clone();
                }
                BusStep::Pan => {
                    let gains = if pan >= 0.0 { [1.0 - pan, 1.0] } else { [1.0, 1.0 + pan] };
                    for (ch, gain) in bus.iter_mut().zip(gains) {
                        for s in ch.iter_mut() {
                            *s *= gain;
                        }
                    }
                }
            }
        }
    }

    /// Render one buffer.
    fn process(&mut self, midi: &[MidiEvent]) -> Vec<Vec<f32>> {
        let mut mix = vec![vec![0.0f32; FRAMES]; 2];
        let mut buses = vec![vec![vec![999.0f32; FRAMES]; 2]; self.graph.groups.len()];
        for step in self.graph.process_plan(FRAMES) {
            match step {
                GraphStep::Begin { group } => buses[group] = vec![vec![0.0; FRAMES]; 2],
                GraphStep::TickGroup { group } => {
                    let heard = build_group_midi(&self.graph.instruments, group, midi);
                    let mods = &mut self.graph.groups[group].modulators;
                    for m in mods.iter_mut() {
                        tick(m, FRAMES, &heard);
                    }
                    cross_modulate(mods);
                }
                GraphStep::WriteMemberMods => {
                    let values = self
                        .graph
                        .collect_group_member_mod_writes()
                        .iter()
                        .map(|r| {
                            let m = &self.graph.groups[r.group].modulators[r.modulator];
                            b(modulated(m, &m.targets[r.target]))
                        })
                        .collect();
                    self.graph.apply_group_member_mod_writes(&values);
                }
                GraphStep::WriteParams => {
                    for group in 0..self.graph.groups.len() {
                        let routes = self.graph.collect_group_mod_writes(group);
                        for r in routes.members.iter().chain(routes.bus.iter()) {
                            let value = summed(&self.graph.groups[group].modulators, r);
                            let plugin = self.graph.param_plugin(r.dest);
                            self.set_param(plugin, value);
                        }
                    }
                }
                GraphStep::Lane { inst, bus } => {
                    let out = self.lane(inst, midi);
                    let dest = match bus {
                        Some(g) => &mut buses[g],
                        None => &mut mix,
                    };
                    for (d, s) in dest.iter_mut().flatten().zip(out.iter().flatten()) {
                        *d += *s;
                    }
                }
                GraphStep::Finish { group } => {
                    let mut bus = std::mem::take(&mut buses[group]);
                    self.finish(group, &mut bus);
                    for (d, s) in mix.iter_mut().flatten().zip(bus.iter().flatten()) {
                        *d += *s;
                    }
                }
            }
        }
        mix
    }
}

fn note_on(note: u8) -> MidiEvent {
    (0, [0x90, note, 100])
}

fn note_off(note: u8) -> MidiEvent {
    (0, [0x80, note, 0])
}

fn near(samples: &[f32], value: f32) -> bool {
    samples.iter().all(|s| (s - value).abs() < 1e-6)
}

fn lfo(rate: f32) -> ModSource {
    ModSource::Lfo { waveform: LfoWaveform::Sine, rate: b(rate), phase: b(0.0) }
}

fn envelope(attack: f32, decay: f32, sustain: f32, release: f32) -> ModSource {
    ModSource::Envelope {
        attack: b(attack),
        decay: b(decay),
        sustain: b(sustain),
        release: b(release),
        state: EnvState::Idle,
        level: b(0.0),
        notes_held: 0,
    }
}

fn target(kind: ModTargetKind, depth: f32, base: f32, min: f32, max: f32) -> ModTarget {
    ModTarget { kind, depth: b(depth), base_value: b(base), param_min: b(min), param_max: b(max) }
}

// -- one lane --

#[test]
fn silence_when_no_instrument() {
    let mut rig = Rig::with_lanes(1);
    let out = rig.process(&[]);
    assert!(out[0].iter().all(|&s| s == 0.0));
    assert!(out[1].iter().all(|&s| s == 0.0));
}

#[test]
fn instrument_direct_output() {
    let mut rig = Rig::with_lanes(1);
    rig.constant(0, 0.75);
    let out = rig.process(&[note_on(60)]);
    assert!(out[0].iter().all(|&s| s == 0.75));
    assert!(out[1].iter().all(|&s| s == 0.75));
}

#[test]
fn instrument_silence_without_note() {
    let mut rig = Rig::with_lanes(1);
    rig.constant(0, 0.75);
    let out = rig.process(&[]);
    assert!(out[0].iter().all(|&s| s == 0.0));
}

#[test]
fn note_off_silences_instrument() {
    let mut rig = Rig::with_lanes(1);
    rig.constant(0, 0.75);
    let out = rig.process(&[note_on(60)]);
    assert!(out[0].iter().all(|&s| s == 0.75));
    let out = rig.process(&[note_off(60)]);
    assert!(out[0].iter().all(|&s| s == 0.0));
}

#[test]
fn single_passthrough_effect() {
    let mut rig = Rig::with_lanes(1);
    rig.constant(0, 0.5);
    rig.effect(0, Mock::Passthrough, 1.0);
    let out = rig.process(&[note_on(60)]);
    assert!(out[0].iter().all(|&s| s == 0.5));
    assert!(out[1].iter().all(|&s| s == 0.5));
}

#[test]
fn dry_wet_mix() {
    let mut rig = Rig::with_lanes(1);
    rig.constant(0, 1.0);
    // Silence at half mix leaves half of the dry signal.
    rig.effect(0, Mock::Scale(0.0), 0.5);
    let out = rig.process(&[note_on(60)]);
    assert!(near(&out[0], 0.5));
    assert!(near(&out[1], 0.5));
}

#[test]
fn multiple_effects_chain() {
    let mut rig = Rig::with_lanes(1);
    rig.constant(0, 1.0);
    rig.effect(0, Mock::Scale(0.5), 1.0);
    rig.effect(1, Mock::Scale(0.5), 1.0);
    let out = rig.process(&[note_on(60)]);
    assert!(near(&out[0], 0.25));
}

#[test]
fn multi_output_instrument_truncation() {
    let mut rig = Rig::with_lanes(1);
    rig.instrument(0, Mock::Const { value: 0.8, has_note: false }, 4);
    rig.effect(0, Mock::Passthrough, 1.0);
    let out = rig.process(&[note_on(60)]);
    // Only first 2 of 4 channels reach the output
    assert!(out[0].iter().all(|&s| s == 0.8));
    assert!(out[1].iter().all(|&s| s == 0.8));
}

#[test]
fn multi_output_instrument_no_effects() {
    let mut rig = Rig::with_lanes(1);
    rig.instrument(0, Mock::Const { value: 0.6, has_note: false }, 16);
    let out = rig.process(&[note_on(60)]);
    assert!(out[0].iter().all(|&s| s == 0.6));
    assert!(out[1].iter().all(|&s| s == 0.6));
}

#[test]
fn swap_instrument_returns_old() {
    let mut rig = Rig::with_lanes(1);
    let old = rig.constant(0, 1.0);
    rig.process(&[]);
    assert!(rig.returned.is_empty());
    rig.constant(0, 0.5);
    rig.process(&[]);
    assert_eq!(rig.returned, vec![old]);
}

#[test]
fn remove_effect() {
    let mut rig = Rig::with_lanes(1);
    rig.constant(0, 1.0);
    let effect = rig.effect(0, Mock::Scale(0.5), 1.0);
    let out = rig.process(&[note_on(60)]);
    assert!(near(&out[0], 0.5));

    // Remove the effect: back to direct instrument output
    rig.send(GraphCommand::RemoveEffect { inst: 0, index: 0 });
    let out = rig.process(&[note_on(60)]);
    assert!(out[0].iter().all(|&s| s == 1.0));
    assert_eq!(rig.returned, vec![effect]);
}

#[test]
fn reorder_effects() {
    let mut rig = Rig::with_lanes(1);
    rig.constant(0, 1.0);
    // [Scale(2.0), Offset(0.5)]: 1.0 * 2.0 + 0.5 = 2.5
    rig.effect(0, Mock::Scale(2.0), 1.0);
    rig.effect(1, Mock::Offset(0.5), 1.0);
    let out = rig.process(&[note_on(60)]);
    assert!(near(&out[0], 2.5));

    // [Offset(0.5), Scale(2.0)]: (1.0 + 0.5) * 2.0 = 3.0
    rig.send(GraphCommand::ReorderEffect { inst: 0, from: 0, to: 1 });
    let out = rig.process(&[note_on(60)]);
    assert!(near(&out[0], 3.0));
}

#[test]
fn reject_effect_with_wrong_channel_count() {
    let mut rig = Rig::with_lanes(1);
    rig.constant(0, 1.0);
    // Mono effect (1 output), incompatible with a stereo chain.
    let effect = rig.own(Mock::Passthrough, 1);
    rig.send(GraphCommand::InsertEffect { inst: 0, index: 0, effect, mix: w(1.0) });

    // Effect was rejected: instrument output passes through directly
    let out = rig.process(&[note_on(60)]);
    assert!(out[0].iter().all(|&s| s == 1.0));
    // and the effect was handed back
    assert_eq!(rig.returned, vec![effect.id]);
}

#[test]
fn remapper_integration_with_graph() {
    let entries = vec![RemapRequest {
        source: "G#4".to_string(),
        target: "G4".to_string(),
        exceeds: false,
        bend_value: 12288,
    }];
    let remapper = NoteRemapper::from_config(&entries, &vec![vec![true]]).unwrap();
    let mut rig = Rig::with_lanes(1);
    let instrument = rig.own(Mock::Const { value: 0.75, has_note: false }, 2);
    rig.send(GraphCommand::SwapInstrument {
        inst: 0,
        instrument,
        inst_outputs: 2,
        remapper: Some(remapper),
    });
    assert_eq!(
        rig.graph.instruments[0].incoming(&[note_on(68)]),
        vec![(0, [0x91, 67, 100]), (0, [0xE1, 0, 96])]
    );
    let out = rig.process(&[note_on(68)]);
    assert!(out[0].iter().all(|&s| s == 0.75));
}

#[test]
fn volume_scaling() {
    let mut rig = Rig::with_lanes(1);
    rig.constant(0, 1.0);
    rig.send(GraphCommand::SetVolume { inst: 0, value: b(0.5) });
    let out = rig.process(&[note_on(60)]);
    assert!(near(&out[0], 0.5));
}

#[test]
fn empty_graph_silence() {
    let mut rig = Rig::empty();
    let out = rig.process(&[note_on(60)]);
    assert!(out[0].iter().all(|&s| s == 0.0));
}

// -- several lanes --

#[test]
fn two_instruments_sum_output() {
    let mut rig = Rig::with_lanes(2);
    rig.constant(0, 0.3);
    rig.constant(1, 0.5);
    let out = rig.process(&[note_on(60)]);
    // Both instruments output on same note: 0.3 + 0.5 = 0.8
    assert!(near(&out[0], 0.8));
    assert!(near(&out[1], 0.8));
}

#[test]
fn range_filtering() {
    let mut rig = Rig::empty();
    // Two instrument lanes with ranges: C0-B3 and C4-C8
    rig.send(GraphCommand::AddInstrument { range: Some((12, 59)) });
    rig.send(GraphCommand::AddInstrument { range: Some((60, 96)) });
    rig.constant(0, 0.3);
    rig.constant(1, 0.7);

    // Play note in low range (C2 = 36): only low instrument should respond
    let out = rig.process(&[note_on(36)]);
    assert!(near(&out[0], 0.3));

    // Note-off, then a note in high range (C5 = 72): only high instrument
    let out = rig.process(&[note_off(36), note_on(72)]);
    assert!(near(&out[0], 0.7));
}

#[test]
fn cc_passthrough_to_all_instruments() {
    // CC events (e.g. sustain pedal) reach all instruments regardless of range
    let mut rig = Rig::empty();
    rig.send(GraphCommand::AddInstrument { range: Some((0, 59)) });
    rig.send(GraphCommand::AddInstrument { range: Some((60, 127)) });
    rig.constant(0, 0.5);
    rig.constant(1, 0.5);
    let cc: MidiEvent = (0, [0xB0, 64, 127]);
    assert_eq!(rig.graph.instruments[0].incoming(&[cc]), vec![cc]);
    assert_eq!(rig.graph.instruments[1].incoming(&[cc]), vec![cc]);
    let out = rig.process(&[cc]);
    assert!(out[0].iter().all(|&s| s == 0.0));
}

#[test]
fn group_bus_sums_members_and_applies_volume() {
    let mut rig = Rig::with_lanes(2);
    rig.constant(0, 0.25);
    rig.constant(1, 0.25);
    // Group both lanes and halve the group bus volume: (0.25+0.25)*0.5.
    rig.send(GraphCommand::AddGroup);
    rig.send(GraphCommand::SetLaneGroup { inst: 0, group: Some(0) });
    rig.send(GraphCommand::SetLaneGroup { inst: 1, group: Some(0) });
    rig.send(GraphCommand::SetGroupVolume { group: 0, value: b(0.5) });
    let out = rig.process(&[note_on(60)]);
    assert!(near(&out[0], 0.25));

    // Ungroup one member: it reaches the master directly at full level, the
    // other stays in the group: 0.25 + 0.25*0.5 = 0.375.
    rig.send(GraphCommand::SetLaneGroup { inst: 1, group: None });
    let out = rig.process(&[note_on(60)]);
    assert!(near(&out[0], 0.375));
}

#[test]
fn group_pan_balances_bus_output() {
    let mut rig = Rig::with_lanes(1);
    rig.constant(0, 0.5);
    rig.send(GraphCommand::AddGroup);
    rig.send(GraphCommand::SetLaneGroup { inst: 0, group: Some(0) });

    // Hard right: left silent, right at full member level.
    rig.send(GraphCommand::SetGroupPan { group: 0, value: b(1.0) });
    let out = rig.process(&[note_on(60)]);
    assert!(near(&out[0], 0.0));
    assert!(near(&out[1], 0.5));

    // Center: both channels at full (unchanged).
    rig.send(GraphCommand::SetGroupPan { group: 0, value: b(0.0) });
    let out = rig.process(&[note_on(60)]);
    assert!(near(&out[0], 0.5));
    assert!(near(&out[1], 0.5));
}

// -- modulators --

#[test]
fn group_modulator_drives_member_param() {
    let mut rig = Rig::with_lanes(1);
    rig.instrument(0, Mock::Tracking(0.5), 2);
    rig.send(GraphCommand::AddGroup);
    rig.send(GraphCommand::SetLaneGroup { inst: 0, group: Some(0) });
    rig.send(GraphCommand::InsertGroupModulator {
        group: 0,
        index: 0,
        source: envelope(0.01, 0.3, 0.7, 0.5),
    });
    rig.send(GraphCommand::AddGroupModTarget {
        group: 0,
        mod_index: 0,
        target: target(
            ModTargetKind::GroupMember { member: 0, slot: 0, param_index: 0 },
            1.0,
            0.5,
            0.0,
            1.0,
        ),
    });
    // No notes: the envelope is idle and pulls the member's parameter to 0.
    let out = rig.process(&[]);
    assert!(near(&out[0], 0.0), "got {}", out[0][0]);
}

#[test]
fn group_modulator_drives_bus_effect() {
    let mut rig = Rig::with_lanes(1);
    rig.constant(0, 0.5);
    rig.send(GraphCommand::AddGroup);
    rig.send(GraphCommand::SetLaneGroup { inst: 0, group: Some(0) });
    let effect = rig.own(Mock::Scale(1.0), 2);
    rig.send(GraphCommand::InsertGroupEffect { group: 0, index: 0, effect, mix: w(1.0) });
    rig.send(GraphCommand::InsertGroupModulator {
        group: 0,
        index: 0,
        source: envelope(0.01, 0.3, 0.7, 0.5),
    });
    rig.send(GraphCommand::AddGroupModTarget {
        group: 0,
        mod_index: 0,
        target: target(
            ModTargetKind::GroupBus { effect_index: 0, param_index: 0 },
            1.0,
            1.0,
            0.0,
            1.0,
        ),
    });
    // The idle envelope pulls the bus gain to 0.
    let out = rig.process(&[]);
    assert!(near(&out[0], 0.0), "got {}", out[0][0]);
    assert_eq!(rig.plugins[&effect.id].parameter(), Some(0.0));
}

#[test]
fn group_modulator_drives_member_modulator() {
    let mut rig = Rig::with_lanes(1);
    rig.constant(0, 0.5);
    rig.send(GraphCommand::AddGroup);
    rig.send(GraphCommand::SetLaneGroup { inst: 0, group: Some(0) });
    rig.send(GraphCommand::InsertModulator { inst: 0, index: 0, source: lfo(10.0) });
    rig.send(GraphCommand::InsertGroupModulator {
        group: 0,
        index: 0,
        source: envelope(0.01, 0.3, 0.7, 0.5),
    });
    rig.send(GraphCommand::AddGroupModTarget {
        group: 0,
        mod_index: 0,
        target: target(
            ModTargetKind::GroupMemberMod { member: 0, mod_index: 0, field: CrossModField::Rate },
            1.0,
            10.0,
            0.01,
            50.0,
        ),
    });
    rig.process(&[]);
    // The idle envelope at depth 1 pulls the member LFO's rate to the minimum.
    match rig.graph.instruments[0].modulators[0].source {
        ModSource::Lfo { rate, .. } => assert!(f(rate) < 0.1, "got {}", f(rate)),
        _ => panic!("member modulator should be an LFO"),
    }
}

#[test]
fn modulator_applies_set_parameter() {
    let mut rig = Rig::with_lanes(1);
    rig.instrument(0, Mock::Tracking(0.5), 2);
    rig.send(GraphCommand::InsertModulator { inst: 0, index: 0, source: lfo(1.0) });
    rig.send(GraphCommand::AddModTarget {
        inst: 0,
        mod_index: 0,
        target: target(
            ModTargetKind::PluginParam { slot: 0, param_index: 0 },
            0.5,
            0.5,
            0.0,
            1.0,
        ),
    });
    let mut out = rig.process(&[]);
    assert!((0.0..=1.0).contains(&out[0][0]));
    assert!(out[0][0] != 0.5, "the modulator should have moved the parameter");
    for _ in 0..1000 {
        out = rig.process(&[]);
    }
    assert!((0.0..=1.0).contains(&out[0][0]));
}

#[test]
fn envelope_modulator_anchors_base_as_peak() {
    let mut rig = Rig::with_lanes(1);
    rig.instrument(0, Mock::Tracking(1.0), 2);
    rig.send(GraphCommand::InsertModulator {
        inst: 0,
        index: 0,
        source: envelope(0.0, 0.0, 1.0, 0.0),
    });
    rig.send(GraphCommand::AddModTarget {
        inst: 0,
        mod_index: 0,
        target: target(
            ModTargetKind::PluginParam { slot: 0, param_index: 0 },
            1.0,
            1.0,
            0.0,
            1.0,
        ),
    });
    // Idle: the envelope holds the parameter at its minimum.
    let out = rig.process(&[]);
    assert!(out[0][0].abs() < 0.01);
    // Note-on: the envelope peaks at the base value.
    let out = rig.process(&[note_on(60)]);
    assert!((out[0][0] - 1.0).abs() < 0.01);
    // Note-off: back to the minimum.
    let out = rig.process(&[note_off(60)]);
    assert!(out[0][0].abs() < 0.01);
}

#[test]
fn envelope_modulator_depth_limits_dip() {
    let mut m = Modulator::new(envelope(0.0, 0.0, 1.0, 0.0), b(48000.0));
    let t = target(ModTargetKind::PluginParam { slot: 0, param_index: 0 }, 0.5, 0.8, 0.0, 1.0);
    tick(&mut m, 64, &[]); // idle: output 0
    assert!((f(t.base_value) + target_offset(&m, &t) - 0.4).abs() < 1e-6);
    tick(&mut m, 64, &[note_on(60)]); // instant attack to peak
    assert!((f(t.base_value) + target_offset(&m, &t) - 0.8).abs() < 1e-6);
}

#[test]
fn modulator_base_value_updated_by_set_parameter() {
    let mut rig = Rig::with_lanes(1);
    rig.instrument(0, Mock::Tracking(0.5), 2);
    rig.send(GraphCommand::InsertModulator { inst: 0, index: 0, source: lfo(1.0) });
    rig.send(GraphCommand::AddModTarget {
        inst: 0,
        mod_index: 0,
        target: target(
            ModTargetKind::PluginParam { slot: 0, param_index: 0 },
            0.5,
            0.5,
            0.0,
            1.0,
        ),
    });
    rig.process(&[]);
    rig.send(GraphCommand::SetParameter { inst: 0, slot: 0, param_index: 0, value: b(0.8) });
    assert_eq!(rig.graph.instruments[0].modulators[0].targets[0].base_value, b(0.8));
    // The modulator now moves around 0.8.
    let sample = rig.process(&[])[0][0];
    assert!((sample - 0.8).abs() < 0.3, "expected close to 0.8 after base change, got {sample}");
}

#[test]
fn lane_modulator_survives_effect_removal() {
    let mut rig = Rig::with_lanes(1);
    rig.constant(0, 1.0);
    rig.effect(0, Mock::Passthrough, 1.0);
    rig.effect(1, Mock::Passthrough, 1.0);
    rig.send(GraphCommand::InsertModulator { inst: 0, index: 0, source: lfo(1.0) });
    rig.send(GraphCommand::AddModTarget {
        inst: 0,
        mod_index: 0,
        target: target(
            ModTargetKind::PluginParam { slot: 0, param_index: 0 },
            0.5,
            0.5,
            0.0,
            1.0,
        ),
    });
    rig.process(&[note_on(60)]);
    rig.send(GraphCommand::RemoveEffect { inst: 0, index: 0 });
    let out = rig.process(&[note_on(60)]);
    assert!(out[0].iter().all(|&s| s.is_finite()));
    assert_eq!(rig.graph.instruments[0].modulators[0].targets.len(), 1);
}

#[test]
fn modulator_targets_effect_slot() {
    // A target on slot 1 drives the effect's parameter, not the instrument's.
    let mut rig = Rig::with_lanes(1);
    let inst = rig.instrument(0, Mock::Tracking(0.5), 2);
    let fx = rig.effect(0, Mock::Tracking(0.5), 1.0);
    let mut m = Modulator::new(lfo(1.0), b(48000.0));
    m.targets = vec![target(
        ModTargetKind::PluginParam { slot: 1, param_index: 0 },
        1.0,
        0.5,
        0.0,
        1.0,
    )];
    m.last_output = b(1.0); // force the LFO to its peak
    let mods = vec![m];
    for route in chain_routes(&mods) {
        if let ParamDest::Chain { slot, .. } = route.dest {
            let plugin = rig.graph.instruments[0].plugin_at(slot);
            rig.set_param(plugin, summed(&mods, &route));
        }
    }
    assert!(rig.plugins[&fx].parameter().unwrap() > 0.9);
    assert_eq!(rig.plugins[&inst].parameter(), Some(0.5));
}

// -- membership and conservation --

#[test]
fn ordinals_count_members_in_lane_order() {
    let mut rig = Rig::with_lanes(3);
    rig.send(GraphCommand::AddGroup);
    rig.send(GraphCommand::SetLaneGroup { inst: 0, group: Some(0) });
    rig.send(GraphCommand::SetLaneGroup { inst: 2, group: Some(0) });
    assert_eq!(group_member_lane(&rig.graph.instruments, 0, 0), Some(0));
    assert_eq!(group_member_lane(&rig.graph.instruments, 0, 1), Some(2));
    assert_eq!(group_member_lane(&rig.graph.instruments, 0, 2), None);
    assert_eq!(lane_member_ordinal(&rig.graph.instruments, 1), None);
    assert!(lane_member_ordinal(&rig.graph.instruments, 2) == Some((0, 1)));
}

#[test]
fn group_targets_follow_their_members() {
    let mut rig = Rig::with_lanes(3);
    rig.send(GraphCommand::AddGroup);
    for inst in [1, 2] {
        rig.send(GraphCommand::SetLaneGroup { inst, group: Some(0) });
    }
    rig.send(GraphCommand::InsertGroupModulator { group: 0, index: 0, source: lfo(1.0) });
    for member in [0, 1] {
        rig.send(GraphCommand::AddGroupModTarget {
            group: 0,
            mod_index: 0,
            target: target(
                ModTargetKind::GroupMember { member, slot: 0, param_index: 0 },
                0.5,
                0.5,
                0.0,
                1.0,
            ),
        });
    }
    let members = |rig: &Rig| -> Vec<usize> {
        rig.graph.groups[0].modulators[0]
            .targets
            .iter()
            .map(|t| match t.kind {
                ModTargetKind::GroupMember { member, .. } => member,
                _ => panic!("only member targets were added"),
            })
            .collect()
    };
    // A lane in front joins: the others move up.
    rig.send(GraphCommand::SetLaneGroup { inst: 0, group: Some(0) });
    assert_eq!(members(&rig), vec![1, 2]);
    // The lane in the middle leaves: its target goes, the last moves down.
    rig.send(GraphCommand::SetLaneGroup { inst: 1, group: None });
    assert_eq!(members(&rig), vec![1]);
}

#[test]
fn removing_a_lane_hands_every_plugin_back() {
    let mut rig = Rig::with_lanes(1);
    let inst = rig.constant(0, 1.0);
    let a = rig.effect(0, Mock::Passthrough, 1.0);
    let z = rig.effect(1, Mock::Passthrough, 1.0);
    rig.send(GraphCommand::RemoveInstrument { inst: 0 });
    let mut back = rig.returned.clone();
    back.sort();
    assert_eq!(back, vec![inst, a, z]);
    assert!(rig.graph.instruments.is_empty());
}

#[test]
fn removing_a_group_frees_its_members() {
    let mut rig = Rig::with_lanes(2);
    rig.send(GraphCommand::AddGroup);
    rig.send(GraphCommand::AddGroup);
    rig.send(GraphCommand::SetLaneGroup { inst: 0, group: Some(0) });
    rig.send(GraphCommand::SetLaneGroup { inst: 1, group: Some(1) });
    rig.send(GraphCommand::RemoveGroup { group: 0 });
    assert_eq!(rig.graph.instruments[0].group, None);
    assert_eq!(rig.graph.instruments[1].group, Some(0));
}

#[test]
fn unknown_lanes_are_left_alone() {
    let mut rig = Rig::with_lanes(1);
    rig.send(GraphCommand::SetVolume { inst: 7, value: b(0.5) });
    rig.send(GraphCommand::RemoveEffect { inst: 0, index: 3 });
    assert_eq!(rig.graph.instruments[0].volume, b(1.0));
    assert_eq!(rig.graph.instruments.len(), 1);
}

#[test]
fn lanes_render_before_their_bus() {
    let mut rig = Rig::with_lanes(2);
    rig.send(GraphCommand::AddGroup);
    rig.send(GraphCommand::SetLaneGroup { inst: 1, group: Some(0) });
    rig.send(GraphCommand::InsertGroupModulator { group: 0, index: 0, source: lfo(1.0) });
    assert_eq!(
        rig.graph.process_plan(64),
        vec![
            GraphStep::Begin { group: 0 },
            GraphStep::TickGroup { group: 0 },
            GraphStep::WriteMemberMods,
            GraphStep::WriteParams,
            GraphStep::Lane { inst: 0, bus: None },
            GraphStep::Lane { inst: 1, bus: Some(0) },
            GraphStep::Finish { group: 0 },
        ]
    );
    // An empty buffer moves no modulator.
    assert_eq!(
        rig.graph.process_plan(0),
        vec![
            GraphStep::Begin { group: 0 },
            GraphStep::Lane { inst: 0, bus: None },
            GraphStep::Lane { inst: 1, bus: Some(0) },
            GraphStep::Finish { group: 0 },
        ]
    );
}

#[test]
fn transposed_notes_outside_the_keyboard_are_dropped() {
    let mut lane = InstrumentLane::new();
    lane.transpose = 12;
    let out = lane.outgoing(&[note_on(60), note_on(120), (0, [0xB0, 1, 2])], 64, &[0; 256], 0);
    assert_eq!(out.events, vec![note_on(72), (0, [0xB0, 1, 2])]);
}

#[test]
fn a_held_note_keeps_the_envelope_from_its_release() {
    let source = ModSource::Envelope {
        attack: b(0.0),
        decay: b(0.0),
        sustain: b(0.5),
        release: b(0.0),
        state: EnvState::Idle,
        level: b(0.0),
        notes_held: 0,
    };
    let mut m = Modulator::new(source, b(48000.0));
    let stage = |m: &Modulator| match m.source {
        ModSource::Envelope { state, level, .. } => (state, f(level)),
        ModSource::Lfo { .. } => panic!("the source is an envelope"),
    };
    tick(&mut m, FRAMES, &[note_on(60), note_on(64)]);
    assert_eq!(stage(&m), (EnvState::Decay, 1.0));
    tick(&mut m, FRAMES, &[note_off(60)]);
    assert_eq!(stage(&m), (EnvState::Sustain, 0.5));
    tick(&mut m, FRAMES, &[]);
    assert_eq!(stage(&m), (EnvState::Sustain, 0.5));
    tick(&mut m, FRAMES, &[note_off(64)]);
    assert_eq!(stage(&m), (EnvState::Idle, 0.0));
    assert_eq!(f(m.last_output), 0.0);
}

#[test]
fn an_envelope_stage_ends_where_its_level_does() {
    let envelope = |state| {
        let source = ModSource::Envelope {
            attack: b(1.0),
            decay: b(1.0),
            sustain: b(0.25),
            release: b(1.0),
            state,
            level: b(0.5),
            notes_held: 1,
        };
        Modulator::new(source, b(48000.0))
    };
    for (state, stepped, next, level) in [
        (EnvState::Idle, 0.5, EnvState::Idle, 0.0),
        (EnvState::Attack, 0.99, EnvState::Attack, 0.99),
        (EnvState::Attack, 1.0, EnvState::Decay, 1.0),
        (EnvState::Decay, 0.26, EnvState::Decay, 0.26),
        (EnvState::Decay, 0.25, EnvState::Sustain, 0.25),
        (EnvState::Sustain, 0.5, EnvState::Sustain, 0.25),
        (EnvState::Release, 0.002, EnvState::Release, 0.002),
        (EnvState::Release, 0.001, EnvState::Idle, 0.0),
    ] {
        let mut m = envelope(state);
        m.settle_level(b(stepped));
        match m.source {
            ModSource::Envelope { state, level: l, notes_held, .. } => {
                assert_eq!((state, f(l), notes_held), (next, level, 1));
            }
            ModSource::Lfo { .. } => panic!("the source is an envelope"),
        }
        assert_eq!(f(m.last_output), level);
    }
}

#[test]
fn a_queue_of_commands_loses_no_plugin() {
    let mut rig = Rig::with_lanes(2);
    let first = rig.constant(0, 0.5);
    let second = rig.constant(0, 0.25);
    let kept = rig.effect(0, Mock::Passthrough, 1.0);
    let narrow = rig.own(Mock::Passthrough, 1);
    rig.send(GraphCommand::InsertEffect { inst: 0, index: 0, effect: narrow, mix: w(1.0) });
    let removed = rig.effect(1, Mock::Scale(2.0), 1.0);
    rig.send(GraphCommand::RemoveEffect { inst: 0, index: 1 });
    rig.send(GraphCommand::SwapInstruments { inst_a: 0, inst_b: 1 });
    rig.send(GraphCommand::RemoveInstrument { inst: 1 });
    assert_eq!(rig.returned, vec![first, narrow.id, removed, second]);
    let lane = &rig.graph.instruments[0];
    assert_eq!(lane.instrument.map(|h| h.id), None);
    assert_eq!(lane.effects.iter().map(|h| h.id).collect::<Vec<_>>(), vec![kept]);
}
