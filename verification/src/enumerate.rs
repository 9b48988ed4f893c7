//! What the listing and describing commands print, line by line.

use vstd::prelude::*;

use crate::config::{text_list, text_view};
use crate::text::{dec, push_dec, same_text};

verus! {

proof fn pushed(lines: Seq<String>, line: String)
    ensures
        text_list(lines.push(line)) == text_list(lines).push(line@),
{
    assert(text_list(lines.push(line)) =~= text_list(lines).push(line@));
}

fn push_line(lines: &mut Vec<String>, line: String)
    ensures
        text_list(final(lines)@) == text_list(old(lines)@).push(line@),
{
    proof {
        pushed(lines@, line);
    }
    lines.push(line);
}

fn push_text(lines: &mut Vec<String>, line: &str)
    ensures
        text_list(final(lines)@) == text_list(old(lines)@).push(line@),
{
    push_line(lines, line.to_owned());
}

fn no_lines() -> (lines: Vec<String>)
    ensures
        text_list(lines@) == Seq::<Seq<char>>::empty(),
{
    let lines: Vec<String> = Vec::new();
    assert(text_list(lines@) =~= Seq::empty());
    lines
}

// ---------------------------------------------------------------------------
// MIDI inputs
// ---------------------------------------------------------------------------

/// The line of a port. One whose name cannot be had is unknown.
pub open spec fn port_text(name: Option<Seq<char>>) -> Seq<char> {
    match name {
        Some(name) => "  "@ + name,
        None => "  Unknown"@,
    }
}

/// The lines for MIDI input ports.
pub open spec fn midi_lines(ports: Seq<Option<String>>) -> Seq<Seq<char>> {
    let head = seq!["=== MIDI Input Devices ==="@];
    if ports.len() == 0 {
        head.push("  (none found)"@)
    } else {
        head + Seq::new(ports.len(), |i: int| port_text(text_view(ports[i])))
    }
}

/// List MIDI input ports.
pub fn midi(ports: &Vec<Option<String>>) -> (lines: Vec<String>)
    ensures
        text_list(lines@) == midi_lines(ports@),
{
    let mut lines = no_lines();
    push_text(&mut lines, "=== MIDI Input Devices ===");
    let ghost head = seq!["=== MIDI Input Devices ==="@];
    let ghost rows = Seq::new(ports@.len(), |i: int| port_text(text_view(ports@[i])));
    assert(text_list(lines@) =~= head);
    if ports.len() == 0 {
        push_text(&mut lines, "  (none found)");
        return lines;
    }
    assert(text_list(lines@) =~= head + rows.take(0));
    let mut i: usize = 0;
    while i < ports.len()
        invariant
            i <= ports.len(),
            rows == Seq::new(ports@.len(), |k: int| port_text(text_view(ports@[k]))),
            text_list(lines@) == head + rows.take(i as int),
        decreases ports.len() - i,
    {
        let line: String = match &ports[i] {
            Some(name) => {
                let mut line: String = "  ".to_owned();
                line.append(name.as_str());
                line
            },
            None => "  Unknown".to_owned(),
        };
        push_line(&mut lines, line);
        assert(text_list(lines@) =~= head + rows.take(i + 1));
        i += 1;
    }
    assert(rows.take(ports@.len() as int) =~= rows);
    lines
}

// ---------------------------------------------------------------------------
// Audio outputs
// ---------------------------------------------------------------------------

/// How a device stores samples.
#[derive(Clone, Copy, Debug, PartialEq, Eq, Structural)]
pub enum SampleFormat {
    I8,
    I16,
    I32,
    I64,
    U8,
    U16,
    U32,
    U64,
    F32,
    F64,
    Other,
}

/// What a sample format is called.
pub open spec fn format_text(fmt: SampleFormat) -> Seq<char> {
    match fmt {
        SampleFormat::I8 => "i8"@,
        SampleFormat::I16 => "i16"@,
        SampleFormat::I32 => "i32"@,
        SampleFormat::I64 => "i64"@,
        SampleFormat::U8 => "u8"@,
        SampleFormat::U16 => "u16"@,
        SampleFormat::U32 => "u32"@,
        SampleFormat::U64 => "u64"@,
        SampleFormat::F32 => "f32"@,
        SampleFormat::F64 => "f64"@,
        SampleFormat::Other => "?"@,
    }
}

/// What a sample format is called.
pub fn format_sample_fmt(fmt: SampleFormat) -> (name: &'static str)
    ensures
        name@ == format_text(fmt),
{
    match fmt {
        SampleFormat::I8 => "i8",
        SampleFormat::I16 => "i16",
        SampleFormat::I32 => "i32",
        SampleFormat::I64 => "i64",
        SampleFormat::U8 => "u8",
        SampleFormat::U16 => "u16",
        SampleFormat::U32 => "u32",
        SampleFormat::U64 => "u64",
        SampleFormat::F32 => "f32",
        SampleFormat::F64 => "f64",
        SampleFormat::Other => "?",
    }
}

/// An audio output.
#[derive(Debug)]
pub struct AudioDevice {
    pub name: String,
    pub channels: u16,
    pub rate: u32,
    pub format: SampleFormat,
}

/// The line of an audio output. The system's usual one is marked.
pub open spec fn device_text(d: AudioDevice, usual: Option<Seq<char>>) -> Seq<char> {
    "  "@ + d.name@ + (if usual == Some(d.name@) {
        " *"@
    } else {
        Seq::empty()
    }) + "  ("@ + dec(d.channels as nat) + "ch, "@ + dec(d.rate as nat) + "Hz, "@ + format_text(
        d.format,
    ) + ")"@
}

/// The lines for audio outputs.
pub open spec fn audio_lines(devices: Seq<AudioDevice>, usual: Option<Seq<char>>) -> Seq<
    Seq<char>,
> {
    let head = seq!["=== Audio Output Devices ==="@];
    if devices.len() == 0 {
        head.push("  (none found)"@)
    } else {
        head + Seq::new(devices.len(), |i: int| device_text(devices[i], usual))
    }
}

fn device_line(d: &AudioDevice, usual: &Option<String>) -> (line: String)
    ensures
        line@ == device_text(*d, text_view(*usual)),
{
    let mut line: String = "  ".to_owned();
    line.append(d.name.as_str());
    let marked: bool = match usual {
        Some(name) => same_text(name.as_str(), d.name.as_str()),
        None => false,
    };
    let ghost before = line@;
    if marked {
        line.append(" *");
    } else {
        assert(line@ =~= before + Seq::<char>::empty());
    }
    line.append("  (");
    push_dec(&mut line, d.channels as u64);
    line.append("ch, ");
    push_dec(&mut line, d.rate as u64);
    line.append("Hz, ");
    line.append(format_sample_fmt(d.format));
    line.append(")");
    line
}

/// List audio outputs.
pub fn audio(devices: &Vec<AudioDevice>, usual: &Option<String>) -> (lines: Vec<String>)
    ensures
        text_list(lines@) == audio_lines(devices@, text_view(*usual)),
{
    let mut lines = no_lines();
    push_text(&mut lines, "=== Audio Output Devices ===");
    let ghost head = seq!["=== Audio Output Devices ==="@];
    let ghost rows = Seq::new(
        devices@.len(),
        |i: int| device_text(devices@[i], text_view(*usual)),
    );
    assert(text_list(lines@) =~= head);
    if devices.len() == 0 {
        push_text(&mut lines, "  (none found)");
        return lines;
    }
    assert(text_list(lines@) =~= head + rows.take(0));
    let mut i: usize = 0;
    while i < devices.len()
        invariant
            i <= devices.len(),
            rows == Seq::new(
                devices@.len(),
                |k: int| device_text(devices@[k], text_view(*usual)),
            ),
            text_list(lines@) == head + rows.take(i as int),
        decreases devices.len() - i,
    {
        push_line(&mut lines, device_line(&devices[i], usual));
        assert(text_list(lines@) =~= head + rows.take(i + 1));
        i += 1;
    }
    assert(rows.take(devices@.len() as int) =~= rows);
    lines
}

// ---------------------------------------------------------------------------
// Plugins
// ---------------------------------------------------------------------------

/// A plugin that was found.
#[derive(Debug)]
pub struct FoundPlugin {
    pub name: String,
    pub id: String,
    pub path: String,
    pub is_instrument: bool,
    pub scan_ms: u64,
    pub param_count: usize,
    pub preset_count: usize,
}

/// Whether a plugin makes sound or changes it.
pub open spec fn role_text(is_instrument: bool) -> Seq<char> {
    if is_instrument {
        "instrument"@
    } else {
        "effect"@
    }
}

/// The lines of a plugin. `id_label` stands before its id; the path is left
/// out for what is built in.
pub open spec fn plugin_lines(p: FoundPlugin, id_label: Seq<char>, with_path: bool) -> Seq<
    Seq<char>,
> {
    let head = seq![
        "  ["@ + role_text(p.is_instrument) + "] "@ + p.name@ + " ("@ + dec(p.scan_ms as nat)
            + " ms)"@,
        id_label + p.id@,
    ];
    let path = if with_path {
        seq!["          Path:    "@ + p.path@]
    } else {
        Seq::empty()
    };
    head + path + seq![
        "          Params:  "@ + dec(p.param_count as nat),
        "          Presets: "@ + dec(p.preset_count as nat),
    ]
}

/// The lines of the first `n` plugins.
pub open spec fn all_plugin_lines(
    plugins: Seq<FoundPlugin>,
    id_label: Seq<char>,
    with_path: bool,
    n: nat,
) -> Seq<Seq<char>>
    decreases n,
{
    if n == 0 {
        Seq::empty()
    } else {
        all_plugin_lines(plugins, id_label, with_path, (n - 1) as nat) + plugin_lines(
            plugins[n - 1],
            id_label,
            with_path,
        )
    }
}

/// The lines under one heading.
pub open spec fn section_lines(
    plugins: Seq<FoundPlugin>,
    title: Seq<char>,
    none: Seq<char>,
    id_label: Seq<char>,
    with_path: bool,
) -> Seq<Seq<char>> {
    if plugins.len() == 0 {
        seq![title, none]
    } else {
        seq![title] + all_plugin_lines(plugins, id_label, with_path, plugins.len())
    }
}

fn role(is_instrument: bool) -> (name: &'static str)
    ensures
        name@ == role_text(is_instrument),
{
    if is_instrument {
        "instrument"
    } else {
        "effect"
    }
}

fn labelled(label: &str, text: &str) -> (line: String)
    ensures
        line@ == label@ + text@,
{
    let mut line: String = label.to_owned();
    line.append(text);
    line
}

fn counted(label: &str, n: u64) -> (line: String)
    ensures
        line@ == label@ + dec(n as nat),
{
    let mut line: String = label.to_owned();
    push_dec(&mut line, n);
    line
}

fn push_plugin(lines: &mut Vec<String>, p: &FoundPlugin, id_label: &str, with_path: bool)
    ensures
        text_list(final(lines)@) == text_list(old(lines)@) + plugin_lines(
            *p,
            id_label@,
            with_path,
        ),
{
    let ghost before = text_list(lines@);
    let mut head: String = "  [".to_owned();
    head.append(role(p.is_instrument));
    head.append("] ");
    head.append(p.name.as_str());
    head.append(" (");
    push_dec(&mut head, p.scan_ms);
    head.append(" ms)");
    push_line(lines, head);
    push_line(lines, labelled(id_label, p.id.as_str()));
    if with_path {
        push_line(lines, labelled("          Path:    ", p.path.as_str()));
    }
    push_line(lines, counted("          Params:  ", p.param_count as u64));
    push_line(lines, counted("          Presets: ", p.preset_count as u64));
    assert(text_list(lines@) =~= before + plugin_lines(*p, id_label@, with_path));
}

fn push_section(
    lines: &mut Vec<String>,
    plugins: &Vec<FoundPlugin>,
    title: &str,
    none: &str,
    id_label: &str,
    with_path: bool,
)
    ensures
        text_list(final(lines)@) == text_list(old(lines)@) + section_lines(
            plugins@,
            title@,
            none@,
            id_label@,
            with_path,
        ),
{
    let ghost before = text_list(lines@);
    push_text(lines, title);
    if plugins.len() == 0 {
        push_text(lines, none);
        assert(text_list(lines@) =~= before + seq![title@, none@]);
        return ;
    }
    let ghost head = before + seq![title@];
    assert(text_list(lines@) =~= head + all_plugin_lines(plugins@, id_label@, with_path, 0));
    let mut i: usize = 0;
    while i < plugins.len()
        invariant
            i <= plugins.len(),
            text_list(lines@) == head + all_plugin_lines(
                plugins@,
                id_label@,
                with_path,
                i as nat,
            ),
        decreases plugins.len() - i,
    {
        push_plugin(lines, &plugins[i], id_label, with_path);
        assert(text_list(lines@) =~= head + all_plugin_lines(
            plugins@,
            id_label@,
            with_path,
            (i + 1) as nat,
        ));
        i += 1;
    }
    assert(text_list(lines@) =~= before + section_lines(
        plugins@,
        title@,
        none@,
        id_label@,
        with_path,
    ));
}

/// The lines for the built-in plugins.
pub open spec fn builtin_lines(plugins: Seq<FoundPlugin>) -> Seq<Seq<char>> {
    section_lines(
        plugins,
        "=== Built-in Plugins ==="@,
        "  (none)"@,
        "          ID:      "@,
        false,
    )
}

/// List the built-in plugins.
pub fn builtins(plugins: &Vec<FoundPlugin>) -> (lines: Vec<String>)
    ensures
        text_list(lines@) == builtin_lines(plugins@),
{
    let mut lines = no_lines();
    push_section(
        &mut lines,
        plugins,
        "=== Built-in Plugins ===",
        "  (none)",
        "          ID:      ",
        false,
    );
    assert(text_list(lines@) =~= builtin_lines(plugins@));
    lines
}

/// The lines for the plugins of the three formats. A format that is `None` is
/// not supported by this build.
pub open spec fn all_lines(
    lv2: Option<Seq<FoundPlugin>>,
    clap: Seq<FoundPlugin>,
    vst3: Option<Seq<FoundPlugin>>,
) -> Seq<Seq<char>> {
    let lv2_part = match lv2 {
        Some(plugins) => section_lines(
            plugins,
            "=== LV2 Plugins ==="@,
            "  (none found)"@,
            "          URI:     "@,
            true,
        ),
        None => seq!["=== LV2 Plugins ==="@, "  (LV2 support not enabled)"@],
    };
    let clap_part = section_lines(
        clap,
        "=== CLAP Plugins ==="@,
        "  (none found)"@,
        "          ID:      "@,
        true,
    );
    let vst3_part = match vst3 {
        Some(plugins) => section_lines(
            plugins,
            "=== VST3 Plugins ==="@,
            "  (none found)"@,
            "          ID:      "@,
            true,
        ),
        None => seq!["=== VST3 Plugins ==="@, "  (VST3 support not enabled)"@],
    };
    lv2_part.push(""@) + clap_part.push(""@) + vst3_part
}

/// What a format's plugins are, if it is supported.
pub open spec fn found_view(plugins: Option<Vec<FoundPlugin>>) -> Option<Seq<FoundPlugin>> {
    match plugins {
        Some(plugins) => Some(plugins@),
        None => None,
    }
}

/// List the plugins of the three formats.
pub fn plugins(
    lv2: &Option<Vec<FoundPlugin>>,
    clap: &Vec<FoundPlugin>,
    vst3: &Option<Vec<FoundPlugin>>,
) -> (lines: Vec<String>)
    ensures
        text_list(lines@) == all_lines(found_view(*lv2), clap@, found_view(*vst3)),
{
    let mut lines = no_lines();
    match lv2 {
        Some(plugins) => push_section(
            &mut lines,
            plugins,
            "=== LV2 Plugins ===",
            "  (none found)",
            "          URI:     ",
            true,
        ),
        None => {
            push_text(&mut lines, "=== LV2 Plugins ===");
            push_text(&mut lines, "  (LV2 support not enabled)");
        },
    }
    push_text(&mut lines, "");
    push_section(
        &mut lines,
        clap,
        "=== CLAP Plugins ===",
        "  (none found)",
        "          ID:      ",
        true,
    );
    push_text(&mut lines, "");
    match vst3 {
        Some(plugins) => push_section(
            &mut lines,
            plugins,
            "=== VST3 Plugins ===",
            "  (none found)",
            "          ID:      ",
            true,
        ),
        None => {
            push_text(&mut lines, "=== VST3 Plugins ===");
            push_text(&mut lines, "  (VST3 support not enabled)");
        },
    }
    assert(text_list(lines@) =~= all_lines(found_view(*lv2), clap@, found_view(*vst3)));
    lines
}

// ---------------------------------------------------------------------------
// One plugin
// ---------------------------------------------------------------------------

/// A parameter to describe, its numbers written out.
#[derive(Debug)]
pub struct DescribedParam {
    pub index: u32,
    pub name: String,
    /// The names of the values, where the parameter is a choice.
    pub labels: Option<Vec<String>>,
    /// The number of the usual choice.
    pub choice: usize,
    pub min: String,
    pub max: String,
    pub default: String,
}

/// A plugin to describe.
#[derive(Debug)]
pub struct DescribedPlugin {
    pub name: String,
    pub is_instrument: bool,
    pub audio_outputs: usize,
    pub params: Vec<DescribedParam>,
    /// The name and id of each preset.
    pub presets: Vec<(String, String)>,
}

/// The first `n` names with bars between them.
pub open spec fn bar_joined(names: Seq<Seq<char>>, n: nat) -> Seq<char>
    decreases n,
{
    if n == 0 {
        Seq::empty()
    } else if n == 1 {
        names[0]
    } else {
        bar_joined(names, (n - 1) as nat) + seq!['|'] + names[n - 1]
    }
}

/// The line of a parameter.
pub open spec fn param_text(p: DescribedParam) -> Seq<char> {
    "    ["@ + dec(p.index as nat) + "] "@ + p.name@ + " ("@ + (match p.labels {
        Some(labels) => bar_joined(text_list(labels@), labels@.len()) + ", default="@ + (if p.choice
            < labels@.len() {
            labels@[p.choice as int]@
        } else {
            "?"@
        }),
        None => "min="@ + p.min@ + ", max="@ + p.max@ + ", default="@ + p.default@,
    }) + ")"@
}

/// The line of a preset.
pub open spec fn preset_text(preset: (String, String)) -> Seq<char> {
    "    "@ + preset.0@ + " ("@ + preset.1@ + ")"@
}

/// The lines that describe a plugin.
pub open spec fn described_lines(p: DescribedPlugin) -> Seq<Seq<char>> {
    seq![
        p.name@,
        "  Type:          "@ + role_text(p.is_instrument),
        "  Audio outputs: "@ + dec(p.audio_outputs as nat),
        "  Parameters:    "@ + dec(p.params@.len()),
    ] + Seq::new(p.params@.len(), |i: int| param_text(p.params@[i])) + (if p.presets@.len() == 0 {
        seq!["  Presets:       (none)"@]
    } else {
        seq!["  Presets:       "@ + dec(p.presets@.len())] + Seq::new(
            p.presets@.len(),
            |i: int| preset_text(p.presets@[i]),
        )
    })
}

fn param_line(p: &DescribedParam) -> (line: String)
    ensures
        line@ == param_text(*p),
{
    let mut line: String = "    [".to_owned();
    push_dec(&mut line, p.index as u64);
    line.append("] ");
    line.append(p.name.as_str());
    line.append(" (");
    let ghost before = line@;
    match &p.labels {
        Some(labels) => {
            let ghost names = text_list(labels@);
            let mut i: usize = 0;
            assert(line@ =~= before + bar_joined(names, 0));
            while i < labels.len()
                invariant
                    i <= labels.len(),
                    names == text_list(labels@),
                    line@ == before + bar_joined(names, i as nat),
                decreases labels.len() - i,
            {
                if i > 0 {
                    line.push('|');
                }
                line.append(labels[i].as_str());
                assert(line@ =~= before + bar_joined(names, (i + 1) as nat));
                i += 1;
            }
            line.append(", default=");
            if p.choice < labels.len() {
                line.append(labels[p.choice].as_str());
            } else {
                line.append("?");
            }
        },
        None => {
            line.append("min=");
            line.append(p.min.as_str());
            line.append(", max=");
            line.append(p.max.as_str());
            line.append(", default=");
            line.append(p.default.as_str());
        },
    }
    line.append(")");
    assert(line@ =~= param_text(*p));
    line
}

/// Describe a plugin.
pub fn describe(p: &DescribedPlugin) -> (lines: Vec<String>)
    ensures
        text_list(lines@) == described_lines(*p),
{
    let mut lines = no_lines();
    push_text(&mut lines, p.name.as_str());
    push_line(&mut lines, labelled("  Type:          ", role(p.is_instrument)));
    push_line(&mut lines, counted("  Audio outputs: ", p.audio_outputs as u64));
    push_line(&mut lines, counted("  Parameters:    ", p.params.len() as u64));
    let ghost head = text_list(lines@);
    assert(head =~= described_lines(*p).take(4));
    let ghost rows = Seq::new(p.params@.len(), |i: int| param_text(p.params@[i]));
    assert(head =~= head + rows.take(0));
    let mut i: usize = 0;
    while i < p.params.len()
        invariant
            i <= p.params.len(),
            rows == Seq::new(p.params@.len(), |k: int| param_text(p.params@[k])),
            text_list(lines@) == head + rows.take(i as int),
        decreases p.params.len() - i,
    {
        push_line(&mut lines, param_line(&p.params[i]));
        assert(text_list(lines@) =~= head + rows.take(i + 1));
        i += 1;
    }
    assert(rows.take(p.params@.len() as int) =~= rows);
    if p.presets.len() == 0 {
        push_text(&mut lines, "  Presets:       (none)");
        assert(text_list(lines@) =~= described_lines(*p));
        return lines;
    }
    push_line(&mut lines, counted("  Presets:       ", p.presets.len() as u64));
    let ghost middle = text_list(lines@);
    let ghost tail = Seq::new(p.presets@.len(), |k: int| preset_text(p.presets@[k]));
    assert(middle =~= middle + tail.take(0));
    let mut j: usize = 0;
    while j < p.presets.len()
        invariant
            j <= p.presets.len(),
            tail == Seq::new(p.presets@.len(), |k: int| preset_text(p.presets@[k])),
            text_list(lines@) == middle + tail.take(j as int),
        decreases p.presets.len() - j,
    {
        let mut line: String = "    ".to_owned();
        line.append(p.presets[j].0.as_str());
        line.append(" (");
        line.append(p.presets[j].1.as_str());
        line.append(")");
        push_line(&mut lines, line);
        assert(text_list(lines@) =~= middle + tail.take(j + 1));
        j += 1;
    }
    assert(tail.take(p.presets@.len() as int) =~= tail);
    assert(text_list(lines@) =~= described_lines(*p));
    lines
}

} // verus!
