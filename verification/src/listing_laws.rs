//! What the listings of plugins say.

use vstd::prelude::*;

use crate::enumerate::{
    all_lines, all_plugin_lines, audio_lines, builtin_lines, described_lines, device_text,
    format_text, param_text, plugin_lines, section_lines, AudioDevice, DescribedParam,
    DescribedPlugin, FoundPlugin, SampleFormat,
};
use crate::text::dec;

verus! {

/// A text starts with another.
pub open spec fn starts_with(s: Seq<char>, t: Seq<char>) -> bool {
    t.len() <= s.len() && s.take(t.len() as int) == t
}

/// A text ends with another.
pub open spec fn ends_with(s: Seq<char>, t: Seq<char>) -> bool {
    t.len() <= s.len() && s.skip(s.len() - t.len()) == t
}

proof fn parts_stand(a: Seq<char>, b: Seq<char>, c: Seq<char>)
    ensures
        starts_with(a + b, a),
        ends_with(a + b, b),
        starts_with(a + b + c, a + b),
{
    assert((a + b).take(a.len() as int) =~= a);
    assert((a + b).skip(a.len() as int) =~= b);
    assert((a + b + c).take((a + b).len() as int) =~= a + b);
}

/// How many lines a plugin is listed with.
pub open spec fn plugin_size(with_path: bool) -> int {
    if with_path {
        5
    } else {
        4
    }
}

/// The lines of a plugin: what it is called, whether it is an instrument, and how
/// long it took; its id; where it is, if that is asked for; how many parameters
/// and how many presets it has.
pub open spec fn lists_plugin(
    lines: Seq<Seq<char>>,
    p: FoundPlugin,
    id_label: Seq<char>,
    with_path: bool,
) -> bool {
    let n = plugin_size(with_path);
    &&& lines.len() == n
    &&& p.is_instrument ==> starts_with(lines[0], "  [instrument] "@ + p.name@)
    &&& !p.is_instrument ==> starts_with(lines[0], "  [effect] "@ + p.name@)
    &&& ends_with(lines[0], " ("@ + dec(p.scan_ms as nat) + " ms)"@)
    &&& lines[1] == id_label + p.id@
    &&& with_path ==> lines[2] == "          Path:    "@ + p.path@
    &&& lines[n - 2] == "          Params:  "@ + dec(p.param_count as nat)
    &&& lines[n - 1] == "          Presets: "@ + dec(p.preset_count as nat)
}

proof fn plugin_is_listed(p: FoundPlugin, id_label: Seq<char>, with_path: bool)
    ensures
        lists_plugin(plugin_lines(p, id_label, with_path), p, id_label, with_path),
{
    reveal_strlit("  [");
    reveal_strlit("] ");
    reveal_strlit("instrument");
    reveal_strlit("effect");
    reveal_strlit("  [instrument] ");
    reveal_strlit("  [effect] ");
    let role = if p.is_instrument {
        "instrument"@
    } else {
        "effect"@
    };
    let head = if p.is_instrument {
        "  [instrument] "@
    } else {
        "  [effect] "@
    };
    let time = " ("@ + dec(p.scan_ms as nat) + " ms)"@;
    assert("  ["@ + role + "] "@ =~= head);
    assert("  ["@ + role + "] "@ + p.name@ + " ("@ + dec(p.scan_ms as nat) + " ms)"@ =~= head
        + p.name@ + time);
    parts_stand(head, p.name@, time);
    parts_stand(head + p.name@, time, Seq::empty());
}

proof fn plugins_listed(
    plugins: Seq<FoundPlugin>,
    id_label: Seq<char>,
    with_path: bool,
    n: nat,
    k: int,
)
    requires
        n <= plugins.len(),
    ensures
        ({
            let lines = all_plugin_lines(plugins, id_label, with_path, n);
            let size = plugin_size(with_path);
            &&& lines.len() == n * size
            &&& 0 <= k < n ==> 0 <= k * size && (k + 1) * size <= lines.len() && lines.subrange(
                k * size,
                (k + 1) * size,
            ) == plugin_lines(plugins[k], id_label, with_path)
        }),
    decreases n,
{
    let size = plugin_size(with_path);
    let lines = all_plugin_lines(plugins, id_label, with_path, n);
    if n > 0 {
        plugins_listed(plugins, id_label, with_path, (n - 1) as nat, k);
        plugin_is_listed(plugins[n - 1], id_label, with_path);
        assert(n * size == (n - 1) * size + size) by (nonlinear_arith);
        if 0 <= k < n {
            assert(0 <= k * size && (k + 1) * size == k * size + size) by (nonlinear_arith)
                requires
                    0 <= k,
                    0 <= size,
            ;
            if k < n - 1 {
                assert((k + 1) * size <= (n - 1) * size) by (nonlinear_arith)
                    requires
                        k < n - 1,
                        0 <= size,
                ;
                let before = all_plugin_lines(plugins, id_label, with_path, (n - 1) as nat);
                assert(lines.subrange(k * size, (k + 1) * size) =~= before.subrange(
                    k * size,
                    (k + 1) * size,
                ));
            } else {
                assert(lines.subrange(k * size, (k + 1) * size) =~= plugin_lines(
                    plugins[k],
                    id_label,
                    with_path,
                ));
            }
        }
    } else {
        assert(0 * size == 0);
    }
}

/// A section has its title and then, in order, the lines of each plugin, or one
/// that says that there is none.
pub open spec fn lists_section(
    lines: Seq<Seq<char>>,
    plugins: Seq<FoundPlugin>,
    title: Seq<char>,
    none: Seq<char>,
    id_label: Seq<char>,
    with_path: bool,
    k: int,
) -> bool {
    let size = plugin_size(with_path);
    &&& lines[0] == title
    &&& plugins.len() == 0 ==> lines.len() == 2 && lines[1] == none
    &&& plugins.len() > 0 ==> lines.len() == 1 + plugins.len() * size
    &&& 0 <= k < plugins.len() ==> lists_plugin(
        lines.subrange(1 + k * size, 1 + (k + 1) * size),
        plugins[k],
        id_label,
        with_path,
    )
}

proof fn section_is_listed(
    plugins: Seq<FoundPlugin>,
    title: Seq<char>,
    none: Seq<char>,
    id_label: Seq<char>,
    with_path: bool,
    k: int,
)
    ensures
        lists_section(
            section_lines(plugins, title, none, id_label, with_path),
            plugins,
            title,
            none,
            id_label,
            with_path,
            k,
        ),
{
    let size = plugin_size(with_path);
    let lines = section_lines(plugins, title, none, id_label, with_path);
    let rest = all_plugin_lines(plugins, id_label, with_path, plugins.len());
    plugins_listed(plugins, id_label, with_path, plugins.len(), k);
    if 0 <= k < plugins.len() {
        plugin_is_listed(plugins[k], id_label, with_path);
        assert(k * size <= (k + 1) * size) by (nonlinear_arith)
            requires
                0 <= k,
                0 <= size,
        ;
        assert(lines.subrange(1 + k * size, 1 + (k + 1) * size) =~= rest.subrange(
            k * size,
            (k + 1) * size,
        ));
    }
}

/// The built-in plugins are listed in order under one title, without paths.
pub proof fn built_in_plugins_are_listed(plugins: Seq<FoundPlugin>, k: int)
    ensures
        lists_section(
            builtin_lines(plugins),
            plugins,
            "=== Built-in Plugins ==="@,
            "  (none)"@,
            "          ID:      "@,
            false,
            k,
        ),
{
    section_is_listed(
        plugins,
        "=== Built-in Plugins ==="@,
        "  (none)"@,
        "          ID:      "@,
        false,
        k,
    );
}

/// The plugins of the three formats are listed in three sections with blank lines
/// between them: LV2, which goes by URIs, CLAP and VST3, which go by ids. A format
/// that is not supported is said not to be.
pub proof fn formats_have_their_sections(
    lv2: Option<Seq<FoundPlugin>>,
    clap: Seq<FoundPlugin>,
    vst3: Option<Seq<FoundPlugin>>,
    k: int,
)
    ensures
        exists|a: Seq<Seq<char>>, b: Seq<Seq<char>>, c: Seq<Seq<char>>|
            {
                &&& all_lines(lv2, clap, vst3) == #[trigger] (a + seq![""@] + b + seq![""@] + c)
                &&& lv2 is Some ==> lists_section(
                    a,
                    lv2->0,
                    "=== LV2 Plugins ==="@,
                    "  (none found)"@,
                    "          URI:     "@,
                    true,
                    k,
                )
                &&& lv2 is None ==> a == seq![
                    "=== LV2 Plugins ==="@,
                    "  (LV2 support not enabled)"@,
                ]
                &&& lists_section(
                    b,
                    clap,
                    "=== CLAP Plugins ==="@,
                    "  (none found)"@,
                    "          ID:      "@,
                    true,
                    k,
                )
                &&& vst3 is Some ==> lists_section(
                    c,
                    vst3->0,
                    "=== VST3 Plugins ==="@,
                    "  (none found)"@,
                    "          ID:      "@,
                    true,
                    k,
                )
                &&& vst3 is None ==> c == seq![
                    "=== VST3 Plugins ==="@,
                    "  (VST3 support not enabled)"@,
                ]
            },
{
    let none = "  (none found)"@;
    let (uri, id) = ("          URI:     "@, "          ID:      "@);
    let (t1, t2, t3) = ("=== LV2 Plugins ==="@, "=== CLAP Plugins ==="@, "=== VST3 Plugins ==="@);
    let a = match lv2 {
        Some(plugins) => section_lines(plugins, t1, none, uri, true),
        None => seq![t1, "  (LV2 support not enabled)"@],
    };
    let b = section_lines(clap, t2, none, id, true);
    let c = match vst3 {
        Some(plugins) => section_lines(plugins, t3, none, id, true),
        None => seq![t3, "  (VST3 support not enabled)"@],
    };
    if let Some(plugins) = lv2 {
        section_is_listed(plugins, t1, none, uri, true, k);
    }
    section_is_listed(clap, t2, none, id, true, k);
    if let Some(plugins) = vst3 {
        section_is_listed(plugins, t3, none, id, true, k);
    }
    assert(all_lines(lv2, clap, vst3) =~= a + seq![""@] + b + seq![""@] + c);
}

/// A parameter's line starts with its number and its name. A choice lists its
/// names and ends with the usual one; a number gives its bounds, the lower one
/// first, and its usual value.
pub proof fn parameters_are_described(p: DescribedParam)
    ensures
        starts_with(param_text(p), "    ["@ + dec(p.index as nat) + "] "@ + p.name@ + " ("@),
        p.labels is Some && (p.choice as int) < (p.labels->0)@.len() ==> ends_with(
            param_text(p),
            ", default="@ + (p.labels->0)@[p.choice as int]@ + ")"@,
        ),
        p.labels is Some && (p.choice as int) >= (p.labels->0)@.len() ==> ends_with(
            param_text(p),
            ", default="@ + "?"@ + ")"@,
        ),
        p.labels is None ==> ends_with(
            param_text(p),
            "(min="@ + p.min@ + ", max="@ + p.max@ + ", default="@ + p.default@ + ")"@,
        ),
{
    let head = "    ["@ + dec(p.index as nat) + "] "@ + p.name@ + " ("@;
    if let Some(labels) = p.labels {
        let names = crate::enumerate::bar_joined(
            crate::config::text_list(labels@),
            labels@.len(),
        );
        let usual = if p.choice < labels@.len() {
            labels@[p.choice as int]@
        } else {
            "?"@
        };
        let tail = ", default="@ + usual + ")"@;
        assert(param_text(p) =~= head + (names + tail));
        assert(param_text(p) =~= (head + names) + tail);
        parts_stand(head, names + tail, Seq::empty());
        parts_stand(head + names, tail, Seq::empty());
    } else {
        reveal_strlit(" (");
        reveal_strlit("(min=");
        reveal_strlit("min=");
        reveal_strlit(" ");
        let front = "    ["@ + dec(p.index as nat) + "] "@ + p.name@ + " "@;
        let tail = "(min="@ + p.min@ + ", max="@ + p.max@ + ", default="@ + p.default@ + ")"@;
        let rest = "min="@ + p.min@ + ", max="@ + p.max@ + ", default="@ + p.default@ + ")"@;
        assert(" ("@ + "min="@ =~= " "@ + "(min="@);
        assert(param_text(p) =~= head + rest);
        assert(param_text(p) =~= front + tail);
        parts_stand(head, rest, Seq::empty());
        parts_stand(front, tail, Seq::empty());
    }
}

/// A plugin is described by its name, its role and its outputs, then by its
/// parameters, counted and in order, and then by its presets, counted and in
/// order, each with its name and its id.
pub proof fn plugins_are_described(p: DescribedPlugin, i: int)
    ensures
        ({
            let lines = described_lines(p);
            let (n, m) = (p.params@.len() as int, p.presets@.len() as int);
            &&& lines.len() == n + m + 5
            &&& lines[0] == p.name@
            &&& p.is_instrument ==> lines[1] == "  Type:          "@ + "instrument"@
            &&& !p.is_instrument ==> lines[1] == "  Type:          "@ + "effect"@
            &&& lines[2] == "  Audio outputs: "@ + dec(p.audio_outputs as nat)
            &&& lines[3] == "  Parameters:    "@ + dec(p.params@.len())
            &&& 0 <= i < n ==> lines[4 + i] == param_text(p.params@[i])
            &&& m == 0 ==> lines[4 + n] == "  Presets:       (none)"@
            &&& m > 0 ==> lines[4 + n] == "  Presets:       "@ + dec(p.presets@.len())
            &&& 0 <= i < m ==> lines[5 + n + i] == "    "@ + p.presets@[i].0@ + " ("@
                + p.presets@[i].1@ + ")"@
        }),
{
}

/// A sample format goes by the kind of its numbers, signed, unsigned or floating,
/// and their bits.
pub proof fn formats_go_by_kind_and_bits(fmt: SampleFormat)
    ensures
        ({
            let name = format_text(fmt);
            &&& fmt is I8 || fmt is I16 || fmt is I32 || fmt is I64 <==> name[0] == 'i'
            &&& fmt is U8 || fmt is U16 || fmt is U32 || fmt is U64 <==> name[0] == 'u'
            &&& fmt is F32 || fmt is F64 <==> name[0] == 'f'
            &&& fmt is Other ==> name == "?"@
            &&& fmt is I8 || fmt is U8 ==> name.skip(1) == seq!['8']
            &&& fmt is I16 || fmt is U16 ==> name.skip(1) == seq!['1', '6']
            &&& fmt is I32 || fmt is U32 || fmt is F32 ==> name.skip(1) == seq!['3', '2']
            &&& fmt is I64 || fmt is U64 || fmt is F64 ==> name.skip(1) == seq!['6', '4']
        }),
{
    reveal_strlit("i8");
    reveal_strlit("i16");
    reveal_strlit("i32");
    reveal_strlit("i64");
    reveal_strlit("u8");
    reveal_strlit("u16");
    reveal_strlit("u32");
    reveal_strlit("u64");
    reveal_strlit("f32");
    reveal_strlit("f64");
    reveal_strlit("?");
}

/// Audio outputs are listed in order under one title, or said not to be there.
pub proof fn outputs_are_listed_in_order(
    devices: Seq<AudioDevice>,
    usual: Option<Seq<char>>,
    i: int,
)
    ensures
        ({
            let lines = audio_lines(devices, usual);
            &&& lines[0] == "=== Audio Output Devices ==="@
            &&& devices.len() == 0 ==> lines.len() == 2 && lines[1] == "  (none found)"@
            &&& devices.len() > 0 ==> lines.len() == devices.len() + 1
            &&& 0 <= i < devices.len() ==> lines[i + 1] == device_text(devices[i], usual)
        }),
{
}

} // verus!
