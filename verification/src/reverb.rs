//! The built-in reverb: its parameters, its presets and its delay lines.

use vstd::prelude::*;

use crate::config::{param_list, ParamModel, ParameterInfo, Preset};
use crate::oscillator::PluginError;
use crate::scalar::{F32Bits, ONE};
use crate::text::same_text;

verus! {

/// The number of delay lines in the feedback network.
pub const LINES: usize = 16;

/// The number of allpass diffusers.
pub const DIFFUSERS: usize = 4;

/// The number of parameters.
pub const PARAM_COUNT: usize = 10;

/// The number of presets.
pub const PRESET_COUNT: usize = 5;

/// Silence.
pub open spec fn silence() -> F32Bits {
    F32Bits { bits: 0 }
}

fn silent(n: usize) -> (samples: Vec<F32Bits>)
    ensures
        samples@.len() == n,
        forall|i: int| 0 <= i < n ==> samples@[i] == silence(),
{
    let mut samples: Vec<F32Bits> = Vec::new();
    let mut i: usize = 0;
    while i < n
        invariant
            i <= n,
            samples@.len() == i,
            forall|k: int| 0 <= k < i ==> samples@[k] == silence(),
        decreases n - i,
    {
        samples.push(F32Bits { bits: 0 });
        i += 1;
    }
    samples
}

/// All samples are silence.
pub open spec fn all_silent(samples: Seq<F32Bits>) -> bool {
    forall|i: int| 0 <= i < samples.len() ==> samples[i] == silence()
}

// ---------------------------------------------------------------------------
// Delay lines
// ---------------------------------------------------------------------------

/// Where in a ring of `len` samples, to be written next at `next`, the sample
/// stands that was written `ago` writes before.
pub open spec fn ring_slot(next: int, len: int, ago: int) -> int {
    if ago <= next {
        next - ago
    } else {
        next + len - ago
    }
}

fn slot(next: usize, len: usize, ago: usize) -> (at: usize)
    requires
        next < len,
        ago <= len,
    ensures
        at == ring_slot(next as int, len as int, ago as int),
{
    if ago <= next {
        next - ago
    } else {
        next + (len - ago)
    }
}

fn step(next: usize, len: usize) -> (after: usize)
    requires
        next < len,
    ensures
        after == (if next + 1 == len {
            0
        } else {
            next + 1
        }),
{
    if next + 1 == len {
        0
    } else {
        next + 1
    }
}

/// A ring of samples.
#[derive(Debug)]
pub struct DelayLine {
    pub buf: Vec<F32Bits>,
    pub write_idx: usize,
}

impl DelayLine {
    /// There is room for two samples, and the next one goes into it.
    pub open spec fn wf(&self) -> bool {
        2 <= self.buf@.len() && self.write_idx < self.buf@.len()
    }

    /// The sample written `d` writes ago.
    pub open spec fn ago(&self, d: int) -> F32Bits {
        self.buf@[ring_slot(self.write_idx as int, self.buf@.len() as int, d)]
    }

    /// A silent line.
    pub fn new(max_samples: usize) -> (line: DelayLine)
        ensures
            line.wf(),
            line.write_idx == 0,
            line.buf@.len() == (if max_samples < 2 {
                2
            } else {
                max_samples as int
            }),
            all_silent(line.buf@),
    {
        let len: usize = if max_samples < 2 {
            2
        } else {
            max_samples
        };
        DelayLine { buf: silent(len), write_idx: 0 }
    }

    /// Write a sample. It becomes the latest one, the others are one write
    /// older, and the oldest is lost.
    pub fn write(&mut self, x: F32Bits)
        requires
            old(self).wf(),
        ensures
            final(self).wf(),
            final(self).buf@.len() == old(self).buf@.len(),
            final(self).ago(1) == x,
            forall|d: int|
                2 <= d <= old(self).buf@.len() ==> #[trigger] final(self).ago(d) == old(
                    self,
                ).ago(d - 1),
    {
        let at: usize = self.write_idx;
        self.buf.set(at, x);
        self.write_idx = step(at, self.buf.len());
    }

    /// The samples written `d` and `d + 1` writes ago. A delay of 0 stands for
    /// the oldest sample.
    pub fn taps(&self, d: usize) -> (pair: (F32Bits, F32Bits))
        requires
            self.wf(),
            d < self.buf@.len(),
        ensures
            pair.0 == (if d == 0 {
                self.ago(self.buf@.len() as int)
            } else {
                self.ago(d as int)
            }),
            pair.1 == self.ago(d + 1),
    {
        let len: usize = self.buf.len();
        let near: usize = if d == 0 {
            self.write_idx
        } else {
            slot(self.write_idx, len, d)
        };
        let far: usize = slot(self.write_idx, len, d + 1);
        (self.buf[near], self.buf[far])
    }

    /// Silence the line. The place of the next write stays.
    pub fn clear(&mut self)
        requires
            old(self).wf(),
        ensures
            final(self).wf(),
            final(self).write_idx == old(self).write_idx,
            final(self).buf@.len() == old(self).buf@.len(),
            all_silent(final(self).buf@),
    {
        self.buf = silent(self.buf.len());
    }
}

/// An allpass filter's ring of samples.
#[derive(Debug)]
pub struct Allpass {
    pub buf: Vec<F32Bits>,
    pub idx: usize,
}

impl Allpass {
    /// The place in use is in the ring.
    pub open spec fn wf(&self) -> bool {
        self.idx < self.buf@.len()
    }

    /// The sample stored `d` steps ago.
    pub open spec fn ago(&self, d: int) -> F32Bits {
        self.buf@[ring_slot(self.idx as int, self.buf@.len() as int, d)]
    }

    /// A silent filter.
    pub fn new(len: usize) -> (filter: Allpass)
        ensures
            filter.wf(),
            filter.idx == 0,
            filter.buf@.len() == (if len < 1 {
                1
            } else {
                len as int
            }),
            all_silent(filter.buf@),
    {
        let len: usize = if len < 1 {
            1
        } else {
            len
        };
        Allpass { buf: silent(len), idx: 0 }
    }

    /// The sample that comes out of the delay: the oldest one.
    pub fn delayed(&self) -> (v: F32Bits)
        requires
            self.wf(),
        ensures
            v == self.ago(self.buf@.len() as int),
    {
        self.buf[self.idx]
    }

    /// Store a sample in place of the oldest one.
    pub fn store(&mut self, v: F32Bits)
        requires
            old(self).wf(),
        ensures
            final(self).wf(),
            final(self).buf@.len() == old(self).buf@.len(),
            final(self).ago(1) == v,
            forall|d: int|
                2 <= d <= old(self).buf@.len() ==> #[trigger] final(self).ago(d) == old(
                    self,
                ).ago(d - 1),
    {
        let at: usize = self.idx;
        self.buf.set(at, v);
        self.idx = step(at, self.buf.len());
    }

    /// Silence the filter. The place in use stays.
    pub fn clear(&mut self)
        requires
            old(self).wf(),
        ensures
            final(self).wf(),
            final(self).idx == old(self).idx,
            final(self).buf@.len() == old(self).buf@.len(),
            all_silent(final(self).buf@),
    {
        self.buf = silent(self.buf.len());
    }
}

// ---------------------------------------------------------------------------
// Parameters and presets
// ---------------------------------------------------------------------------

/// What the parameters are: name, bounds and usual value.
pub open spec fn reverb_params() -> Seq<ParamModel> {
    seq![
        param_model("decay"@, 0, 0x3dcc_cccd, 0x3f7d_70a4, 0x3f61_47ae),
        param_model("size"@, 1, 0x3e99_999a, 0x3f80_0000, 0x3f59_999a),
        param_model("damping"@, 2, 0, 0x3f80_0000, 0x3eb3_3333),
        param_model("predelay"@, 3, 0, 0x3e80_0000, 0x3d23_d70a),
        param_model("diffusion"@, 4, 0, 0x3f59_999a, 0x3f33_3333),
        param_model("mod_rate"@, 5, 0x3d4c_cccd, 0x4000_0000, 0x3e99_999a),
        param_model("mod_depth"@, 6, 0, 0x3f80_0000, 0x3f00_0000),
        param_model("width"@, 7, 0, 0x3f80_0000, 0x3f80_0000),
        param_model("lowcut"@, 8, 0x41a0_0000, 0x43fa_0000, 0x42a0_0000),
        param_model("level"@, 9, 0, 0x4000_0000, 0x3f80_0000),
    ]
}

/// A parameter that is a plain number, its bounds and usual value by their
/// bits.
pub open spec fn param_model(
    name: Seq<char>,
    index: u32,
    min: u32,
    max: u32,
    default: u32,
) -> ParamModel {
    ParamModel {
        name,
        index,
        min: F32Bits { bits: min },
        max: F32Bits { bits: max },
        default: F32Bits { bits: default },
        labels: None,
    }
}

fn number(name: &str, index: u32, min: u32, max: u32, default: u32) -> (p: ParameterInfo)
    ensures
        p@ == param_model(name@, index, min, max, default),
{
    ParameterInfo {
        name: name.to_owned(),
        index,
        min: F32Bits { bits: min },
        max: F32Bits { bits: max },
        default: F32Bits { bits: default },
        labels: None,
    }
}

/// What the parameters are.
pub fn parameter_table() -> (params: Vec<ParameterInfo>)
    ensures
        param_list(params@) == reverb_params(),
{
    let mut params: Vec<ParameterInfo> = Vec::new();
    params.push(number("decay", 0, 0x3dcc_cccd, 0x3f7d_70a4, 0x3f61_47ae));
    params.push(number("size", 1, 0x3e99_999a, 0x3f80_0000, 0x3f59_999a));
    params.push(number("damping", 2, 0, 0x3f80_0000, 0x3eb3_3333));
    params.push(number("predelay", 3, 0, 0x3e80_0000, 0x3d23_d70a));
    params.push(number("diffusion", 4, 0, 0x3f59_999a, 0x3f33_3333));
    params.push(number("mod_rate", 5, 0x3d4c_cccd, 0x4000_0000, 0x3e99_999a));
    params.push(number("mod_depth", 6, 0, 0x3f80_0000, 0x3f00_0000));
    params.push(number("width", 7, 0, 0x3f80_0000, 0x3f80_0000));
    params.push(number("lowcut", 8, 0x41a0_0000, 0x43fa_0000, 0x42a0_0000));
    params.push(number("level", 9, 0, 0x4000_0000, 0x3f80_0000));
    assert(param_list(params@) =~= reverb_params());
    params
}

/// A preset: its id, its name and the bits of its parameters.
pub struct PresetModel {
    pub id: Seq<char>,
    pub name: Seq<char>,
    pub values: Seq<u32>,
}

/// The presets.
pub open spec fn preset_models() -> Seq<PresetModel> {
    seq![
        PresetModel {
            id: "arcadia"@,
            name: "Arcadia Dream Hall"@,
            values: seq![0x3f70_a3d7u32, 0x3f73_3333, 0x3e99_999a, 0x3d75_c28f, 0x3f47_ae14, 0x3e80_0000, 0x3f33_3333, 0x3f80_0000, 0x42a0_0000, 0x3f59_999a],
        },
        PresetModel {
            id: "cathedral"@,
            name: "Cathedral"@,
            values: seq![0x3f75_c28fu32, 0x3f80_0000, 0x3f0c_cccd, 0x3dcc_cccd, 0x3f38_51ec, 0x3e19_999a, 0x3f0c_cccd, 0x3f80_0000, 0x4270_0000, 0x3f4c_cccd],
        },
        PresetModel {
            id: "plate"@,
            name: "Vintage Plate"@,
            values: seq![0x3f4c_cccdu32, 0x3f0c_cccd, 0x3e80_0000, 0x3ca3_d70a, 0x3f47_ae14, 0x3e38_51ec, 0x3e99_999a, 0x3f59_999a, 0x42f0_0000, 0x3f80_0000],
        },
        PresetModel {
            id: "room"@,
            name: "Small Room"@,
            values: seq![0x3f0c_cccdu32, 0x3ecc_cccd, 0x3ecc_cccd, 0x3c23_d70a, 0x3f26_6666, 0x3ecc_cccd, 0x3e4c_cccd, 0x3f66_6666, 0x42c8_0000, 0x3f80_0000],
        },
        PresetModel {
            id: "ambient"@,
            name: "Ambient Wash"@,
            values: seq![0x3f75_c28fu32, 0x3f73_3333, 0x3e4c_cccd, 0x3df5_c28f, 0x3f47_ae14, 0x3ee6_6666, 0x3f59_999a, 0x3f80_0000, 0x42c8_0000, 0x3f4c_cccd],
        },
    ]
}

fn preset(i: usize) -> (p: (&'static str, &'static str, [u32; 10]))
    requires
        i < PRESET_COUNT,
    ensures
        p.0@ == preset_models()[i as int].id,
        p.1@ == preset_models()[i as int].name,
        p.2@ == preset_models()[i as int].values,
{
    match i {
        0 => {
            let values: [u32; 10] = [0x3f70_a3d7, 0x3f73_3333, 0x3e99_999a, 0x3d75_c28f, 0x3f47_ae14, 0x3e80_0000, 0x3f33_3333, 0x3f80_0000, 0x42a0_0000, 0x3f59_999a];
            assert(values@ =~= preset_models()[0].values);
            ("arcadia", "Arcadia Dream Hall", values)
        },
        1 => {
            let values: [u32; 10] = [0x3f75_c28f, 0x3f80_0000, 0x3f0c_cccd, 0x3dcc_cccd, 0x3f38_51ec, 0x3e19_999a, 0x3f0c_cccd, 0x3f80_0000, 0x4270_0000, 0x3f4c_cccd];
            assert(values@ =~= preset_models()[1].values);
            ("cathedral", "Cathedral", values)
        },
        2 => {
            let values: [u32; 10] = [0x3f4c_cccd, 0x3f0c_cccd, 0x3e80_0000, 0x3ca3_d70a, 0x3f47_ae14, 0x3e38_51ec, 0x3e99_999a, 0x3f59_999a, 0x42f0_0000, 0x3f80_0000];
            assert(values@ =~= preset_models()[2].values);
            ("plate", "Vintage Plate", values)
        },
        3 => {
            let values: [u32; 10] = [0x3f0c_cccd, 0x3ecc_cccd, 0x3ecc_cccd, 0x3c23_d70a, 0x3f26_6666, 0x3ecc_cccd, 0x3e4c_cccd, 0x3f66_6666, 0x42c8_0000, 0x3f80_0000];
            assert(values@ =~= preset_models()[3].values);
            ("room", "Small Room", values)
        },
        _ => {
            let values: [u32; 10] = [0x3f75_c28f, 0x3f73_3333, 0x3e4c_cccd, 0x3df5_c28f, 0x3f47_ae14, 0x3ee6_6666, 0x3f59_999a, 0x3f80_0000, 0x42c8_0000, 0x3f4c_cccd];
            assert(values@ =~= preset_models()[4].values);
            ("ambient", "Ambient Wash", values)
        },
    }
}

/// The first of the presets from number `i` on that has this id.
pub open spec fn preset_with_id(id: Seq<char>, i: nat) -> Option<nat>
    decreases PRESET_COUNT - i,
{
    if i >= PRESET_COUNT {
        None
    } else if preset_models()[i as int].id == id {
        Some(i)
    } else {
        preset_with_id(id, i + 1)
    }
}

// ---------------------------------------------------------------------------
// The reverb
// ---------------------------------------------------------------------------

/// A feedback delay network behind a predelay and a chain of diffusers.
#[derive(Debug)]
pub struct Reverb {
    pub sample_rate: F32Bits,
    pub delay_lines: Vec<DelayLine>,
    pub damp_states: Vec<F32Bits>,
    pub lfo_phases: Vec<F32Bits>,
    pub diffusers: Vec<Allpass>,
    pub predelay_buf: Vec<F32Bits>,
    pub predelay_idx: usize,
    pub hpf_state_l: F32Bits,
    pub hpf_state_r: F32Bits,
    pub decay: F32Bits,
    pub size: F32Bits,
    pub damping: F32Bits,
    pub predelay_sec: F32Bits,
    pub diffusion: F32Bits,
    pub mod_rate: F32Bits,
    pub mod_depth: F32Bits,
    pub width: F32Bits,
    pub lowcut_hz: F32Bits,
    pub level: F32Bits,
}

/// Lines of which each is well formed.
pub open spec fn lines_wf(lines: Seq<DelayLine>) -> bool {
    forall|i: int| 0 <= i < lines.len() ==> (#[trigger] lines[i]).wf()
}

/// Filters of which each is well formed.
pub open spec fn filters_wf(filters: Seq<Allpass>) -> bool {
    forall|i: int| 0 <= i < filters.len() ==> (#[trigger] filters[i]).wf()
}

/// The bits of 0.25, below every size.
pub const QUARTER: u32 = 0x3e80_0000;

/// The bits of 0.5.
pub const HALF: u32 = 0x3f00_0000;

/// How many steps there are in 0.4: a jump in size that is larger calls for a
/// fresh start.
pub const SIZE_JUMP: u32 = 13_421_773;

/// A size is a number from 0.25 to 1.0, or no number at all.
pub open spec fn is_size(size: F32Bits) -> bool {
    size.is_number() ==> QUARTER <= size.bits <= ONE
}

/// A size counted in steps of two to the power of -25. All numbers from 0.25 to
/// 1.0 are whole steps, and so the difference of two of them is exact as far as
/// it can be told from `SIZE_JUMP`.
pub open spec fn size_steps(size: F32Bits) -> int {
    if size.bits < HALF {
        size.bits - QUARTER + 0x80_0000
    } else if size.bits < ONE {
        2 * (size.bits - HALF + 0x80_0000)
    } else {
        0x200_0000
    }
}

/// The size jumps by more than 0.4.
pub open spec fn size_jumps(from: F32Bits, to: F32Bits) -> bool {
    &&& from.is_number()
    &&& to.is_number()
    &&& (size_steps(from) - size_steps(to) > SIZE_JUMP || size_steps(to) - size_steps(from)
        > SIZE_JUMP)
}

fn count_steps(size: F32Bits) -> (n: u32)
    requires
        QUARTER <= size.bits <= ONE,
    ensures
        n == size_steps(size),
        n <= 0x200_0000,
{
    if size.bits < HALF {
        size.bits - QUARTER + 0x80_0000
    } else if size.bits < ONE {
        2 * (size.bits - HALF + 0x80_0000)
    } else {
        0x200_0000
    }
}

fn jumps(from: F32Bits, to: F32Bits) -> (r: bool)
    requires
        is_size(from),
        is_size(to),
    ensures
        r == size_jumps(from, to),
{
    if from.bits > ONE || to.bits > ONE {
        // One of them is no number.
        return false;
    }
    let a: u32 = count_steps(from);
    let b: u32 = count_steps(to);
    if a > b {
        a - b > SIZE_JUMP
    } else {
        b - a > SIZE_JUMP
    }
}

impl Reverb {
    /// The network has all its parts, every ring is in order, and the size is
    /// one.
    pub open spec fn wf(&self) -> bool {
        &&& self.delay_lines@.len() == LINES
        &&& lines_wf(self.delay_lines@)
        &&& self.damp_states@.len() == LINES
        &&& self.lfo_phases@.len() == LINES
        &&& self.diffusers@.len() == DIFFUSERS
        &&& filters_wf(self.diffusers@)
        &&& self.predelay_idx < self.predelay_buf@.len()
        &&& is_size(self.size)
    }

    /// Nothing sounds in the network any more.
    pub open spec fn still(&self) -> bool {
        &&& forall|i: int|
            0 <= i < self.delay_lines@.len() ==> all_silent(
                (#[trigger] self.delay_lines@[i]).buf@,
            )
        &&& forall|i: int|
            0 <= i < self.diffusers@.len() ==> all_silent((#[trigger] self.diffusers@[i]).buf@)
        &&& all_silent(self.damp_states@)
        &&& all_silent(self.predelay_buf@)
        &&& self.predelay_idx == 0
        &&& self.hpf_state_l == silence()
        &&& self.hpf_state_r == silence()
    }

    /// The value of a parameter.
    pub open spec fn param(&self, index: u32) -> Option<F32Bits> {
        if index == 0 {
            Some(self.decay)
        } else if index == 1 {
            Some(self.size)
        } else if index == 2 {
            Some(self.damping)
        } else if index == 3 {
            Some(self.predelay_sec)
        } else if index == 4 {
            Some(self.diffusion)
        } else if index == 5 {
            Some(self.mod_rate)
        } else if index == 6 {
            Some(self.mod_depth)
        } else if index == 7 {
            Some(self.width)
        } else if index == 8 {
            Some(self.lowcut_hz)
        } else if index == 9 {
            Some(self.level)
        } else {
            None
        }
    }

    /// A silent reverb with its usual settings, for delay lines and a predelay
    /// of these lengths and modulators at these phases.
    pub fn new(
        sample_rate: F32Bits,
        line_samples: &Vec<usize>,
        predelay_samples: usize,
        lfo_phases: Vec<F32Bits>,
    ) -> (reverb: Reverb)
        requires
            line_samples@.len() == LINES,
            lfo_phases@.len() == LINES,
            predelay_samples > 0,
        ensures
            reverb.wf(),
            reverb.still(),
            reverb.sample_rate == sample_rate,
            reverb.lfo_phases@ == lfo_phases@,
            reverb.predelay_buf@.len() == predelay_samples,
            forall|i: int|
                0 <= i < LINES ==> {
                    let line = #[trigger] reverb.delay_lines@[i];
                    &&& line.write_idx == 0
                    &&& line.buf@.len() == (if line_samples@[i] < 2 {
                        2
                    } else {
                        line_samples@[i] as int
                    })
                },
            reverb.diffusers@[0].buf@.len() == 142,
            reverb.diffusers@[1].buf@.len() == 379,
            reverb.diffusers@[2].buf@.len() == 107,
            reverb.diffusers@[3].buf@.len() == 277,
            forall|i: int|
                0 <= i < DIFFUSERS ==> (#[trigger] reverb.diffusers@[i]).idx == 0,
            forall|i: u32|
                i < PARAM_COUNT ==> #[trigger] reverb.param(i) == Some(
                    reverb_params()[i as int].default,
                ),
    {
        let mut delay_lines: Vec<DelayLine> = Vec::new();
        let mut i: usize = 0;
        while i < LINES
            invariant
                i <= LINES,
                line_samples@.len() == LINES,
                delay_lines@.len() == i,
                forall|k: int|
                    0 <= k < i ==> {
                        let line = #[trigger] delay_lines@[k];
                        &&& line.wf()
                        &&& all_silent(line.buf@)
                        &&& line.write_idx == 0
                        &&& line.buf@.len() == (if line_samples@[k] < 2 {
                            2
                        } else {
                            line_samples@[k] as int
                        })
                    },
            decreases LINES - i,
        {
            delay_lines.push(DelayLine::new(line_samples[i]));
            i += 1;
        }
        let mut diffusers: Vec<Allpass> = Vec::new();
        diffusers.push(Allpass::new(142));
        diffusers.push(Allpass::new(379));
        diffusers.push(Allpass::new(107));
        diffusers.push(Allpass::new(277));
        Reverb {
            sample_rate,
            delay_lines,
            damp_states: silent(LINES),
            lfo_phases,
            diffusers,
            predelay_buf: silent(predelay_samples),
            predelay_idx: 0,
            hpf_state_l: F32Bits { bits: 0 },
            hpf_state_r: F32Bits { bits: 0 },
            decay: F32Bits { bits: 0x3f61_47ae },
            size: F32Bits { bits: 0x3f59_999a },
            damping: F32Bits { bits: 0x3eb3_3333 },
            predelay_sec: F32Bits { bits: 0x3d23_d70a },
            diffusion: F32Bits { bits: 0x3f33_3333 },
            mod_rate: F32Bits { bits: 0x3e99_999a },
            mod_depth: F32Bits { bits: 0x3f00_0000 },
            width: F32Bits { bits: 0x3f80_0000 },
            lowcut_hz: F32Bits { bits: 0x42a0_0000 },
            level: F32Bits { bits: 0x3f80_0000 },
        }
    }

    /// The plugin's name.
    pub fn name(&self) -> (name: &'static str)
        ensures
            name@ == "Reverb"@,
    {
        "Reverb"
    }

    /// It is fed with sound.
    pub fn is_instrument(&self) -> (r: bool)
        ensures
            !r,
    {
        false
    }

    /// The sample rate it was made for.
    pub fn sample_rate(&self) -> (rate: F32Bits)
        ensures
            rate == self.sample_rate,
    {
        self.sample_rate
    }

    /// The number of its input channels.
    pub fn audio_input_count(&self) -> (n: usize)
        ensures
            n == 2,
    {
        2
    }

    /// The number of its output channels.
    pub fn audio_output_count(&self) -> (n: usize)
        ensures
            n == 2,
    {
        2
    }

    /// What its parameters are.
    pub fn parameters(&self) -> (params: Vec<ParameterInfo>)
        ensures
            param_list(params@) == reverb_params(),
    {
        parameter_table()
    }

    /// The value of a parameter, if there is one with this index.
    pub fn get_parameter(&self, index: u32) -> (v: Option<F32Bits>)
        ensures
            v == self.param(index),
    {
        match index {
            0 => Some(self.decay),
            1 => Some(self.size),
            2 => Some(self.damping),
            3 => Some(self.predelay_sec),
            4 => Some(self.diffusion),
            5 => Some(self.mod_rate),
            6 => Some(self.mod_depth),
            7 => Some(self.width),
            8 => Some(self.lowcut_hz),
            9 => Some(self.level),
            _ => None,
        }
    }

    /// The reverb with the bits of a parameter in place.
    pub open spec fn with_param(self, index: u32, v: F32Bits) -> Reverb {
        if index == 0 {
            Reverb { decay: v, ..self }
        } else if index == 1 {
            Reverb { size: v, ..self }
        } else if index == 2 {
            Reverb { damping: v, ..self }
        } else if index == 3 {
            Reverb { predelay_sec: v, ..self }
        } else if index == 4 {
            Reverb { diffusion: v, ..self }
        } else if index == 5 {
            Reverb { mod_rate: v, ..self }
        } else if index == 6 {
            Reverb { mod_depth: v, ..self }
        } else if index == 7 {
            Reverb { width: v, ..self }
        } else if index == 8 {
            Reverb { lowcut_hz: v, ..self }
        } else if index == 9 {
            Reverb { level: v, ..self }
        } else {
            self
        }
    }

    /// Set a parameter, within its bounds. A large jump in size clears the damping,
    /// lest stale energy click.
    pub fn set_parameter(&mut self, index: u32, value: F32Bits) -> (r: Result<(), PluginError>)
        requires
            old(self).wf(),
        ensures
            final(self).wf(),
            match r {
                Ok(_) => index < PARAM_COUNT && {
                    let p = reverb_params()[index as int];
                    let v = value.limited(p.min, p.max);
                    let after = old(self).with_param(index, v);
                    if index == 1 && size_jumps(old(self).size, v) {
                        &&& *final(self) == (Reverb {
                            damp_states: final(self).damp_states,
                            ..after
                        })
                        &&& all_silent(final(self).damp_states@)
                    } else {
                        *final(self) == after
                    }
                },
                Err(e) => index >= PARAM_COUNT && *final(self) == *old(self) && e == (
                PluginError::NoParameter { index }),
            },
    {
        let params = parameter_table();
        assert(params@.len() == reverb_params().len());
        if index as usize >= params.len() {
            return Err(PluginError::NoParameter { index });
        }
        assert(params@[index as int]@ == reverb_params()[index as int]);
        let v = value.limit(params[index as usize].min, params[index as usize].max);
        match index {
            0 => {
                self.decay = v;
            },
            1 => {
                let jumped: bool = jumps(self.size, v);
                self.size = v;
                if jumped {
                    self.damp_states = silent(LINES);
                }
            },
            2 => {
                self.damping = v;
            },
            3 => {
                self.predelay_sec = v;
            },
            4 => {
                self.diffusion = v;
            },
            5 => {
                self.mod_rate = v;
            },
            6 => {
                self.mod_depth = v;
            },
            7 => {
                self.width = v;
            },
            8 => {
                self.lowcut_hz = v;
            },
            _ => {
                self.level = v;
            },
        }
        Ok(())
    }

    /// Its presets.
    pub fn presets(&self) -> (presets: Vec<Preset>)
        ensures
            presets@.len() == PRESET_COUNT,
            forall|i: int|
                0 <= i < PRESET_COUNT ==> {
                    let p = #[trigger] presets@[i];
                    &&& p.id@ == preset_models()[i].id
                    &&& p.name@ == preset_models()[i].name
                },
    {
        let mut presets: Vec<Preset> = Vec::new();
        let mut i: usize = 0;
        while i < PRESET_COUNT
            invariant
                i <= PRESET_COUNT,
                presets@.len() == i,
                forall|k: int|
                    0 <= k < i ==> {
                        let p = #[trigger] presets@[k];
                        &&& p.id@ == preset_models()[k].id
                        &&& p.name@ == preset_models()[k].name
                    },
            decreases PRESET_COUNT - i,
        {
            let (id, name, _) = preset(i);
            presets.push(Preset { name: name.to_owned(), id: id.to_owned() });
            i += 1;
        }
        presets
    }

    /// Load a preset: its parameters take effect, and what sounds is silenced.
    pub fn load_preset(&mut self, id: &str) -> (r: Result<(), PluginError>)
        requires
            old(self).wf(),
        ensures
            final(self).wf(),
            match (r, preset_with_id(id@, 0)) {
                (Ok(_), Some(i)) => {
                    &&& forall|k: u32|
                        k < PARAM_COUNT ==> #[trigger] final(self).param(k) == Some(
                            F32Bits { bits: preset_models()[i as int].values[k as int] },
                        )
                    &&& final(self).still()
                    &&& final(self).sample_rate == old(self).sample_rate
                    &&& final(self).lfo_phases == old(self).lfo_phases
                    &&& final(self).predelay_buf@.len() == old(self).predelay_buf@.len()
                    &&& forall|k: int|
                        0 <= k < LINES ==> {
                            let line = #[trigger] final(self).delay_lines@[k];
                            &&& line.buf@.len() == old(self).delay_lines@[k].buf@.len()
                            &&& line.write_idx == old(self).delay_lines@[k].write_idx
                        }
                    &&& forall|k: int|
                        0 <= k < DIFFUSERS ==> {
                            let filter = #[trigger] final(self).diffusers@[k];
                            &&& filter.buf@.len() == old(self).diffusers@[k].buf@.len()
                            &&& filter.idx == old(self).diffusers@[k].idx
                        }
                },
                (Err(PluginError::NoPreset { id: named }), None) => named@ == id@ && *final(self)
                    == *old(self),
                _ => false,
            },
    {
        let mut i: usize = 0;
        while i < PRESET_COUNT
            invariant
                i <= PRESET_COUNT,
                preset_with_id(id@, 0) == preset_with_id(id@, i as nat),
            ensures
                i <= PRESET_COUNT,
                preset_with_id(id@, 0) == (if i < PRESET_COUNT {
                    Some(i as nat)
                } else {
                    None
                }),
            decreases PRESET_COUNT - i,
        {
            let (pid, _, _) = preset(i);
            if same_text(pid, id) {
                break;
            }
            i += 1;
        }
        if i >= PRESET_COUNT {
            return Err(PluginError::NoPreset { id: id.to_owned() });
        }
        let (_, _, values) = preset(i);

        self.decay = F32Bits { bits: values[0] };
        self.size = F32Bits { bits: values[1] };
        self.damping = F32Bits { bits: values[2] };
        self.predelay_sec = F32Bits { bits: values[3] };
        self.diffusion = F32Bits { bits: values[4] };
        self.mod_rate = F32Bits { bits: values[5] };
        self.mod_depth = F32Bits { bits: values[6] };
        self.width = F32Bits { bits: values[7] };
        self.lowcut_hz = F32Bits { bits: values[8] };
        self.level = F32Bits { bits: values[9] };
        self.silence_all();
        Ok(())
    }

    fn silence_all(&mut self)
        requires
            old(self).wf(),
        ensures
            final(self).wf(),
            final(self).still(),
            final(self).predelay_buf@.len() == old(self).predelay_buf@.len(),
            final(self).delay_lines@.len() == old(self).delay_lines@.len(),
            final(self).diffusers@.len() == old(self).diffusers@.len(),
            forall|k: int|
                0 <= k < LINES ==> {
                    let line = #[trigger] final(self).delay_lines@[k];
                    &&& line.buf@.len() == old(self).delay_lines@[k].buf@.len()
                    &&& line.write_idx == old(self).delay_lines@[k].write_idx
                },
            forall|k: int|
                0 <= k < DIFFUSERS ==> {
                    let filter = #[trigger] final(self).diffusers@[k];
                    &&& filter.buf@.len() == old(self).diffusers@[k].buf@.len()
                    &&& filter.idx == old(self).diffusers@[k].idx
                },
            *final(self) == (Reverb {
                delay_lines: final(self).delay_lines,
                diffusers: final(self).diffusers,
                damp_states: final(self).damp_states,
                predelay_buf: final(self).predelay_buf,
                predelay_idx: 0,
                hpf_state_l: silence(),
                hpf_state_r: silence(),
                ..*old(self)
            }),
    {
        let ghost before = *self;
        let mut i: usize = 0;
        while i < LINES
            invariant
                i <= LINES,
                before.wf(),
                *self == (Reverb { delay_lines: self.delay_lines, ..before }),
                self.delay_lines@.len() == LINES,
                lines_wf(self.delay_lines@),
                forall|k: int|
                    0 <= k < LINES ==> {
                        let line = #[trigger] self.delay_lines@[k];
                        &&& line.buf@.len() == before.delay_lines@[k].buf@.len()
                        &&& line.write_idx == before.delay_lines@[k].write_idx
                        &&& k < i ==> all_silent(line.buf@)
                    },
            decreases LINES - i,
        {
            self.delay_lines[i].clear();
            i += 1;
        }
        let ghost mid = *self;
        let mut j: usize = 0;
        while j < DIFFUSERS
            invariant
                j <= DIFFUSERS,
                mid.wf(),
                *self == (Reverb { diffusers: self.diffusers, ..mid }),
                self.diffusers@.len() == DIFFUSERS,
                filters_wf(self.diffusers@),
                forall|k: int|
                    0 <= k < DIFFUSERS ==> {
                        let filter = #[trigger] self.diffusers@[k];
                        &&& filter.buf@.len() == mid.diffusers@[k].buf@.len()
                        &&& filter.idx == mid.diffusers@[k].idx
                        &&& k < j ==> all_silent(filter.buf@)
                    },
            decreases DIFFUSERS - j,
        {
            self.diffusers[j].clear();
            j += 1;
        }
        self.damp_states = silent(LINES);
        let len: usize = self.predelay_buf.len();
        self.predelay_buf = silent(len);
        self.predelay_idx = 0;
        self.hpf_state_l = F32Bits { bits: 0 };
        self.hpf_state_r = F32Bits { bits: 0 };
    }

    /// The sample that went into the predelay `d` steps ago.
    pub open spec fn predelay_ago(&self, d: int) -> F32Bits {
        self.predelay_buf@[ring_slot(
            self.predelay_idx as int,
            self.predelay_buf@.len() as int,
            d,
        )]
    }

    /// Send a sample through the predelay: the one of `samples` steps before
    /// comes out, or the oldest one if the predelay is shorter.
    pub fn predelay(&mut self, x: F32Bits, samples: usize) -> (out: F32Bits)
        requires
            old(self).wf(),
        ensures
            final(self).wf(),
            *final(self) == (Reverb {
                predelay_buf: final(self).predelay_buf,
                predelay_idx: final(self).predelay_idx,
                ..*old(self)
            }),
            final(self).predelay_buf@.len() == old(self).predelay_buf@.len(),
            final(self).predelay_ago(1) == x,
            forall|d: int|
                2 <= d <= old(self).predelay_buf@.len() ==> #[trigger] final(self).predelay_ago(d)
                    == old(self).predelay_ago(d - 1),
            out == final(self).predelay_ago(
                1 + (if samples < old(self).predelay_buf@.len() {
                    samples as int
                } else {
                    old(self).predelay_buf@.len() - 1
                }),
            ),
    {
        let len: usize = self.predelay_buf.len();
        let at: usize = self.predelay_idx;
        let back: usize = if samples < len {
            samples
        } else {
            len - 1
        };
        self.predelay_buf.set(at, x);
        self.predelay_idx = step(at, len);
        self.predelay_buf[slot(at, len, back)]
    }
}

// ---------------------------------------------------------------------------
// Laws
// ---------------------------------------------------------------------------

/// A parameter that is set reads back, and the other parameters keep their
/// values.
pub proof fn parameters_read_back(reverb: Reverb, index: u32, v: F32Bits, other: u32)
    requires
        index < PARAM_COUNT,
    ensures
        reverb.with_param(index, v).param(index) == Some(v),
        other != index ==> reverb.with_param(index, v).param(other) == reverb.param(other),
{
}

/// Every preset is found by its id.
pub proof fn presets_are_found(i: nat)
    requires
        i < PRESET_COUNT,
    ensures
        preset_with_id(preset_models()[i as int].id, 0) == Some(i),
{
    reveal_strlit("arcadia");
    reveal_strlit("cathedral");
    reveal_strlit("plate");
    reveal_strlit("room");
    reveal_strlit("ambient");
    reveal_with_fuel(preset_with_id, 6);
    assert("arcadia"@[1] == 'r' && "ambient"@[1] == 'm');
    assert("arcadia"@.len() == 7 && "cathedral"@.len() == 9 && "plate"@.len() == 5 && "room"@.len()
        == 4 && "ambient"@.len() == 7);
}

/// Every preset keeps every parameter within its bounds.
pub proof fn presets_are_in_bounds(i: nat, k: nat)
    requires
        i < PRESET_COUNT,
        k < PARAM_COUNT,
    ensures
        ({
            let v = F32Bits { bits: preset_models()[i as int].values[k as int] };
            let p = reverb_params()[k as int];
            v.limited(p.min, p.max) == v
        }),
{
}

} // verus!
