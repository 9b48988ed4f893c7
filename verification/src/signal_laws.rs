//! What the rendering plans amount to: which signal they put out.

use vstd::prelude::*;

use crate::bus::{bus_plan, BusStep, GroupModel};
use crate::graph::GraphModel;
use crate::lane::{lane_plan, Buffer, LaneModel, RenderStep};
use crate::render::{process_steps, GraphStep};
use crate::scalar::F32Bits;

verus! {

/// A signal, by what it is made of.
pub enum Signal {
    /// Nothing yet, or silence.
    Silent,
    /// What the instrument puts out.
    Instrument,
    /// The sum of a bus's members.
    Sum,
    /// A signal at the volume of its lane or bus, in its first channels.
    Scaled { channels: usize, input: Box<Signal> },
    /// What an effect makes of a signal, the dry signal mixed in.
    Effect { index: int, input: Box<Signal> },
    /// A signal with the far channel attenuated.
    Panned { input: Box<Signal> },
    /// A signal with the metronome on top.
    Clicked { input: Box<Signal> },
}

/// A signal through the first `n` effects of a chain.
pub open spec fn through_chain(s: Signal, n: int) -> Signal
    decreases n,
{
    if n <= 0 {
        s
    } else {
        Signal::Effect { index: n - 1, input: Box::new(through_chain(s, n - 1)) }
    }
}

// ---------------------------------------------------------------------------
// A lane
// ---------------------------------------------------------------------------

/// The buffers of a lane.
pub struct LaneBuffers {
    pub own: Signal,
    pub a: Signal,
    pub b: Signal,
    pub out: Signal,
}

/// The buffers after one step.
pub open spec fn lane_stepped(s: LaneBuffers, step: RenderStep) -> LaneBuffers {
    match step {
        RenderStep::Silence => LaneBuffers { out: Signal::Silent, ..s },
        RenderStep::InstrumentToOutput => LaneBuffers { out: Signal::Instrument, ..s },
        RenderStep::InstrumentToBuffers => LaneBuffers { own: Signal::Instrument, ..s },
        RenderStep::ScaleVolume { channels } => LaneBuffers {
            own: Signal::Scaled { channels, input: Box::new(s.own) },
            ..s
        },
        RenderStep::CopyToOutput => LaneBuffers { out: s.own, ..s },
        RenderStep::CopyToChain => LaneBuffers { a: s.own, b: Signal::Silent, ..s },
        RenderStep::Effect { index, from, to } => {
            let input = if from == Buffer::A {
                s.a
            } else {
                s.b
            };
            let made = Signal::Effect { index: index as int, input: Box::new(input) };
            if to == Buffer::A {
                LaneBuffers { a: made, ..s }
            } else {
                LaneBuffers { b: made, ..s }
            }
        },
        RenderStep::ChainToOutput { from } => LaneBuffers {
            out: if from == Buffer::A {
                s.a
            } else {
                s.b
            },
            ..s
        },
        RenderStep::Metronome => LaneBuffers {
            out: Signal::Clicked { input: Box::new(s.out) },
            ..s
        },
    }
}

/// The buffers after some steps.
pub open spec fn lane_run(s: LaneBuffers, steps: Seq<RenderStep>) -> LaneBuffers
    decreases steps.len(),
{
    if steps.len() == 0 {
        s
    } else {
        lane_stepped(lane_run(s, steps.drop_last()), steps.last())
    }
}

proof fn lane_runs_on(s: LaneBuffers, steps: Seq<RenderStep>, step: RenderStep)
    ensures
        lane_run(s, steps.push(step)) == lane_stepped(lane_run(s, steps), step),
{
    assert(steps.push(step).drop_last() =~= steps);
}

/// The bits of a single-precision number, its sign left out.
pub open spec fn unsigned_bits(bits: u32) -> int {
    bits as int % 0x8000_0000
}

proof fn gains_by_bits(v: F32Bits)
    ensures
        v.unity() == (v.bits == 0x3f80_0000 || v.bits == 0x3f7f_ffff),
        v.rescales() == !(v.bits == 0x3f80_0000 || v.bits == 0x3f7f_ffff || unsigned_bits(v.bits)
            > 0x7f80_0000),
        v.negligible() == (unsigned_bits(v.bits) < 0x3400_0000),
{
}

/// The signal that a lane sends into its chain: its instrument, at the lane's
/// volume. A volume is 1 if it is 1.0 or the number just below it, and what is not
/// a number scales nothing.
pub open spec fn lane_source(l: LaneModel, num_channels: usize) -> Signal {
    let bits = l.volume.bits;
    if bits == 0x3f80_0000 || bits == 0x3f7f_ffff || unsigned_bits(bits) > 0x7f80_0000 {
        Signal::Instrument
    } else {
        Signal::Scaled {
            channels: if l.inst_outputs < num_channels {
                l.inst_outputs
            } else {
                num_channels
            },
            input: Box::new(Signal::Instrument),
        }
    }
}

proof fn chain_runs(s: LaneBuffers, head: Seq<RenderStep>, steps: Seq<RenderStep>, n: nat)
    requires
        n + head.len() <= steps.len(),
        steps.take(head.len() as int) == head,
        forall|i: int|
            0 <= i < n ==> #[trigger] steps[head.len() + i] == crate::lane::effect_step(i),
        n <= usize::MAX,
    ensures
        ({
            let before = lane_run(s, head);
            let after = lane_run(s, steps.take((head.len() + n) as int));
            &&& after.own == before.own
            &&& after.out == before.out
            &&& n % 2 == 0 ==> after.a == through_chain(before.a, n as int)
            &&& n % 2 == 1 ==> after.b == through_chain(before.a, n as int)
        }),
    decreases n,
{
    if n == 0 {
    } else {
        chain_runs(s, head, steps, (n - 1) as nat);
        let k = head.len() + n - 1;
        assert(steps.take(k + 1) =~= steps.take(k).push(steps[k]));
        lane_runs_on(s, steps.take(k), steps[k]);
        assert(steps[head.len() + (n - 1)] == crate::lane::effect_step(n - 1));
    }
}

/// A lane's plan renders its chain: it puts out its instrument at the lane's
/// volume, through all of its effects in order, with the metronome on top; without
/// an instrument it is silent under the metronome. That is so for any number of
/// effects, and whatever the buffers held before.
pub proof fn lanes_render_their_chain(l: LaneModel, num_channels: usize, s: LaneBuffers)
    requires
        l.effects.len() <= usize::MAX,
    ensures
        lane_run(s, lane_plan(l, num_channels)).out == (Signal::Clicked {
            input: Box::new(
                if l.instrument is None {
                    Signal::Silent
                } else {
                    through_chain(lane_source(l, num_channels), l.effects.len() as int)
                },
            ),
        }),
{
    let plan = lane_plan(l, num_channels);
    let n = l.effects.len();
    let none = Seq::<RenderStep>::empty();
    assert(plan.take(0) =~= none);
    assert(lane_run(s, none) == s);
    gains_by_bits(l.volume);
    if l.instrument is None {
        assert(plan =~= none.push(RenderStep::Silence).push(RenderStep::Metronome));
        lane_runs_on(s, none, RenderStep::Silence);
        lane_runs_on(s, none.push(RenderStep::Silence), RenderStep::Metronome);
    } else if l.inst_outputs <= num_channels && n == 0 && l.volume.unity() {
        assert(plan =~= none.push(RenderStep::InstrumentToOutput).push(RenderStep::Metronome));
        lane_runs_on(s, none, RenderStep::InstrumentToOutput);
        lane_runs_on(s, none.push(RenderStep::InstrumentToOutput), RenderStep::Metronome);
    } else {
        let channels = if l.inst_outputs < num_channels {
            l.inst_outputs
        } else {
            num_channels
        };
        let scale = RenderStep::ScaleVolume { channels };
        let start = none.push(RenderStep::InstrumentToBuffers);
        lane_runs_on(s, none, RenderStep::InstrumentToBuffers);
        let source = if l.volume.rescales() {
            start.push(scale)
        } else {
            start
        };
        lane_runs_on(s, start, scale);
        assert(lane_run(s, source).own == lane_source(l, num_channels));
        if n == 0 {
            assert(plan =~= source.push(RenderStep::CopyToOutput).push(RenderStep::Metronome));
            lane_runs_on(s, source, RenderStep::CopyToOutput);
            lane_runs_on(s, source.push(RenderStep::CopyToOutput), RenderStep::Metronome);
        } else {
            let head = source.push(RenderStep::CopyToChain);
            lane_runs_on(s, source, RenderStep::CopyToChain);
            assert(plan.take(head.len() as int) =~= head);
            chain_runs(s, head, plan, n);
            let k = (head.len() + n) as int;
            let last = plan[k];
            assert(plan =~= plan.take(k).push(last).push(RenderStep::Metronome));
            lane_runs_on(s, plan.take(k), last);
            lane_runs_on(s, plan.take(k).push(last), RenderStep::Metronome);
        }
    }
}

// ---------------------------------------------------------------------------
// A bus
// ---------------------------------------------------------------------------

/// The buffers of a bus.
pub struct BusBuffers {
    pub bus: Signal,
    pub a: Signal,
    pub b: Signal,
}

/// The buffers after one step.
pub open spec fn bus_stepped(s: BusBuffers, step: BusStep, channels: usize) -> BusBuffers {
    match step {
        BusStep::ScaleVolume => BusBuffers {
            bus: Signal::Scaled { channels, input: Box::new(s.bus) },
            ..s
        },
        BusStep::CopyToChain => BusBuffers { a: s.bus, b: Signal::Silent, ..s },
        BusStep::Effect { index, from, to } => {
            let input = if from == Buffer::A {
                s.a
            } else {
                s.b
            };
            let made = Signal::Effect { index: index as int, input: Box::new(input) };
            if to == Buffer::A {
                BusBuffers { a: made, ..s }
            } else {
                BusBuffers { b: made, ..s }
            }
        },
        BusStep::ChainToBus { from } => BusBuffers {
            bus: if from == Buffer::A {
                s.a
            } else {
                s.b
            },
            ..s
        },
        BusStep::Pan => BusBuffers { bus: Signal::Panned { input: Box::new(s.bus) }, ..s },
    }
}

/// The buffers after some steps.
pub open spec fn bus_run(s: BusBuffers, steps: Seq<BusStep>, channels: usize) -> BusBuffers
    decreases steps.len(),
{
    if steps.len() == 0 {
        s
    } else {
        bus_stepped(bus_run(s, steps.drop_last(), channels), steps.last(), channels)
    }
}

proof fn bus_runs_on(s: BusBuffers, steps: Seq<BusStep>, step: BusStep, channels: usize)
    ensures
        bus_run(s, steps.push(step), channels) == bus_stepped(
            bus_run(s, steps, channels),
            step,
            channels,
        ),
{
    assert(steps.push(step).drop_last() =~= steps);
}

proof fn bus_chain_runs(
    s: BusBuffers,
    head: Seq<BusStep>,
    steps: Seq<BusStep>,
    n: nat,
    channels: usize,
)
    requires
        n + head.len() <= steps.len(),
        steps.take(head.len() as int) == head,
        forall|i: int|
            0 <= i < n ==> #[trigger] steps[head.len() + i] == crate::bus::bus_effect_step(i),
        n <= usize::MAX,
    ensures
        ({
            let before = bus_run(s, head, channels);
            let after = bus_run(s, steps.take((head.len() + n) as int), channels);
            &&& n % 2 == 0 ==> after.a == through_chain(before.a, n as int)
            &&& n % 2 == 1 ==> after.b == through_chain(before.a, n as int)
        }),
    decreases n,
{
    if n > 0 {
        bus_chain_runs(s, head, steps, (n - 1) as nat, channels);
        let k = head.len() + n - 1;
        assert(steps.take(k + 1) =~= steps.take(k).push(steps[k]));
        bus_runs_on(s, steps.take(k), steps[k], channels);
        assert(steps[head.len() + (n - 1)] == crate::bus::bus_effect_step(n - 1));
    }
}

/// A bus's plan finishes it: the sum of its members at the bus's volume, through
/// all of its effects in order, and panned last, where the bus is stereo and its
/// pan is not at the centre. The centre is whatever is nearer to it than the
/// machine epsilon.
pub proof fn buses_render_their_chain(g: GroupModel, num_channels: usize, s: BusBuffers)
    requires
        g.effects.len() <= usize::MAX,
        s.bus == Signal::Sum,
    ensures
        ({
            let bits = g.volume.bits;
            let gained = if bits == 0x3f80_0000 || bits == 0x3f7f_ffff || unsigned_bits(bits)
                > 0x7f80_0000 {
                Signal::Sum
            } else {
                Signal::Scaled { channels: num_channels, input: Box::new(Signal::Sum) }
            };
            let chained = through_chain(gained, g.effects.len() as int);
            bus_run(s, bus_plan(g, num_channels), num_channels).bus == (if num_channels == 2
                && unsigned_bits(g.pan.bits) >= 0x3400_0000 {
                Signal::Panned { input: Box::new(chained) }
            } else {
                chained
            })
        }),
{
    let plan = bus_plan(g, num_channels);
    let n = g.effects.len();
    let c = num_channels;
    let none = Seq::<BusStep>::empty();
    assert(bus_run(s, none, c) == s);
    gains_by_bits(g.volume);
    gains_by_bits(g.pan);
    let gain = if g.volume.rescales() {
        none.push(BusStep::ScaleVolume)
    } else {
        none
    };
    bus_runs_on(s, none, BusStep::ScaleVolume, c);
    let chain_end = if n == 0 {
        gain.len() as int
    } else {
        (gain.len() + 1 + n + 1) as int
    };
    assert(plan.take(gain.len() as int) =~= gain);
    if n > 0 {
        let head = gain.push(BusStep::CopyToChain);
        bus_runs_on(s, gain, BusStep::CopyToChain, c);
        assert(plan.take(head.len() as int) =~= head);
        bus_chain_runs(s, head, plan, n, c);
        let k = (head.len() + n) as int;
        assert(plan.take(k + 1) =~= plan.take(k).push(plan[k]));
        bus_runs_on(s, plan.take(k), plan[k], c);
        assert(chain_end == k + 1);
    }
    let done = plan.take(chain_end);
    if num_channels == 2 && !g.pan.negligible() {
        assert(plan =~= done.push(BusStep::Pan));
        bus_runs_on(s, done, BusStep::Pan, c);
    } else {
        assert(plan =~= done);
    }
}

// ---------------------------------------------------------------------------
// The graph
// ---------------------------------------------------------------------------

/// What the master mix takes: a lane, or a bus with the lanes that fed it.
pub enum Mixed {
    Lane { inst: int },
    Bus { group: int, lanes: Seq<int> },
}

/// The mixes of a graph while a buffer is rendered, and which of its modulators
/// have been advanced and written.
pub struct Mixes {
    pub buses: Seq<Seq<int>>,
    pub master: Seq<Mixed>,
    pub ticked: Seq<int>,
    pub members_written: bool,
    pub params_written: bool,
}

/// The mixes after one step.
pub open spec fn mix_stepped(m: Mixes, step: GraphStep) -> Mixes {
    match step {
        GraphStep::Begin { group } => Mixes {
            buses: m.buses.update(group as int, Seq::empty()),
            ..m
        },
        GraphStep::TickGroup { group } => Mixes { ticked: m.ticked.push(group as int), ..m },
        GraphStep::WriteMemberMods => Mixes { members_written: true, ..m },
        GraphStep::WriteParams => Mixes { params_written: true, ..m },
        GraphStep::Lane { inst, bus } => match bus {
            Some(b) => Mixes {
                buses: m.buses.update(b as int, m.buses[b as int].push(inst as int)),
                ..m
            },
            None => Mixes { master: m.master.push(Mixed::Lane { inst: inst as int }), ..m },
        },
        GraphStep::Finish { group } => Mixes {
            master: m.master.push(
                Mixed::Bus { group: group as int, lanes: m.buses[group as int] },
            ),
            ..m
        },
    }
}

/// The mixes after the first `n` steps.
pub open spec fn mix_run(m: Mixes, steps: Seq<GraphStep>, n: nat) -> Mixes
    decreases n,
{
    if n == 0 {
        m
    } else {
        mix_stepped(mix_run(m, steps, (n - 1) as nat), steps[n - 1])
    }
}

/// The lanes among the first `n` whose output goes to `bus`, in order; to the
/// master where `bus` is no group.
pub open spec fn feeders(g: GraphModel, bus: Option<int>, n: int) -> Seq<int>
    decreases n,
{
    if n <= 0 {
        Seq::empty()
    } else {
        let before = feeders(g, bus, n - 1);
        let goes = match g.lanes[n - 1].group {
            Some(b) => if b < g.groups.len() {
                Some(b as int)
            } else {
                None
            },
            None => None,
        };
        if goes == bus {
            before.push(n - 1)
        } else {
            before
        }
    }
}

/// Groups with modulators among the first `n`, in order.
pub open spec fn moving_groups(g: GraphModel, n: int) -> Seq<int>
    decreases n,
{
    if n <= 0 {
        Seq::empty()
    } else if g.groups[n - 1].modulators.len() > 0 {
        moving_groups(g, n - 1).push(n - 1)
    } else {
        moving_groups(g, n - 1)
    }
}

proof fn begins_clear(g: GraphModel, frames: usize, m: Mixes, n: nat)
    requires
        n <= g.groups.len() <= usize::MAX,
        m.buses.len() == g.groups.len(),
    ensures
        ({
            let after = mix_run(m, process_steps(g, frames), n);
            &&& after.buses.len() == g.groups.len()
            &&& forall|k: int| 0 <= k < n ==> #[trigger] after.buses[k] == Seq::<int>::empty()
            &&& after.master == m.master
            &&& after.ticked == m.ticked
            &&& after.members_written == m.members_written
            &&& after.params_written == m.params_written
        }),
    decreases n,
{
    if n > 0 {
        begins_clear(g, frames, m, (n - 1) as nat);
        assert(process_steps(g, frames)[n - 1] == crate::render::begin_steps(g.groups.len())[n - 1]);
    }
}

proof fn ticks_advance(g: GraphModel, n: nat, before: Mixes, steps: Seq<GraphStep>, from: nat, m: Mixes)
    requires
        n <= g.groups.len() <= usize::MAX,
        mix_run(m, steps, from) == before,
        before.ticked.len() == 0,
        from + crate::render::tick_steps(g, n).len() <= steps.len(),
        forall|i: int|
            0 <= i < crate::render::tick_steps(g, n).len() ==> #[trigger] steps[from + i]
                == crate::render::tick_steps(g, n)[i],
    ensures
        ({
            let after = mix_run(m, steps, from + crate::render::tick_steps(g, n).len());
            after == Mixes { ticked: moving_groups(g, n as int), ..before }
        }),
    decreases n,
{
    let ticks = crate::render::tick_steps(g, n);
    if n == 0 {
        assert(before.ticked =~= moving_groups(g, 0));
    } else {
        let rest = crate::render::tick_steps(g, (n - 1) as nat);
        assert forall|i: int| 0 <= i < rest.len() implies #[trigger] steps[from + i] == rest[i] by {
            assert(ticks[i] == rest[i]);
        }
        ticks_advance(g, (n - 1) as nat, before, steps, from, m);
        if g.groups[n - 1].modulators.len() > 0 {
            assert(steps[(from + rest.len()) as int] == ticks[rest.len() as int]);
        }
    }
}

proof fn lanes_join(g: GraphModel, n: nat, steps: Seq<GraphStep>, from: nat, m: Mixes)
    requires
        n <= g.lanes.len() <= usize::MAX,
        from + n <= steps.len(),
        forall|i: int|
            0 <= i < n ==> #[trigger] steps[from + i] == crate::render::lane_steps(
                g,
                g.lanes.len(),
            )[i],
        ({
            let before = mix_run(m, steps, from);
            &&& before.buses.len() == g.groups.len()
            &&& forall|k: int|
                0 <= k < g.groups.len() ==> #[trigger] before.buses[k] == Seq::<int>::empty()
            &&& before.master.len() == 0
        }),
    ensures
        ({
            let before = mix_run(m, steps, from);
            let after = mix_run(m, steps, from + n);
            &&& after.buses.len() == g.groups.len()
            &&& forall|k: int|
                0 <= k < g.groups.len() ==> #[trigger] after.buses[k] == feeders(
                    g,
                    Some(k),
                    n as int,
                )
            &&& after.master == Seq::new(
                feeders(g, None, n as int).len(),
                |i: int| Mixed::Lane { inst: feeders(g, None, n as int)[i] },
            )
            &&& after.ticked == before.ticked
            &&& after.members_written == before.members_written
            &&& after.params_written == before.params_written
        }),
    decreases n,
{
    if n == 0 {
        assert(mix_run(m, steps, from).master =~= Seq::new(
            0,
            |i: int| Mixed::Lane { inst: feeders(g, None, 0)[i] },
        ));
    } else {
        lanes_join(g, (n - 1) as nat, steps, from, m);
        let mid = mix_run(m, steps, (from + n - 1) as nat);
        let after = mix_run(m, steps, from + n);
        assert(steps[from + (n - 1)] == crate::render::lane_steps(g, g.lanes.len())[n - 1]);
        let rest = feeders(g, None, n - 1);
        let all = feeders(g, None, n as int);
        assert(after.master =~= Seq::new(all.len(), |i: int| Mixed::Lane { inst: all[i] }));
    }
}

proof fn buses_join(g: GraphModel, n: nat, steps: Seq<GraphStep>, from: nat, m: Mixes)
    requires
        n <= g.groups.len() <= usize::MAX,
        from + n <= steps.len(),
        mix_run(m, steps, from).buses.len() == g.groups.len(),
        forall|i: int|
            0 <= i < n ==> #[trigger] steps[from + i] == crate::render::finish_steps(
                g.groups.len(),
            )[i],
    ensures
        ({
            let before = mix_run(m, steps, from);
            let after = mix_run(m, steps, from + n);
            after == Mixes {
                master: before.master + Seq::new(
                    n,
                    |k: int| Mixed::Bus { group: k, lanes: before.buses[k] },
                ),
                ..before
            }
        }),
    decreases n,
{
    let before = mix_run(m, steps, from);
    if n == 0 {
        assert(before.master + Seq::new(
            0,
            |k: int| Mixed::Bus { group: k, lanes: before.buses[k] },
        ) =~= before.master);
    } else {
        buses_join(g, (n - 1) as nat, steps, from, m);
        assert(steps[from + (n - 1)] == crate::render::finish_steps(g.groups.len())[n - 1]);
        let after = mix_run(m, steps, from + n);
        assert(after.master =~= before.master + Seq::new(
            n,
            |k: int| Mixed::Bus { group: k, lanes: before.buses[k] },
        ));
    }
}

/// What a buffer is mixed from: each lane outside the groups, in order, and then
/// each group's bus, which holds just its members in order, whatever the buses held
/// before. Where there is something to render, each group with modulators has
/// advanced them, once, and what groups do to their members' modulators and to
/// parameters has been written, ahead of all lanes.
pub proof fn buffers_are_mixed_from_lanes_and_buses(g: GraphModel, frames: usize, m: Mixes)
    requires
        g.lanes.len() <= usize::MAX,
        g.groups.len() <= usize::MAX,
        m.buses.len() == g.groups.len(),
        m.master.len() == 0,
        m.ticked.len() == 0,
        !m.members_written,
        !m.params_written,
    ensures
        ({
            let steps = process_steps(g, frames);
            let after = mix_run(m, steps, steps.len());
            let plain = feeders(g, None, g.lanes.len() as int);
            &&& after.master == Seq::new(plain.len(), |i: int| Mixed::Lane { inst: plain[i] })
                + Seq::new(
                g.groups.len(),
                |k: int| Mixed::Bus {
                    group: k,
                    lanes: feeders(g, Some(k), g.lanes.len() as int),
                },
            )
            &&& exists|at: nat|
                {
                    &&& at <= steps.len()
                    &&& forall|i: int|
                        0 <= i < steps.len() ==> ((#[trigger] steps[i]) is Lane || steps[i] is Finish
                            <==> i >= at)
                    &&& frames > 0 ==> (#[trigger] mix_run(m, steps, at)).ticked == moving_groups(
                        g,
                        g.groups.len() as int,
                    ) && mix_run(m, steps, at).members_written && mix_run(m, steps, at).params_written
                    &&& frames == 0 ==> mix_run(m, steps, at).ticked.len() == 0
                }
        }),
{
    let steps = process_steps(g, frames);
    let groups = g.groups.len();
    let ticks = crate::render::tick_steps(g, groups);
    begins_clear(g, frames, m, groups);
    let begun = mix_run(m, steps, groups);
    let at = crate::render::opening_steps(g, frames).len();
    let begins = crate::render::begin_steps(groups);
    let opening = crate::render::opening_steps(g, frames);
    assert(forall|i: int| 0 <= i < opening.len() ==> steps[i] == opening[i]);
    crate::render::ticks_are_ticks(g, groups);
    if frames > 0 {
        assert forall|i: int| 0 <= i < ticks.len() implies #[trigger] steps[groups + i] == ticks[i] by {
            assert(opening[groups + i] == ticks[i]);
        }
        ticks_advance(g, groups, begun, steps, groups, m);
        let t = groups + ticks.len();
        assert(steps[t as int] == GraphStep::WriteMemberMods);
        assert(steps[t as int + 1] == GraphStep::WriteParams);
        assert(at == t + 2);
        assert(mix_run(m, steps, (t + 1) as nat) == mix_stepped(mix_run(m, steps, t), steps[t as int]));
        assert(mix_run(m, steps, (t + 2) as nat) == mix_stepped(
            mix_run(m, steps, (t + 1) as nat),
            steps[t as int + 1],
        ));
    } else {
        assert(at == groups);
    }
    assert forall|i: int| 0 <= i < g.lanes.len() implies #[trigger] steps[at + i]
        == crate::render::lane_steps(g, g.lanes.len())[i] by {}
    lanes_join(g, g.lanes.len(), steps, at, m);
    let end = at + g.lanes.len();
    assert forall|i: int| 0 <= i < groups implies #[trigger] steps[end + i]
        == crate::render::finish_steps(groups)[i] by {}
    buses_join(g, groups, steps, end, m);
    let after = mix_run(m, steps, steps.len());
    let plain = feeders(g, None, g.lanes.len() as int);
    let mid = mix_run(m, steps, end);
    assert(after.master =~= Seq::new(plain.len(), |i: int| Mixed::Lane { inst: plain[i] })
        + Seq::new(
        groups,
        |k: int| Mixed::Bus { group: k, lanes: feeders(g, Some(k), g.lanes.len() as int) },
    ));
    assert forall|i: int| 0 <= i < steps.len() implies ((#[trigger] steps[i]) is Lane
        || steps[i] is Finish <==> i >= at) by {
        if i < at {
            assert(steps[i] == opening[i]);
            if i < groups {
                assert(opening[i] == begins[i]);
            } else if i < groups + ticks.len() {
                assert(opening[i] == ticks[i - groups]);
            }
        } else if i < end {
            assert(steps[at + (i - at)] == crate::render::lane_steps(g, g.lanes.len())[i - at]);
        } else {
            assert(steps[end + (i - end)] == crate::render::finish_steps(groups)[i - end]);
        }
    }
    assert(mix_run(m, steps, at).ticked.len() >= 0);
}

} // verus!
