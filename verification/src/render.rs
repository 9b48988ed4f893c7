//! The order in which a graph renders a buffer.

use vstd::prelude::*;

use crate::graph::{lane_bus, AudioGraph, GraphModel};

verus! {

/// One step of rendering a buffer.
#[derive(Clone, Copy, Debug, PartialEq, Eq, Structural)]
pub enum GraphStep {
    /// Clear the bus of a group.
    Begin { group: usize },
    /// Advance a group's modulators, driven by the notes of its members, and
    /// let them modulate each other.
    TickGroup { group: usize },
    /// Write what groups do to their members' modulators.
    WriteMemberMods,
    /// Write what groups do to parameters of members and bus effects.
    WriteParams,
    /// Render a lane and add it to a bus, or to the master mix.
    Lane { inst: usize, bus: Option<usize> },
    /// Finish the bus of a group and add it to the master mix.
    Finish { group: usize },
}

/// Clear the buses of `n` groups.
pub open spec fn begin_steps(n: nat) -> Seq<GraphStep> {
    Seq::new(n, |i: int| GraphStep::Begin { group: i as usize })
}

/// Advance those of the first `n` groups that have modulators.
pub open spec fn tick_steps(g: GraphModel, n: nat) -> Seq<GraphStep>
    decreases n,
{
    if n == 0 {
        Seq::empty()
    } else {
        let before = tick_steps(g, (n - 1) as nat);
        if g.groups[n - 1].modulators.len() > 0 {
            before.push(GraphStep::TickGroup { group: (n - 1) as usize })
        } else {
            before
        }
    }
}

/// Render the first `n` lanes.
pub open spec fn lane_steps(g: GraphModel, n: nat) -> Seq<GraphStep> {
    Seq::new(n, |i: int| GraphStep::Lane { inst: i as usize, bus: lane_bus(g, i) })
}

/// Finish the buses of `n` groups.
pub open spec fn finish_steps(n: nat) -> Seq<GraphStep> {
    Seq::new(n, |i: int| GraphStep::Finish { group: i as usize })
}

/// What comes before the lanes. Groups modulate their members ahead of them,
/// so that the members render with the modulated values; an empty buffer moves
/// no modulator.
pub open spec fn opening_steps(g: GraphModel, frames: usize) -> Seq<GraphStep> {
    begin_steps(g.groups.len()) + if frames > 0 {
        tick_steps(g, g.groups.len()) + seq![GraphStep::WriteMemberMods, GraphStep::WriteParams]
    } else {
        Seq::empty()
    }
}

/// The steps of rendering a buffer.
pub open spec fn process_steps(g: GraphModel, frames: usize) -> Seq<GraphStep> {
    opening_steps(g, frames) + lane_steps(g, g.lanes.len()) + finish_steps(g.groups.len())
}

impl AudioGraph {
    /// The steps of rendering a buffer of `frames` frames.
    pub fn process_plan(&self, frames: usize) -> (steps: Vec<GraphStep>)
        ensures
            steps@ == process_steps(self@, frames),
    {
        let ghost g = self@;
        let groups: usize = self.groups.len();
        let lanes: usize = self.instruments.len();
        let mut steps: Vec<GraphStep> = Vec::new();
        assert(steps@ =~= begin_steps(0));
        let mut i: usize = 0;
        while i < groups
            invariant
                i <= groups,
                steps@ == begin_steps(i as nat),
            decreases groups - i,
        {
            steps.push(GraphStep::Begin { group: i });
            i += 1;
            assert(steps@ =~= begin_steps(i as nat));
        }
        if frames > 0 {
            let ghost head = steps@;
            let mut j: usize = 0;
            assert(steps@ =~= head + tick_steps(g, 0));
            while j < groups
                invariant
                    j <= groups,
                    g == self@,
                    groups == self.groups.len(),
                    steps@ == head + tick_steps(g, j as nat),
                decreases groups - j,
            {
                assert(g.groups[j as int] == self.groups@[j as int]@);
                if self.groups[j].modulators.len() > 0 {
                    steps.push(GraphStep::TickGroup { group: j });
                }
                j += 1;
                assert(steps@ =~= head + tick_steps(g, j as nat));
            }
            steps.push(GraphStep::WriteMemberMods);
            steps.push(GraphStep::WriteParams);
        }
        assert(steps@ =~= opening_steps(g, frames));
        let ghost opening = steps@;
        let mut k: usize = 0;
        assert(steps@ =~= opening + lane_steps(g, 0));
        while k < lanes
            invariant
                k <= lanes,
                g == self@,
                lanes == self.instruments.len(),
                steps@ == opening + lane_steps(g, k as nat),
            decreases lanes - k,
        {
            steps.push(GraphStep::Lane { inst: k, bus: self.lane_destination(k) });
            k += 1;
            assert(steps@ =~= opening + lane_steps(g, k as nat));
        }
        let ghost middle = steps@;
        let mut m: usize = 0;
        assert(steps@ =~= middle + finish_steps(0));
        while m < groups
            invariant
                m <= groups,
                steps@ == middle + finish_steps(m as nat),
            decreases groups - m,
        {
            steps.push(GraphStep::Finish { group: m });
            m += 1;
            assert(steps@ =~= middle + finish_steps(m as nat));
        }
        steps
    }
}

// ---------------------------------------------------------------------------
// Laws
// ---------------------------------------------------------------------------

/// Ticking the modulators of groups takes no other steps.
pub proof fn ticks_are_ticks(g: GraphModel, n: nat)
    requires
        n <= g.groups.len(),
    ensures
        forall|i: int| 0 <= i < tick_steps(g, n).len() ==> (#[trigger] tick_steps(g, n)[i]) is TickGroup,
    decreases n,
{
    if n > 0 {
        ticks_are_ticks(g, (n - 1) as nat);
    }
}

/// Every lane is rendered once, and with it nothing but lanes between the
/// opening and the finishing of the buses.
pub proof fn every_lane_renders_once(g: GraphModel, frames: usize, inst: int)
    requires
        0 <= inst < g.lanes.len(),
        g.lanes.len() <= usize::MAX,
    ensures
        ({
            let steps = process_steps(g, frames);
            let at = opening_steps(g, frames).len() + inst;
            let lane = GraphStep::Lane { inst: inst as usize, bus: lane_bus(g, inst) };
            &&& 0 <= at < steps.len()
            &&& steps[at] == lane
            &&& forall|i: int|
                0 <= i < steps.len() && i != at ==> !((#[trigger] steps[i]) matches GraphStep::Lane {
                    inst: other,
                    ..
                } && other == inst)
        }),
{
    ticks_are_ticks(g, g.groups.len());
    let steps = process_steps(g, frames);
    let opening = opening_steps(g, frames);
    let at = opening.len() + inst;
    assert forall|i: int| 0 <= i < steps.len() && i != at implies !((
    #[trigger] steps[i]) matches GraphStep::Lane { inst: other, .. } && other == inst) by {
        if i < opening.len() {
            assert(steps[i] == opening[i]);
            let begins = begin_steps(g.groups.len());
            if i < begins.len() {
                assert(opening[i] == begins[i]);
            } else if i - begins.len() < tick_steps(g, g.groups.len()).len() {
                assert(opening[i] == tick_steps(g, g.groups.len())[i - begins.len()]);
            }
        } else if i < opening.len() + g.lanes.len() {
            assert(steps[i] == lane_steps(g, g.lanes.len())[i - opening.len()]);
        } else {
            assert(steps[i] == finish_steps(g.groups.len())[i - opening.len() - g.lanes.len()]);
        }
    }
}

/// A bus is finished after every lane that feeds it, and cleared before.
pub proof fn buses_wait_for_members(g: GraphModel, frames: usize, inst: int, group: int)
    requires
        0 <= inst < g.lanes.len(),
        0 <= group < g.groups.len(),
        lane_bus(g, inst) == Some(group as usize),
    ensures
        ({
            let steps = process_steps(g, frames);
            let lane = opening_steps(g, frames).len() + inst;
            let finish = opening_steps(g, frames).len() + g.lanes.len() + group;
            &&& steps[group] == GraphStep::Begin { group: group as usize }
            &&& steps[lane] == GraphStep::Lane { inst: inst as usize, bus: Some(group as usize) }
            &&& steps[finish] == GraphStep::Finish { group: group as usize }
            &&& group < lane < finish < steps.len()
        }),
{
}

} // verus!
