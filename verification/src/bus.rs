//! Submix groups: a bus that sums member lanes and runs effects of its own.

use vstd::prelude::*;

use crate::lane::{buffer_after, Buffer, PluginHandle};
use crate::modulation::{rack, Modulator, ModulatorModel};
use crate::scalar::{F32Bits, F64Bits, ONE};

verus! {

/// A submix bus. Member lanes sum into it; it applies its volume, its effects
/// and its pan to the sum, and the result joins the master.
#[derive(Debug)]
pub struct Group {
    pub effects: Vec<PluginHandle>,
    /// Dry/wet mix of each effect.
    pub mix_values: Vec<F64Bits>,
    /// Gain on the member sum, ahead of the effects.
    pub volume: F32Bits,
    /// Stereo balance behind the effects: -1 left, 0 centre, 1 right.
    pub pan: F32Bits,
    /// Group-scoped modulators, whose targets are members, bus effects and
    /// each other.
    pub modulators: Vec<Modulator>,
}

/// What a group holds.
#[verifier::ext_equal]
pub struct GroupModel {
    pub effects: Seq<PluginHandle>,
    pub mix_values: Seq<F64Bits>,
    pub volume: F32Bits,
    pub pan: F32Bits,
    pub modulators: Seq<ModulatorModel>,
}

impl View for Group {
    type V = GroupModel;

    open spec fn view(&self) -> GroupModel {
        GroupModel {
            effects: self.effects@,
            mix_values: self.mix_values@,
            volume: self.volume,
            pan: self.pan,
            modulators: rack(self.modulators@),
        }
    }
}

/// A group as it is first added.
pub open spec fn fresh_group() -> GroupModel {
    GroupModel {
        effects: Seq::empty(),
        mix_values: Seq::empty(),
        volume: F32Bits { bits: ONE },
        pan: F32Bits { bits: 0 },
        modulators: Seq::empty(),
    }
}

/// One step of finishing a bus.
#[derive(Clone, Copy, Debug, PartialEq, Eq, Structural)]
pub enum BusStep {
    /// Scale the member sum by the bus volume.
    ScaleVolume,
    /// Clear both chain buffers and copy the member sum into the first.
    CopyToChain,
    /// Run an effect from one chain buffer to the other and mix the dry signal
    /// back in.
    Effect { index: usize, from: Buffer, to: Buffer },
    /// Copy a chain buffer back to the bus.
    ChainToBus { from: Buffer },
    /// Attenuate the far channel of a stereo bus.
    Pan,
}

/// Run effect `i` of a bus.
pub open spec fn bus_effect_step(i: int) -> BusStep {
    BusStep::Effect { index: i as usize, from: buffer_after(i), to: buffer_after(i + 1) }
}

/// The steps that finish a bus with `num_channels` channels.
pub open spec fn bus_plan(g: GroupModel, num_channels: usize) -> Seq<BusStep> {
    let n = g.effects.len() as int;
    let gain = if g.volume.rescales() {
        seq![BusStep::ScaleVolume]
    } else {
        Seq::empty()
    };
    let chain = if n == 0 {
        Seq::empty()
    } else {
        seq![BusStep::CopyToChain] + Seq::new(n as nat, |i: int| bus_effect_step(i)) + seq![
            BusStep::ChainToBus { from: buffer_after(n) },
        ]
    };
    let pan = if num_channels == 2 && !g.pan.negligible() {
        seq![BusStep::Pan]
    } else {
        Seq::empty()
    };
    gain + chain + pan
}

impl Group {
    /// An empty group at full volume, centred.
    pub fn new() -> (g: Self)
        ensures
            g@ == fresh_group(),
    {
        let g = Group {
            effects: Vec::new(),
            mix_values: Vec::new(),
            volume: F32Bits { bits: ONE },
            pan: F32Bits { bits: 0 },
            modulators: Vec::new(),
        };
        assert(g@.modulators =~= Seq::empty());
        g
    }

    /// The steps that finish this bus once its members are summed.
    pub fn finish_plan(&self, num_channels: usize) -> (steps: Vec<BusStep>)
        ensures
            steps@ == bus_plan(self@, num_channels),
    {
        let mut steps: Vec<BusStep> = Vec::new();
        if self.volume.is_rescaling() {
            steps.push(BusStep::ScaleVolume);
        }
        let n: usize = self.effects.len();
        if n > 0 {
            steps.push(BusStep::CopyToChain);
            let ghost head = steps@;
            let mut from: Buffer = Buffer::A;
            let mut i: usize = 0;
            while i < n
                invariant
                    i <= n,
                    from == buffer_after(i as int),
                    steps@ == head + Seq::new(i as nat, |k: int| bus_effect_step(k)),
                decreases n - i,
            {
                let to: Buffer = match from {
                    Buffer::A => Buffer::B,
                    Buffer::B => Buffer::A,
                };
                steps.push(BusStep::Effect { index: i, from, to });
                assert(steps@ =~= head + Seq::new((i + 1) as nat, |k: int| bus_effect_step(k)));
                from = to;
                i += 1;
            }
            steps.push(BusStep::ChainToBus { from });
        }
        if num_channels == 2 && !self.pan.is_negligible() {
            steps.push(BusStep::Pan);
        }
        assert(steps@ =~= bus_plan(self@, num_channels));
        steps
    }
}

} // verus!
