//! The audio graph: instrument lanes that sum into the master, or into the
//! buses of submix groups.

use vstd::prelude::*;

use crate::bus::{Group, GroupModel};
use crate::event::{is_note, MidiEvent};
use crate::lane::{
    in_range, range_holds, slot_plugin, InstrumentLane, LaneModel, PluginHandle,
    DEFAULT_SAMPLE_RATE,
};
use crate::modulation::{
    apply_cross_mod_field, field_written, rack, CrossModField, ModTarget, ModTargetKind,
    ModulatorModel,
};
use crate::pattern::PlayerModel;
use crate::rack::track_rack_notes;
use crate::routes::{
    contribute, rack_grouped, route_list, targets_grouped, Contribution, ParamDest, ParamRoute,
};
use crate::scalar::F32Bits;

verus! {

/// An audio graph with several instruments, each with its own effect chain,
/// and submix groups.
#[derive(Debug)]
pub struct AudioGraph {
    pub instruments: Vec<InstrumentLane>,
    /// Submix buses. Lanes whose group is `Some(i)` feed `groups[i]`.
    pub groups: Vec<Group>,
    pub num_channels: usize,
    /// Whether somebody listens for completed pattern recordings.
    pub notifies: bool,
}

/// What a graph holds.
#[verifier::ext_equal]
pub struct GraphModel {
    pub lanes: Seq<LaneModel>,
    pub groups: Seq<GroupModel>,
    pub num_channels: usize,
    pub notifies: bool,
}

/// Lanes as a sequence of models.
pub open spec fn lane_list(lanes: Seq<InstrumentLane>) -> Seq<LaneModel> {
    Seq::new(lanes.len(), |i: int| lanes[i]@)
}

/// Groups as a sequence of models.
pub open spec fn group_list(groups: Seq<Group>) -> Seq<GroupModel> {
    Seq::new(groups.len(), |i: int| groups[i]@)
}

impl View for AudioGraph {
    type V = GraphModel;

    open spec fn view(&self) -> GraphModel {
        GraphModel {
            lanes: lane_list(self.instruments@),
            groups: group_list(self.groups@),
            num_channels: self.num_channels,
            notifies: self.notifies,
        }
    }
}

/// What holds of every graph: each effect has a mix value, every membership
/// names a group, and every player knows its lane.
pub open spec fn graph_valid(g: GraphModel) -> bool {
    &&& forall|i: int|
        0 <= i < g.lanes.len() ==> (#[trigger] g.lanes[i]).effects.len()
            == g.lanes[i].mix_values.len()
    &&& forall|i: int|
        0 <= i < g.groups.len() ==> (#[trigger] g.groups[i]).effects.len()
            == g.groups[i].mix_values.len()
    &&& forall|i: int|
        0 <= i < g.lanes.len() && (#[trigger] g.lanes[i]).group is Some ==> g.lanes[i].group->0
            < g.groups.len()
    &&& forall|i: int|
        0 <= i < g.lanes.len() ==> (#[trigger] g.lanes[i]).pattern.inst_index == i
}

// ---------------------------------------------------------------------------
// Membership
// ---------------------------------------------------------------------------

/// How many of the first `n` lanes are members of a group.
pub open spec fn members_before(lanes: Seq<LaneModel>, group: usize, n: int) -> nat
    decreases n,
{
    if n <= 0 {
        0
    } else {
        members_before(lanes, group, n - 1) + if lanes[n - 1].group == Some(group) {
            1nat
        } else {
            0nat
        }
    }
}

/// The group of a lane and the lane's ordinal in it, members being counted in
/// lane order.
pub open spec fn membership(lanes: Seq<LaneModel>, inst: usize) -> Option<(usize, usize)> {
    if inst < lanes.len() {
        match lanes[inst as int].group {
            Some(g) => Some((g, members_before(lanes, g, inst as int) as usize)),
            None => None,
        }
    } else {
        None
    }
}

/// The lane that is member number `member` of a group, among the first `n`.
pub open spec fn member_lane(
    lanes: Seq<LaneModel>,
    group: usize,
    member: usize,
    n: int,
) -> Option<usize>
    decreases n,
{
    if n <= 0 {
        None
    } else {
        match member_lane(lanes, group, member, n - 1) {
            Some(i) => Some(i),
            None => if lanes[n - 1].group == Some(group) && members_before(lanes, group, n - 1)
                == member {
                Some((n - 1) as usize)
            } else {
                None
            },
        }
    }
}

proof fn members_bounded(lanes: Seq<LaneModel>, group: usize, n: int)
    requires
        0 <= n <= lanes.len(),
    ensures
        members_before(lanes, group, n) <= n,
    decreases n,
{
    if n > 0 {
        members_bounded(lanes, group, n - 1);
    }
}

proof fn members_grow(lanes: Seq<LaneModel>, group: usize, a: int, b: int)
    requires
        0 <= a <= b,
    ensures
        members_before(lanes, group, a) <= members_before(lanes, group, b),
    decreases b - a,
{
    if a < b {
        members_grow(lanes, group, a, b - 1);
    }
}

/// The lane of the `member`-th member of a group, in ascending lane order.
pub fn group_member_lane(instruments: &Vec<InstrumentLane>, group: usize, member: usize) -> (lane:
    Option<usize>)
    ensures
        lane == member_lane(
            lane_list(instruments@),
            group,
            member,
            instruments.len() as int,
        ),
{
    let ghost lanes = lane_list(instruments@);
    let mut seen: usize = 0;
    let mut i: usize = 0;
    while i < instruments.len()
        invariant
            lanes == lane_list(instruments@),
            i <= instruments.len(),
            seen <= i,
            seen == members_before(lanes, group, i as int),
            member_lane(lanes, group, member, i as int) is None,
        decreases instruments.len() - i,
    {
        assert(lanes[i as int] == instruments@[i as int]@);
        if instruments[i].group == Some(group) {
            if seen == member {
                proof {
                    member_lane_settled(lanes, group, member, i + 1, lanes.len() as int);
                }
                return Some(i);
            }
            seen += 1;
        }
        i += 1;
    }
    None
}

/// A member found among the first lanes is the member found among all.
proof fn member_lane_settled(
    lanes: Seq<LaneModel>,
    group: usize,
    member: usize,
    n: int,
    all: int,
)
    requires
        n <= all,
        member_lane(lanes, group, member, n) is Some,
    ensures
        member_lane(lanes, group, member, all) == member_lane(lanes, group, member, n),
    decreases all - n,
{
    if n < all {
        member_lane_settled(lanes, group, member, n + 1, all);
    }
}

/// The group of a lane and the lane's ordinal in it; `None` if it has none.
pub fn lane_member_ordinal(instruments: &Vec<InstrumentLane>, inst: usize) -> (m: Option<
    (usize, usize),
>)
    ensures
        m == membership(lane_list(instruments@), inst),
{
    let ghost lanes = lane_list(instruments@);
    if inst >= instruments.len() {
        return None;
    }
    assert(lanes[inst as int] == instruments@[inst as int]@);
    let group: usize = match instruments[inst].group {
        Some(g) => g,
        None => {
            return None;
        },
    };
    let mut ordinal: usize = 0;
    let mut i: usize = 0;
    while i < inst
        invariant
            lanes == lane_list(instruments@),
            i <= inst < instruments.len(),
            ordinal <= i,
            ordinal == members_before(lanes, group, i as int),
        decreases inst - i,
    {
        assert(lanes[i as int] == instruments@[i as int]@);
        if instruments[i].group == Some(group) {
            ordinal += 1;
        }
        i += 1;
    }
    Some((group, ordinal))
}

proof fn member_lane_is_member(lanes: Seq<LaneModel>, group: usize, member: usize, n: int)
    requires
        0 <= n <= lanes.len() <= usize::MAX,
    ensures
        match member_lane(lanes, group, member, n) {
            Some(i) => i < n && lanes[i as int].group == Some(group) && members_before(
                lanes,
                group,
                i as int,
            ) == member,
            None => forall|i: int|
                0 <= i < n && (#[trigger] lanes[i]).group == Some(group) ==> members_before(
                    lanes,
                    group,
                    i,
                ) != member,
        },
    decreases n,
{
    if n > 0 {
        member_lane_is_member(lanes, group, member, n - 1);
    }
}

/// Member ordinals and lanes name each other: lane `inst` is the member of its
/// group that its ordinal says, and no other lane is.
pub proof fn ordinals_name_lanes(lanes: Seq<LaneModel>, inst: usize, group: usize, member: usize)
    requires
        lanes.len() <= usize::MAX,
    ensures
        membership(lanes, inst) == Some((group, member)) <==> member_lane(
            lanes,
            group,
            member,
            lanes.len() as int,
        ) == Some(inst),
{
    let n = lanes.len() as int;
    member_lane_is_member(lanes, group, member, n);
    if membership(lanes, inst) == Some((group, member)) {
        members_bounded(lanes, group, inst as int);
        let i = inst as int;
        assert(lanes[i].group == Some(group));
        match member_lane(lanes, group, member, n) {
            Some(j) => {
                if j < inst {
                    members_grow(lanes, group, j + 1, i);
                } else if inst < j {
                    members_grow(lanes, group, i + 1, j as int);
                }
            },
            None => {},
        }
    }
    if member_lane(lanes, group, member, n) == Some(inst) {
        members_bounded(lanes, group, inst as int);
    }
}

// ---------------------------------------------------------------------------
// Group trigger MIDI
// ---------------------------------------------------------------------------

/// Some member of a group plays a note.
pub open spec fn group_plays(lanes: Seq<LaneModel>, group: usize, note: u8) -> bool {
    exists|i: int|
        0 <= i < lanes.len() && (#[trigger] lanes[i]).group == Some(group) && in_range(
            lanes[i].range,
            note,
        )
}

/// The messages that drive a group's envelopes: notes that some member plays,
/// and everything that is not a note.
pub open spec fn group_heard(
    lanes: Seq<LaneModel>,
    group: usize,
    midi: Seq<MidiEvent>,
) -> Seq<MidiEvent> {
    midi.filter(|ev: MidiEvent| is_note(ev) ==> group_plays(lanes, group, ev.1[1]))
}

fn any_member_plays(instruments: &Vec<InstrumentLane>, group: usize, note: u8) -> (r: bool)
    ensures
        r == group_plays(lane_list(instruments@), group, note),
{
    let ghost lanes = lane_list(instruments@);
    let mut i: usize = 0;
    while i < instruments.len()
        invariant
            lanes == lane_list(instruments@),
            i <= instruments.len(),
            forall|k: int|
                0 <= k < i ==> !((#[trigger] lanes[k]).group == Some(group) && in_range(
                    lanes[k].range,
                    note,
                )),
        decreases instruments.len() - i,
    {
        assert(lanes[i as int] == instruments@[i as int]@);
        if instruments[i].group == Some(group) && range_holds(instruments[i].range, note) {
            return true;
        }
        i += 1;
    }
    false
}

/// Build the trigger MIDI for a group's modulators: notes that fall within any
/// member's range, plus everything that is not a note.
pub fn build_group_midi(
    instruments: &Vec<InstrumentLane>,
    group: usize,
    midi: &[MidiEvent],
) -> (out: Vec<MidiEvent>)
    ensures
        out@ == group_heard(lane_list(instruments@), group, midi@),
{
    let ghost lanes = lane_list(instruments@);
    let mut out: Vec<MidiEvent> = Vec::new();
    let mut i: usize = 0;
    proof {
        reveal(Seq::filter);
    }
    while i < midi.len()
        invariant
            lanes == lane_list(instruments@),
            i <= midi.len(),
            out@ == group_heard(lanes, group, midi@.take(i as int)),
        decreases midi.len() - i,
    {
        proof {
            reveal(Seq::filter);
            assert(midi@.take(i + 1).drop_last() =~= midi@.take(i as int));
        }
        let ev: MidiEvent = midi[i];
        let status: u8 = ev.1[0] & 0xF0;
        if status == 0x80 || status == 0x90 {
            if any_member_plays(instruments, group, ev.1[1]) {
                out.push(ev);
            }
        } else {
            out.push(ev);
        }
        i += 1;
    }
    assert(midi@.take(midi@.len() as int) =~= midi@);
    out
}

// ---------------------------------------------------------------------------
// What a group's modulators reach
// ---------------------------------------------------------------------------

/// The member parameters that a group's targets reach. A target on a member
/// that is not there reaches nothing.
pub open spec fn member_reach(lanes: Seq<LaneModel>, group: usize) -> spec_fn(
    ModTargetKind,
) -> Option<ParamDest> {
    |kind: ModTargetKind|
        match kind {
            ModTargetKind::GroupMember { member, slot, param_index } => match member_lane(
                lanes,
                group,
                member,
                lanes.len() as int,
            ) {
                Some(lane) => Some(ParamDest::Member { lane, slot, param_index }),
                None => None,
            },
            _ => None,
        }
}

/// The bus parameters that a group's targets reach.
pub open spec fn bus_reach(group: usize) -> spec_fn(ModTargetKind) -> Option<ParamDest> {
    |kind: ModTargetKind|
        match kind {
            ModTargetKind::GroupBus { effect_index, param_index } => Some(
                ParamDest::Bus { group, effect_index, param_index },
            ),
            _ => None,
        }
}

/// The parameters that one group's modulators drive: members first, then the
/// bus, each with the targets to sum.
#[derive(Debug)]
pub struct GroupRoutes {
    pub members: Vec<ParamRoute>,
    pub bus: Vec<ParamRoute>,
}

/// The plugin that owns a parameter of the graph. A chain parameter belongs to
/// its lane and is looked up there.
pub open spec fn dest_plugin(g: GraphModel, dest: ParamDest) -> Option<PluginHandle> {
    match dest {
        ParamDest::Chain { .. } => None,
        ParamDest::Member { lane, slot, .. } => if lane < g.lanes.len() {
            slot_plugin(g.lanes[lane as int], slot)
        } else {
            None
        },
        ParamDest::Bus { group, effect_index, .. } => if group < g.groups.len() && effect_index
            < g.groups[group as int].effects.len() {
            Some(g.groups[group as int].effects[effect_index as int])
        } else {
            None
        },
    }
}

/// One cross-mod connection from a group's modulator into a member lane's.
#[derive(Clone, Copy, Debug, PartialEq, Eq, Structural)]
pub struct MemberModRoute {
    pub group: usize,
    pub modulator: usize,
    pub target: usize,
    pub lane: usize,
    pub mod_index: usize,
    pub field: CrossModField,
}

/// The member-modulator connections of the first `n` targets of a modulator.
pub open spec fn target_member_routes(
    lanes: Seq<LaneModel>,
    group: int,
    targets: Seq<ModTarget>,
    modulator: int,
    n: nat,
) -> Seq<MemberModRoute>
    decreases n,
{
    if n == 0 {
        Seq::empty()
    } else {
        let rest = target_member_routes(lanes, group, targets, modulator, (n - 1) as nat);
        match targets[n - 1].kind {
            ModTargetKind::GroupMemberMod { member, mod_index, field } => match member_lane(
                lanes,
                group as usize,
                member,
                lanes.len() as int,
            ) {
                Some(lane) => rest.push(
                    MemberModRoute {
                        group: group as usize,
                        modulator: modulator as usize,
                        target: (n - 1) as usize,
                        lane,
                        mod_index,
                        field,
                    },
                ),
                None => rest,
            },
            _ => rest,
        }
    }
}

/// The member-modulator connections of the first `n` modulators of a group.
pub open spec fn rack_member_routes(
    lanes: Seq<LaneModel>,
    group: int,
    mods: Seq<ModulatorModel>,
    n: nat,
) -> Seq<MemberModRoute>
    decreases n,
{
    if n == 0 {
        Seq::empty()
    } else {
        rack_member_routes(lanes, group, mods, (n - 1) as nat) + target_member_routes(
            lanes,
            group,
            mods[n - 1].targets,
            n - 1,
            mods[n - 1].targets.len(),
        )
    }
}

/// The member-modulator connections of the first `n` groups.
pub open spec fn member_mod_routes(
    lanes: Seq<LaneModel>,
    groups: Seq<GroupModel>,
    n: nat,
) -> Seq<MemberModRoute>
    decreases n,
{
    if n == 0 {
        Seq::empty()
    } else {
        member_mod_routes(lanes, groups, (n - 1) as nat) + rack_member_routes(
            lanes,
            n - 1,
            groups[n - 1].modulators,
            groups[n - 1].modulators.len(),
        )
    }
}

/// The lanes after the first `n` of those connections were written. A route to
/// a missing lane or modulator writes nothing; the later of two writes stays.
pub open spec fn member_mods_written(
    lanes: Seq<LaneModel>,
    routes: Seq<MemberModRoute>,
    values: Seq<F32Bits>,
    n: nat,
) -> Seq<LaneModel>
    decreases n,
{
    if n == 0 {
        lanes
    } else {
        let before = member_mods_written(lanes, routes, values, (n - 1) as nat);
        let r = routes[n - 1];
        if r.lane < before.len() && r.mod_index < before[r.lane as int].modulators.len() {
            let l = before[r.lane as int];
            let m = l.modulators[r.mod_index as int];
            before.update(
                r.lane as int,
                LaneModel {
                    modulators: l.modulators.update(
                        r.mod_index as int,
                        field_written(m, r.field, values[n - 1]),
                    ),
                    ..l
                },
            )
        } else {
            before
        }
    }
}

/// The bus that takes a lane's output; `None` is the master.
pub open spec fn lane_bus(g: GraphModel, inst: int) -> Option<usize> {
    match g.lanes[inst].group {
        Some(b) if b < g.groups.len() => Some(b),
        _ => None,
    }
}

/// The first loaded instrument among the first `n` lanes.
pub open spec fn first_instrument(lanes: Seq<LaneModel>, n: nat) -> Option<PluginHandle>
    decreases n,
{
    if n == 0 {
        None
    } else {
        match first_instrument(lanes, (n - 1) as nat) {
            Some(p) => Some(p),
            None => lanes[n - 1].instrument,
        }
    }
}

/// The first bus effect among the first `n` groups.
pub open spec fn first_bus_effect(groups: Seq<GroupModel>, n: nat) -> Option<PluginHandle>
    decreases n,
{
    if n == 0 {
        None
    } else {
        match first_bus_effect(groups, (n - 1) as nat) {
            Some(p) => Some(p),
            None => if groups[n - 1].effects.len() > 0 {
                Some(groups[n - 1].effects[0])
            } else {
                None
            },
        }
    }
}

/// The sample rate of a graph: that of its first loaded plugin, instruments
/// before bus effects, or the default.
pub open spec fn graph_rate(g: GraphModel) -> F32Bits {
    match first_instrument(g.lanes, g.lanes.len()) {
        Some(p) => p.sample_rate,
        None => match first_bus_effect(g.groups, g.groups.len()) {
            Some(p) => p.sample_rate,
            None => F32Bits { bits: DEFAULT_SAMPLE_RATE },
        },
    }
}

/// The lanes once somebody listens for recordings.
pub open spec fn lanes_notifying(lanes: Seq<LaneModel>) -> Seq<LaneModel> {
    Seq::new(
        lanes.len(),
        |i: int|
            LaneModel {
                pattern: PlayerModel {
                    notifies: true,
                    inst_index: i as usize,
                    ..lanes[i].pattern
                },
                ..lanes[i]
            },
    )
}

impl AudioGraph {
    /// An empty graph.
    pub fn new(num_channels: usize) -> (g: Self)
        ensures
            g@ == (GraphModel {
                lanes: Seq::empty(),
                groups: Seq::empty(),
                num_channels,
                notifies: false,
            }),
            graph_valid(g@),
    {
        let g = AudioGraph {
            instruments: Vec::new(),
            groups: Vec::new(),
            num_channels,
            notifies: false,
        };
        assert(g@.lanes =~= Seq::empty());
        assert(g@.groups =~= Seq::empty());
        g
    }

    /// Number of output channels.
    pub fn num_channels(&self) -> (n: usize)
        ensures
            n == self@.num_channels,
    {
        self.num_channels
    }

    /// Start to report completed recordings, for lanes that are there and for
    /// those added later.
    pub fn set_pattern_tx(&mut self)
        ensures
            final(self)@ == (GraphModel {
                notifies: true,
                lanes: lanes_notifying(old(self)@.lanes),
                ..old(self)@
            }),
    {
        let ghost before = self.instruments@;
        let ghost old_graph = self@;
        self.notifies = true;
        let mut i: usize = 0;
        while i < self.instruments.len()
            invariant
                self.instruments.len() == before.len(),
                i <= self.instruments.len(),
                self@.groups == old_graph.groups,
                self@.num_channels == old_graph.num_channels,
                self@.notifies,
                forall|k: int|
                    0 <= k < i ==> #[trigger] self.instruments@[k]@ == lanes_notifying(
                        lane_list(before),
                    )[k],
                forall|k: int| i <= k < self.instruments.len() ==> self.instruments@[k] == before[k],
            decreases self.instruments.len() - i,
        {
            self.instruments[i].pattern.notifies = true;
            self.instruments[i].pattern.inst_index = i;
            i += 1;
        }
        assert(self@.lanes =~= lanes_notifying(lane_list(before)));
    }

    /// The sample rate, from the first loaded plugin.
    pub fn graph_sample_rate(&self) -> (rate: F32Bits)
        ensures
            rate == graph_rate(self@),
    {
        let ghost lanes = self@.lanes;
        let ghost groups = self@.groups;
        let mut found: Option<PluginHandle> = None;
        let mut i: usize = 0;
        while i < self.instruments.len()
            invariant
                lanes == self@.lanes,
                i <= self.instruments.len(),
                found == first_instrument(lanes, i as nat),
            decreases self.instruments.len() - i,
        {
            assert(lanes[i as int] == self.instruments@[i as int]@);
            if found.is_none() {
                found = self.instruments[i].instrument;
            }
            i += 1;
        }
        if let Some(p) = found {
            return p.sample_rate;
        }
        let mut effect: Option<PluginHandle> = None;
        let mut j: usize = 0;
        while j < self.groups.len()
            invariant
                groups == self@.groups,
                j <= self.groups.len(),
                effect == first_bus_effect(groups, j as nat),
            decreases self.groups.len() - j,
        {
            assert(groups[j as int] == self.groups@[j as int]@);
            if effect.is_none() && self.groups[j].effects.len() > 0 {
                effect = Some(self.groups[j].effects[0]);
            }
            j += 1;
        }
        match effect {
            Some(p) => p.sample_rate,
            None => F32Bits { bits: DEFAULT_SAMPLE_RATE },
        }
    }

    /// The bus that takes a lane's output; `None` is the master mix.
    pub fn lane_destination(&self, inst: usize) -> (bus: Option<usize>)
        requires
            inst < self@.lanes.len(),
        ensures
            bus == lane_bus(self@, inst as int),
    {
        assert(self@.lanes[inst as int] == self.instruments@[inst as int]@);
        match self.instruments[inst].group {
            Some(b) => if b < self.groups.len() {
                Some(b)
            } else {
                None
            },
            None => None,
        }
    }

    /// The plugin that owns a member or bus parameter.
    pub fn param_plugin(&self, dest: ParamDest) -> (plugin: Option<PluginHandle>)
        ensures
            plugin == dest_plugin(self@, dest),
    {
        match dest {
            ParamDest::Chain { .. } => None,
            ParamDest::Member { lane, slot, .. } => if lane < self.instruments.len() {
                assert(self@.lanes[lane as int] == self.instruments@[lane as int]@);
                self.instruments[lane].plugin_at(slot)
            } else {
                None
            },
            ParamDest::Bus { group, effect_index, .. } => if group < self.groups.len()
                && effect_index < self.groups[group].effects.len() {
                assert(self@.groups[group as int] == self.groups@[group as int]@);
                Some(self.groups[group].effects[effect_index])
            } else {
                None
            },
        }
    }

    /// The parameters that a group's modulators drive, each with the targets
    /// to sum.
    pub fn collect_group_mod_writes(&self, group: usize) -> (routes: GroupRoutes)
        requires
            group < self@.groups.len(),
        ensures
            ({
                let mods = self@.groups[group as int].modulators;
                &&& route_list(routes.members@) == rack_grouped(
                    mods,
                    member_reach(self@.lanes, group),
                    mods.len(),
                )
                &&& route_list(routes.bus@) == rack_grouped(mods, bus_reach(group), mods.len())
            }),
    {
        let ghost lanes = self@.lanes;
        let ghost mods = self@.groups[group as int].modulators;
        let ghost on_members = member_reach(lanes, group);
        let ghost on_bus = bus_reach(group);
        assert(mods == rack(self.groups@[group as int].modulators@));
        let mut members: Vec<ParamRoute> = Vec::new();
        let mut bus: Vec<ParamRoute> = Vec::new();
        let mut i: usize = 0;
        assert(route_list(members@) =~= rack_grouped(mods, on_members, 0));
        assert(route_list(bus@) =~= rack_grouped(mods, on_bus, 0));
        while i < self.groups[group].modulators.len()
            invariant
                group < self.groups.len(),
                lanes == self@.lanes,
                mods == rack(self.groups@[group as int].modulators@),
                on_members == member_reach(lanes, group),
                on_bus == bus_reach(group),
                i <= mods.len(),
                route_list(members@) == rack_grouped(mods, on_members, i as nat),
                route_list(bus@) == rack_grouped(mods, on_bus, i as nat),
            decreases mods.len() - i,
        {
            let ghost members_done = route_list(members@);
            let ghost bus_done = route_list(bus@);
            let mut j: usize = 0;
            while j < self.groups[group].modulators[i].targets.len()
                invariant
                    group < self.groups.len(),
                    lanes == self@.lanes,
                    mods == rack(self.groups@[group as int].modulators@),
                    on_members == member_reach(lanes, group),
                    on_bus == bus_reach(group),
                    i < mods.len(),
                    j <= mods[i as int].targets.len(),
                    route_list(members@) == targets_grouped(
                        members_done,
                        mods[i as int].targets,
                        i as int,
                        on_members,
                        j as nat,
                    ),
                    route_list(bus@) == targets_grouped(
                        bus_done,
                        mods[i as int].targets,
                        i as int,
                        on_bus,
                        j as nat,
                    ),
                decreases mods[i as int].targets.len() - j,
            {
                let c = Contribution { modulator: i, target: j };
                match self.groups[group].modulators[i].targets[j].kind {
                    ModTargetKind::GroupMember { member, slot, param_index } => {
                        if let Some(lane) = group_member_lane(&self.instruments, group, member) {
                            contribute(
                                &mut members,
                                ParamDest::Member { lane, slot, param_index },
                                c,
                            );
                        }
                    },
                    ModTargetKind::GroupBus { effect_index, param_index } => {
                        contribute(&mut bus, ParamDest::Bus { group, effect_index, param_index }, c);
                    },
                    _ => {},
                }
                j += 1;
            }
            i += 1;
        }
        GroupRoutes { members, bus }
    }

    /// The connections from group modulators into member lanes' modulators, in
    /// the order in which their values are written.
    pub fn collect_group_member_mod_writes(&self) -> (routes: Vec<MemberModRoute>)
        ensures
            routes@ == member_mod_routes(self@.lanes, self@.groups, self@.groups.len()),
    {
        let ghost lanes = self@.lanes;
        let ghost groups = self@.groups;
        let mut routes: Vec<MemberModRoute> = Vec::new();
        let mut g: usize = 0;
        while g < self.groups.len()
            invariant
                lanes == self@.lanes,
                groups == self@.groups,
                g <= self.groups.len(),
                routes@ == member_mod_routes(lanes, groups, g as nat),
            decreases self.groups.len() - g,
        {
            let ghost outer = routes@;
            let ghost mods = groups[g as int].modulators;
            assert(mods == rack(self.groups@[g as int].modulators@));
            let mut i: usize = 0;
            while i < self.groups[g].modulators.len()
                invariant
                    lanes == self@.lanes,
                    g < self.groups.len(),
                    mods == rack(self.groups@[g as int].modulators@),
                    i <= mods.len(),
                    routes@ == outer + rack_member_routes(lanes, g as int, mods, i as nat),
                decreases mods.len() - i,
            {
                let ghost inner = routes@;
                let mut j: usize = 0;
                while j < self.groups[g].modulators[i].targets.len()
                    invariant
                        lanes == self@.lanes,
                        g < self.groups.len(),
                        mods == rack(self.groups@[g as int].modulators@),
                        i < mods.len(),
                        j <= mods[i as int].targets.len(),
                        routes@ == inner + target_member_routes(
                            lanes,
                            g as int,
                            mods[i as int].targets,
                            i as int,
                            j as nat,
                        ),
                    decreases mods[i as int].targets.len() - j,
                {
                    if let ModTargetKind::GroupMemberMod { member, mod_index, field } =
                        self.groups[g].modulators[i].targets[j].kind {
                        if let Some(lane) = group_member_lane(&self.instruments, g, member) {
                            routes.push(
                                MemberModRoute {
                                    group: g,
                                    modulator: i,
                                    target: j,
                                    lane,
                                    mod_index,
                                    field,
                                },
                            );
                        }
                    }
                    j += 1;
                }
                i += 1;
            }
            g += 1;
        }
        routes
    }

    /// Write one value per route of `collect_group_member_mod_writes` into the
    /// member lanes' modulators.
    pub fn apply_group_member_mod_writes(&mut self, values: &Vec<F32Bits>)
        requires
            values.len() == member_mod_routes(
                old(self)@.lanes,
                old(self)@.groups,
                old(self)@.groups.len(),
            ).len(),
        ensures
            ({
                let g = old(self)@;
                let routes = member_mod_routes(g.lanes, g.groups, g.groups.len());
                final(self)@ == (GraphModel {
                    lanes: member_mods_written(g.lanes, routes, values@, values@.len()),
                    ..g
                })
            }),
    {
        let ghost before = self@;
        let routes = self.collect_group_member_mod_writes();
        let mut n: usize = 0;
        while n < routes.len()
            invariant
                n <= routes.len(),
                routes.len() == values.len(),
                self@ == (GraphModel {
                    lanes: member_mods_written(before.lanes, routes@, values@, n as nat),
                    ..before
                }),
            decreases routes.len() - n,
        {
            let ghost lanes = self@.lanes;
            let r = routes[n];
            if r.lane < self.instruments.len() && r.mod_index
                < self.instruments[r.lane].modulators.len() {
                let ghost l = lanes[r.lane as int];
                assert(l == self.instruments@[r.lane as int]@);
                let ghost m = l.modulators[r.mod_index as int];
                apply_cross_mod_field(
                    &mut self.instruments[r.lane].modulators[r.mod_index],
                    r.field,
                    values[n],
                );
                assert(self.instruments@[r.lane as int]@.modulators =~= l.modulators.update(
                    r.mod_index as int,
                    field_written(m, r.field, values@[n as int]),
                ));
                assert(self@.lanes =~= member_mods_written(
                    before.lanes,
                    routes@,
                    values@,
                    (n + 1) as nat,
                ));
            }
            n += 1;
        }
    }

    /// Let a group's envelopes see the notes that its members play.
    pub fn track_group_notes(&mut self, group: usize, midi: &[MidiEvent])
        requires
            group < old(self)@.groups.len(),
        ensures
            ({
                let g = old(self)@;
                let b = g.groups[group as int];
                final(self)@ == (GraphModel {
                    groups: g.groups.update(
                        group as int,
                        GroupModel {
                            modulators: crate::rack::rack_tracked(
                                b.modulators,
                                group_heard(g.lanes, group, midi@),
                            ),
                            ..b
                        },
                    ),
                    ..g
                })
            }),
    {
        let ghost before = self@;
        assert(before.groups[group as int] == self.groups@[group as int]@);
        let heard = build_group_midi(&self.instruments, group, midi);
        track_rack_notes(&mut self.groups[group].modulators, heard.as_slice());
        assert(self@.groups =~= before.groups.update(
            group as int,
            self.groups@[group as int]@,
        ));
    }
}

} // verus!
