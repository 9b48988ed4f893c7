//! Where modulation goes: between siblings, into members' modulators and onto
//! plugin parameters.

use vstd::prelude::*;

use crate::bus::GroupModel;
use crate::graph::{
    bus_reach, dest_plugin, first_bus_effect, first_instrument, graph_rate, lane_bus, member_lane,
    member_mod_routes, member_mods_written, member_reach, members_before, rack_member_routes,
    target_member_routes, GraphModel, MemberModRoute,
};
use crate::lane::LaneModel;
use crate::modulation::{CrossModField, ModTarget, ModTargetKind, ModulatorModel};
use crate::modulator_laws::{field_value, same_besides_fields, sibling_driven, writes_reach_one_field};
use crate::rack::{cross_mod_written, rack_cross_routes, target_cross_routes, CrossModRoute};
use crate::routes::{
    chain_reach, found_route, rack_grouped, route_index, targets_grouped, Contribution, ParamDest,
    ParamRouteModel,
};
use crate::scalar::F32Bits;

verus! {

// ---------------------------------------------------------------------------
// Siblings
// ---------------------------------------------------------------------------

/// A route says what its target drives, and it does not lead back to its own
/// modulator.
pub open spec fn route_is_driven(mods: Seq<ModulatorModel>, r: CrossModRoute) -> bool {
    &&& r.source < mods.len()
    &&& r.target < mods[r.source as int].targets.len()
    &&& sibling_driven(mods[r.source as int].targets[r.target as int].kind) == Some(
        (r.mod_index, r.field),
    )
    &&& r.mod_index != r.source
}

/// One route comes before another: by modulator, then by target.
pub open spec fn route_precedes(a: CrossModRoute, b: CrossModRoute) -> bool {
    a.source < b.source || (a.source == b.source && a.target < b.target)
}

proof fn target_routes_listed(mods: Seq<ModulatorModel>, i: int, n: nat, j: int)
    requires
        0 <= i < mods.len() <= usize::MAX,
        n <= mods[i].targets.len() <= usize::MAX,
    ensures
        ({
            let routes = target_cross_routes(mods[i].targets, i, n);
            &&& forall|k: int|
                0 <= k < routes.len() ==> route_is_driven(mods, #[trigger] routes[k])
                    && routes[k].source == i && routes[k].target < n
            &&& forall|a: int, b: int|
                0 <= a < b < routes.len() ==> route_precedes(
                    #[trigger] routes[a],
                    #[trigger] routes[b],
                )
            &&& 0 <= j < n && (sibling_driven(mods[i].targets[j].kind) matches Some((m, f))
                && m != i) ==> exists|k: int|
                0 <= k < routes.len() && (#[trigger] routes[k]).source == i && routes[k].target == j
        }),
    decreases n,
{
    if n > 0 {
        target_routes_listed(mods, i, (n - 1) as nat, j);
        let rest = target_cross_routes(mods[i].targets, i, (n - 1) as nat);
        let routes = target_cross_routes(mods[i].targets, i, n);
        if 0 <= j < n && (sibling_driven(mods[i].targets[j].kind) matches Some((m, f)) && m != i) {
            if j < n - 1 {
                let k = choose|k: int|
                    0 <= k < rest.len() && (#[trigger] rest[k]).source == i && rest[k].target == j;
                assert(routes[k] == rest[k]);
            } else {
                assert(routes[routes.len() - 1].target == j);
            }
        }
    }
}

proof fn rack_routes_listed(mods: Seq<ModulatorModel>, n: nat, i: int, j: int)
    requires
        n <= mods.len() <= usize::MAX,
        forall|k: int|
            0 <= k < mods.len() ==> (#[trigger] mods[k]).targets.len() <= usize::MAX,
    ensures
        ({
            let routes = rack_cross_routes(mods, n);
            &&& forall|k: int|
                0 <= k < routes.len() ==> route_is_driven(mods, #[trigger] routes[k])
                    && routes[k].source < n
            &&& forall|a: int, b: int|
                0 <= a < b < routes.len() ==> route_precedes(
                    #[trigger] routes[a],
                    #[trigger] routes[b],
                )
            &&& 0 <= i < n && 0 <= j < mods[i].targets.len() && (sibling_driven(
                mods[i].targets[j].kind,
            ) matches Some((m, f)) && m != i) ==> exists|k: int|
                0 <= k < routes.len() && (#[trigger] routes[k]).source == i && routes[k].target == j
        }),
    decreases n,
{
    if n > 0 {
        rack_routes_listed(mods, (n - 1) as nat, i, j);
        assert(mods[n - 1].targets.len() <= usize::MAX);
        target_routes_listed(mods, n - 1, mods[n - 1].targets.len(), j);
        let rest = rack_cross_routes(mods, (n - 1) as nat);
        let more = target_cross_routes(mods[n - 1].targets, n - 1, mods[n - 1].targets.len());
        let routes = rack_cross_routes(mods, n);
        if 0 <= i < n && 0 <= j < mods[i].targets.len() && (sibling_driven(
            mods[i].targets[j].kind,
        ) matches Some((m, f)) && m != i) {
            if i < n - 1 {
                let k = choose|k: int|
                    0 <= k < rest.len() && (#[trigger] rest[k]).source == i && rest[k].target == j;
                assert(routes[k] == rest[k]);
            } else {
                let k = choose|k: int|
                    0 <= k < more.len() && (#[trigger] more[k]).source == i && more[k].target == j;
                assert(routes[rest.len() + k] == more[k]);
            }
        }
    }
}

/// The routes between siblings are exactly the targets that drive a field of
/// another modulator of the rack, in the order of modulators and targets.
pub proof fn sibling_routes_are_the_cross_targets(
    mods: Seq<ModulatorModel>,
    i: int,
    j: int,
    a: int,
    b: int,
)
    requires
        mods.len() <= usize::MAX,
        forall|k: int|
            0 <= k < mods.len() ==> (#[trigger] mods[k]).targets.len() <= usize::MAX,
    ensures
        ({
            let routes = rack_cross_routes(mods, mods.len());
            &&& 0 <= a < routes.len() ==> route_is_driven(mods, routes[a])
            &&& 0 <= a < b < routes.len() ==> route_precedes(routes[a], routes[b])
            &&& 0 <= i < mods.len() && 0 <= j < mods[i].targets.len() && (sibling_driven(
                mods[i].targets[j].kind,
            ) matches Some((m, f)) && m != i) ==> exists|k: int|
                0 <= k < routes.len() && (#[trigger] routes[k]).source == i && routes[k].target == j
        }),
{
    rack_routes_listed(mods, mods.len(), i, j);
}

/// A field of a modulator ends up with the last value that is routed to it, if
/// the modulator has that field; without a route it is left, and so is all that
/// is not a field.
pub proof fn routed_values_are_written(
    mods: Seq<ModulatorModel>,
    routes: Seq<CrossModRoute>,
    values: Seq<F32Bits>,
    n: nat,
    m: int,
    field: CrossModField,
    last: int,
)
    requires
        n <= routes.len(),
        0 <= m < mods.len(),
    ensures
        ({
            let after = cross_mod_written(mods, routes, values, n);
            let writes = |k: int| routes[k].mod_index == m && routes[k].field == field;
            &&& after.len() == mods.len()
            &&& same_besides_fields(mods[m], after[m])
            &&& (field_value(mods[m], field) is Some) == (field_value(after[m], field) is Some)
            &&& 0 <= last < n && writes(last) && (forall|k: int|
                last < k < n ==> !#[trigger] writes(k)) && field_value(mods[m], field) is Some
                ==> field_value(after[m], field) == Some(values[last])
            &&& (forall|k: int| 0 <= k < n ==> !#[trigger] writes(k)) ==> field_value(
                after[m],
                field,
            ) == field_value(mods[m], field)
        }),
    decreases n,
{
    let writes = |k: int| routes[k].mod_index == m && routes[k].field == field;
    if n > 0 {
        routed_values_are_written(mods, routes, values, (n - 1) as nat, m, field, last);
        let before = cross_mod_written(mods, routes, values, (n - 1) as nat);
        let r = routes[n - 1];
        assert(writes(n - 1) == (r.mod_index == m && r.field == field));
        if r.mod_index < before.len() {
            writes_reach_one_field(before[r.mod_index as int], r.field, values[n - 1], field);
        }
    }
}

// ---------------------------------------------------------------------------
// Members
// ---------------------------------------------------------------------------

/// The lanes of a group.
pub open spec fn lanes_of(lanes: Seq<LaneModel>, group: usize) -> Seq<LaneModel> {
    lanes.filter(|l: LaneModel| l.group == Some(group))
}

/// The members before a lane are counted: there are as many as lanes of the group
/// before it.
pub proof fn members_are_counted(lanes: Seq<LaneModel>, group: usize, n: int)
    requires
        0 <= n <= lanes.len(),
    ensures
        members_before(lanes, group, n) == lanes_of(lanes.take(n), group).len(),
    decreases n,
{
    reveal(Seq::filter);
    if n > 0 {
        members_are_counted(lanes, group, n - 1);
        assert(lanes.take(n).drop_last() =~= lanes.take(n - 1));
    }
}

/// A member ordinal names the lane of the group with that many members before
/// it, and none if there are too few.
pub proof fn ordinals_count_members(
    lanes: Seq<LaneModel>,
    group: usize,
    member: usize,
    i: int,
    n: int,
)
    requires
        0 <= n <= lanes.len() <= usize::MAX,
    ensures
        member_lane(lanes, group, member, n) matches Some(lane) ==> {
            &&& lane < n
            &&& lanes[lane as int].group == Some(group)
            &&& lanes_of(lanes.take(lane as int), group).len() == member
        },
        member_lane(lanes, group, member, n) is None && 0 <= i < n && lanes[i].group == Some(group)
            ==> lanes_of(lanes.take(i), group).len() != member,
    decreases n,
{
    if n > 0 {
        ordinals_count_members(lanes, group, member, i, n - 1);
        members_are_counted(lanes, group, n - 1);
    }
}

/// A route into a member's modulator says what its target drives, on the lane of
/// the member that the target names.
pub open spec fn member_route_is_driven(
    lanes: Seq<LaneModel>,
    groups: Seq<GroupModel>,
    r: MemberModRoute,
) -> bool {
    &&& r.group < groups.len()
    &&& r.modulator < groups[r.group as int].modulators.len()
    &&& r.target < groups[r.group as int].modulators[r.modulator as int].targets.len()
    &&& groups[r.group as int].modulators[r.modulator as int].targets[r.target as int].kind
        matches ModTargetKind::GroupMemberMod { member, mod_index, field } && {
        &&& mod_index == r.mod_index
        &&& field == r.field
        &&& member_lane(lanes, r.group, member, lanes.len() as int) == Some(r.lane)
    }
}

/// One route comes before another: by group, then modulator, then target.
pub open spec fn member_route_precedes(a: MemberModRoute, b: MemberModRoute) -> bool {
    ||| a.group < b.group
    ||| a.group == b.group && a.modulator < b.modulator
    ||| a.group == b.group && a.modulator == b.modulator && a.target < b.target
}

/// The route of one target.
pub open spec fn is_route_of(r: MemberModRoute, g: int, i: int, j: int) -> bool {
    r.group == g && r.modulator == i && r.target == j
}

/// A target that drives a modulator of a member who is there.
pub open spec fn drives_member(
    lanes: Seq<LaneModel>,
    group: int,
    t: ModTarget,
) -> bool {
    t.kind matches ModTargetKind::GroupMemberMod { member, .. } && member_lane(
        lanes,
        group as usize,
        member,
        lanes.len() as int,
    ) is Some
}

/// Every length is one that a machine can hold.
pub open spec fn lengths_fit(groups: Seq<GroupModel>) -> bool {
    &&& groups.len() <= usize::MAX
    &&& forall|g: int|
        0 <= g < groups.len() ==> (#[trigger] groups[g]).modulators.len() <= usize::MAX
    &&& forall|g: int, i: int|
        0 <= g < groups.len() && 0 <= i < groups[g].modulators.len() ==> (
        #[trigger] groups[g].modulators[i]).targets.len() <= usize::MAX
}

proof fn target_member_routes_listed(
    lanes: Seq<LaneModel>,
    groups: Seq<GroupModel>,
    g: int,
    i: int,
    n: nat,
    j: int,
)
    requires
        lengths_fit(groups),
        0 <= g < groups.len(),
        0 <= i < groups[g].modulators.len(),
        n <= groups[g].modulators[i].targets.len(),
    ensures
        ({
            let targets = groups[g].modulators[i].targets;
            let routes = target_member_routes(lanes, g, targets, i, n);
            &&& forall|k: int|
                0 <= k < routes.len() ==> member_route_is_driven(lanes, groups, #[trigger] routes[k])
                    && routes[k].group == g && routes[k].modulator == i && routes[k].target < n
            &&& forall|a: int, b: int|
                0 <= a < b < routes.len() ==> member_route_precedes(
                    #[trigger] routes[a],
                    #[trigger] routes[b],
                )
            &&& 0 <= j < n && drives_member(lanes, g, targets[j]) ==> exists|k: int|
                0 <= k < routes.len() && is_route_of(#[trigger] routes[k], g, i, j)
        }),
    decreases n,
{
    let targets = groups[g].modulators[i].targets;
    assert(groups[g].modulators.len() <= usize::MAX);
    assert(groups[g].modulators[i].targets.len() <= usize::MAX);
    if n > 0 {
        target_member_routes_listed(lanes, groups, g, i, (n - 1) as nat, j);
        let rest = target_member_routes(lanes, g, targets, i, (n - 1) as nat);
        let routes = target_member_routes(lanes, g, targets, i, n);
        if 0 <= j < n && drives_member(lanes, g, targets[j]) {
            if j < n - 1 {
                let k = choose|k: int|
                    0 <= k < rest.len() && is_route_of(#[trigger] rest[k], g, i, j);
                assert(routes[k] == rest[k]);
            } else {
                assert(is_route_of(routes[routes.len() - 1], g, i, j));
            }
        }
    }
}

proof fn rack_member_routes_listed(
    lanes: Seq<LaneModel>,
    groups: Seq<GroupModel>,
    g: int,
    n: nat,
    i: int,
    j: int,
)
    requires
        lengths_fit(groups),
        0 <= g < groups.len(),
        n <= groups[g].modulators.len(),
    ensures
        ({
            let mods = groups[g].modulators;
            let routes = rack_member_routes(lanes, g, mods, n);
            &&& forall|k: int|
                0 <= k < routes.len() ==> member_route_is_driven(lanes, groups, #[trigger] routes[k])
                    && routes[k].group == g && routes[k].modulator < n
            &&& forall|a: int, b: int|
                0 <= a < b < routes.len() ==> member_route_precedes(
                    #[trigger] routes[a],
                    #[trigger] routes[b],
                )
            &&& 0 <= i < n && 0 <= j < mods[i].targets.len() && drives_member(
                lanes,
                g,
                mods[i].targets[j],
            ) ==> exists|k: int|
                0 <= k < routes.len() && is_route_of(#[trigger] routes[k], g, i, j)
        }),
    decreases n,
{
    let mods = groups[g].modulators;
    if n > 0 {
        rack_member_routes_listed(lanes, groups, g, (n - 1) as nat, i, j);
        target_member_routes_listed(lanes, groups, g, n - 1, mods[n - 1].targets.len(), j);
        let rest = rack_member_routes(lanes, g, mods, (n - 1) as nat);
        let more = target_member_routes(
            lanes,
            g,
            mods[n - 1].targets,
            n - 1,
            mods[n - 1].targets.len(),
        );
        let routes = rack_member_routes(lanes, g, mods, n);
        if 0 <= i < n && 0 <= j < mods[i].targets.len() && drives_member(
            lanes,
            g,
            mods[i].targets[j],
        ) {
            if i < n - 1 {
                let k = choose|k: int|
                    0 <= k < rest.len() && is_route_of(#[trigger] rest[k], g, i, j);
                assert(routes[k] == rest[k]);
            } else {
                let k = choose|k: int|
                    0 <= k < more.len() && is_route_of(#[trigger] more[k], g, i, j);
                assert(routes[rest.len() + k] == more[k]);
            }
        }
    }
}

/// The routes from groups into their members' modulators are exactly the group
/// targets on a modulator of a member who is there, in the order of groups,
/// modulators and targets.
pub proof fn member_routes_are_the_member_targets(
    lanes: Seq<LaneModel>,
    groups: Seq<GroupModel>,
    n: nat,
    g: int,
    i: int,
    j: int,
)
    requires
        lengths_fit(groups),
        n <= groups.len(),
    ensures
        ({
            let routes = member_mod_routes(lanes, groups, n);
            &&& forall|k: int|
                0 <= k < routes.len() ==> member_route_is_driven(lanes, groups, #[trigger] routes[k])
                    && routes[k].group < n
            &&& forall|a: int, b: int|
                0 <= a < b < routes.len() ==> member_route_precedes(
                    #[trigger] routes[a],
                    #[trigger] routes[b],
                )
            &&& 0 <= g < n && 0 <= i < groups[g].modulators.len() && 0 <= j
                < groups[g].modulators[i].targets.len() && drives_member(
                lanes,
                g,
                groups[g].modulators[i].targets[j],
            ) ==> exists|k: int|
                0 <= k < routes.len() && is_route_of(#[trigger] routes[k], g, i, j)
        }),
    decreases n,
{
    if n > 0 {
        member_routes_are_the_member_targets(lanes, groups, (n - 1) as nat, g, i, j);
        let mods = groups[n - 1].modulators;
        rack_member_routes_listed(lanes, groups, n - 1, mods.len(), i, j);
        let rest = member_mod_routes(lanes, groups, (n - 1) as nat);
        let more = rack_member_routes(lanes, n - 1, mods, mods.len());
        let routes = member_mod_routes(lanes, groups, n);
        if 0 <= g < n && 0 <= i < groups[g].modulators.len() && 0 <= j
            < groups[g].modulators[i].targets.len() && drives_member(
            lanes,
            g,
            groups[g].modulators[i].targets[j],
        ) {
            if g < n - 1 {
                let k = choose|k: int|
                    0 <= k < rest.len() && is_route_of(#[trigger] rest[k], g, i, j);
                assert(routes[k] == rest[k]);
            } else {
                let k = choose|k: int|
                    0 <= k < more.len() && is_route_of(#[trigger] more[k], g, i, j);
                assert(routes[rest.len() + k] == more[k]);
            }
        }
    }
}

/// A field of a member's modulator ends up with the last value that is routed to
/// it, if the modulator has that field; without a route it is left. All else of
/// the lanes is left.
pub proof fn member_values_are_written(
    lanes: Seq<LaneModel>,
    routes: Seq<MemberModRoute>,
    values: Seq<F32Bits>,
    n: nat,
    lane: int,
    m: int,
    field: CrossModField,
    last: int,
)
    requires
        n <= routes.len(),
        0 <= lane < lanes.len(),
        0 <= m < lanes[lane].modulators.len(),
    ensures
        ({
            let after = member_mods_written(lanes, routes, values, n);
            let writes = |k: int|
                routes[k].lane == lane && routes[k].mod_index == m && routes[k].field == field;
            &&& after.len() == lanes.len()
            &&& after[lane] == (LaneModel { modulators: after[lane].modulators, ..lanes[lane] })
            &&& after[lane].modulators.len() == lanes[lane].modulators.len()
            &&& same_besides_fields(lanes[lane].modulators[m], after[lane].modulators[m])
            &&& (field_value(lanes[lane].modulators[m], field) is Some) == (field_value(
                after[lane].modulators[m],
                field,
            ) is Some)
            &&& 0 <= last < n && writes(last) && (forall|k: int|
                last < k < n ==> !#[trigger] writes(k)) && field_value(
                lanes[lane].modulators[m],
                field,
            ) is Some ==> field_value(after[lane].modulators[m], field) == Some(values[last])
            &&& (forall|k: int| 0 <= k < n ==> !#[trigger] writes(k)) ==> field_value(
                after[lane].modulators[m],
                field,
            ) == field_value(lanes[lane].modulators[m], field)
        }),
    decreases n,
{
    let writes = |k: int|
        routes[k].lane == lane && routes[k].mod_index == m && routes[k].field == field;
    if n > 0 {
        member_values_are_written(lanes, routes, values, (n - 1) as nat, lane, m, field, last);
        let before = member_mods_written(lanes, routes, values, (n - 1) as nat);
        let r = routes[n - 1];
        assert(writes(n - 1) == (r.lane == lane && r.mod_index == m && r.field == field));
        if r.lane < before.len() && r.mod_index < before[r.lane as int].modulators.len() {
            writes_reach_one_field(
                before[r.lane as int].modulators[r.mod_index as int],
                r.field,
                values[n - 1],
                field,
            );
        }
    }
}

// ---------------------------------------------------------------------------
// Parameters
// ---------------------------------------------------------------------------

/// What targets reach: a lane's own target its own chain, a group's member target
/// the chain of the member's lane, a group's bus target its own bus; nothing
/// else, and nothing on a member who is not there.
pub proof fn targets_reach_what_they_name(
    lanes: Seq<LaneModel>,
    group: usize,
    kind: ModTargetKind,
)
    ensures
        chain_reach()(kind) == (if let ModTargetKind::PluginParam { slot, param_index } = kind {
            Some(ParamDest::Chain { slot, param_index })
        } else {
            None
        }),
        bus_reach(group)(kind) == (if let ModTargetKind::GroupBus { effect_index, param_index } =
            kind {
            Some(ParamDest::Bus { group, effect_index, param_index })
        } else {
            None
        }),
        match (kind, member_reach(lanes, group)(kind)) {
            (
                ModTargetKind::GroupMember { member, slot, param_index },
                Some(ParamDest::Member { lane, slot: s, param_index: p }),
            ) => s == slot && p == param_index && member_lane(
                lanes,
                group,
                member,
                lanes.len() as int,
            ) == Some(lane),
            (ModTargetKind::GroupMember { member, .. }, None) => member_lane(
                lanes,
                group,
                member,
                lanes.len() as int,
            ) is None,
            (ModTargetKind::GroupMember { .. }, _) => false,
            (_, r) => r is None,
        },
{
}

/// The contributions to a parameter are targets that reach it, each once and in
/// the order of modulators and targets.
pub open spec fn contributions_sound(
    mods: Seq<ModulatorModel>,
    reach: spec_fn(ModTargetKind) -> Option<ParamDest>,
    routes: Seq<ParamRouteModel>,
    n: int,
    t: int,
) -> bool {
    &&& forall|r: int, k: int|
        0 <= r < routes.len() && 0 <= k < routes[r].contributions.len() ==> {
            let c = #[trigger] routes[r].contributions[k];
            &&& (c.modulator < n || (c.modulator == n && c.target < t))
            &&& c.modulator < mods.len()
            &&& c.target < mods[c.modulator as int].targets.len()
            &&& reach(mods[c.modulator as int].targets[c.target as int].kind) == Some(
                routes[r].dest,
            )
        }
    &&& forall|r: int, a: int, b: int|
        0 <= r < routes.len() && 0 <= a < b < routes[r].contributions.len() ==> {
            let (c, d) = (
                #[trigger] routes[r].contributions[a],
                #[trigger] routes[r].contributions[b],
            );
            c.modulator < d.modulator || (c.modulator == d.modulator && c.target < d.target)
        }
}

proof fn grouped_targets_sound(
    mods: Seq<ModulatorModel>,
    reach: spec_fn(ModTargetKind) -> Option<ParamDest>,
    routes: Seq<ParamRouteModel>,
    i: int,
    n: nat,
)
    requires
        0 <= i < mods.len() <= usize::MAX,
        n <= mods[i].targets.len() <= usize::MAX,
        contributions_sound(mods, reach, routes, i, 0),
    ensures
        contributions_sound(
            mods,
            reach,
            targets_grouped(routes, mods[i].targets, i, reach, n),
            i,
            n as int,
        ),
    decreases n,
{
    if n > 0 {
        grouped_targets_sound(mods, reach, routes, i, (n - 1) as nat);
        let rest = targets_grouped(routes, mods[i].targets, i, reach, (n - 1) as nat);
        let out = targets_grouped(routes, mods[i].targets, i, reach, n);
        if let Some(dest) = reach(mods[i].targets[n - 1].kind) {
            found_route(rest, dest, rest.len());
            let at = route_index(rest, dest, rest.len()) as int;
            let new = Contribution { modulator: i as usize, target: (n - 1) as usize };
            assert forall|r: int, k: int|
                0 <= r < out.len() && 0 <= k < out[r].contributions.len() implies {
                let c = #[trigger] out[r].contributions[k];
                &&& (c.modulator < i || (c.modulator == i && c.target < n))
                &&& c.modulator < mods.len()
                &&& c.target < mods[c.modulator as int].targets.len()
                &&& reach(mods[c.modulator as int].targets[c.target as int].kind) == Some(
                    out[r].dest,
                )
            } by {
                if r == at && (at >= rest.len() || k == rest[at].contributions.len()) {
                    assert(out[r].contributions[k] == new);
                } else {
                    assert(out[r].contributions[k] == rest[r].contributions[k]);
                }
            }
            assert forall|r: int, a: int, b: int|
                0 <= r < out.len() && 0 <= a < b < out[r].contributions.len() implies {
                let (c, d) = (
                    #[trigger] out[r].contributions[a],
                    #[trigger] out[r].contributions[b],
                );
                c.modulator < d.modulator || (c.modulator == d.modulator && c.target < d.target)
            } by {
                assert(out[r].contributions[a] == rest[r].contributions[a]);
                if r == at && b == rest[at].contributions.len() {
                    assert(out[r].contributions[b] == new);
                } else {
                    assert(out[r].contributions[b] == rest[r].contributions[b]);
                }
            }
        }
    }
}

/// Only targets that reach a parameter contribute to it, each once, in the order
/// of modulators and targets.
pub proof fn only_reaching_targets_contribute(
    mods: Seq<ModulatorModel>,
    reach: spec_fn(ModTargetKind) -> Option<ParamDest>,
    n: nat,
)
    requires
        n <= mods.len() <= usize::MAX,
        forall|k: int|
            0 <= k < mods.len() ==> (#[trigger] mods[k]).targets.len() <= usize::MAX,
    ensures
        contributions_sound(mods, reach, rack_grouped(mods, reach, n), n as int, 0),
    decreases n,
{
    if n > 0 {
        only_reaching_targets_contribute(mods, reach, (n - 1) as nat);
        assert(mods[n - 1].targets.len() <= usize::MAX);
        let rest = rack_grouped(mods, reach, (n - 1) as nat);
        grouped_targets_sound(mods, reach, rest, n - 1, mods[n - 1].targets.len());
        let out = rack_grouped(mods, reach, n);
        assert forall|r: int, k: int|
            0 <= r < out.len() && 0 <= k < out[r].contributions.len() implies {
            let c = #[trigger] out[r].contributions[k];
            &&& (c.modulator < n || (c.modulator == n && c.target < 0))
            &&& c.modulator < mods.len()
            &&& c.target < mods[c.modulator as int].targets.len()
            &&& reach(mods[c.modulator as int].targets[c.target as int].kind) == Some(out[r].dest)
        } by {
            let c = out[r].contributions[k];
            assert(c.modulator < n - 1 || (c.modulator == n - 1 && c.target
                < mods[n - 1].targets.len()));
        }
    }
}

/// A parameter belongs to the plugin that holds it: a member's to the plugin in
/// that slot of the lane, a bus parameter to that effect of the group. A lane goes
/// to the bus of its group if there is one.
pub proof fn parameters_belong_to_their_plugin(g: GraphModel, dest: ParamDest, inst: int)
    requires
        0 <= inst < g.lanes.len(),
    ensures
        match dest {
            ParamDest::Chain { .. } => dest_plugin(g, dest) is None,
            ParamDest::Member { lane, slot, .. } => {
                &&& lane >= g.lanes.len() ==> dest_plugin(g, dest) is None
                &&& lane < g.lanes.len() && slot == 0 ==> dest_plugin(g, dest)
                    == g.lanes[lane as int].instrument
                &&& lane < g.lanes.len() && 0 < slot <= g.lanes[lane as int].effects.len()
                    ==> dest_plugin(g, dest) == Some(g.lanes[lane as int].effects[slot - 1])
                &&& lane < g.lanes.len() && slot > g.lanes[lane as int].effects.len() && slot > 0
                    ==> dest_plugin(g, dest) is None
            },
            ParamDest::Bus { group, effect_index, .. } => if group < g.groups.len()
                && effect_index < g.groups[group as int].effects.len() {
                dest_plugin(g, dest) == Some(g.groups[group as int].effects[effect_index as int])
            } else {
                dest_plugin(g, dest) is None
            },
        },
        lane_bus(g, inst) is None <==> !(g.lanes[inst].group matches Some(b) && b < g.groups.len()),
        lane_bus(g, inst) is Some ==> lane_bus(g, inst) == g.lanes[inst].group,
{
}

proof fn first_instrument_found(lanes: Seq<LaneModel>, n: nat, i: int)
    requires
        n <= lanes.len(),
    ensures
        0 <= i < n && lanes[i].instrument is Some && (forall|k: int|
            0 <= k < i ==> (#[trigger] lanes[k]).instrument is None) ==> first_instrument(lanes, n)
            == lanes[i].instrument,
        (forall|k: int| 0 <= k < n ==> (#[trigger] lanes[k]).instrument is None)
            ==> first_instrument(lanes, n) is None,
    decreases n,
{
    if n > 0 {
        first_instrument_found(lanes, (n - 1) as nat, i);
    }
}

proof fn first_effect_found(groups: Seq<GroupModel>, n: nat, i: int)
    requires
        n <= groups.len(),
    ensures
        0 <= i < n && groups[i].effects.len() > 0 && (forall|k: int|
            0 <= k < i ==> (#[trigger] groups[k]).effects.len() == 0) ==> first_bus_effect(
            groups,
            n,
        ) == Some(groups[i].effects[0]),
        (forall|k: int| 0 <= k < n ==> (#[trigger] groups[k]).effects.len() == 0)
            ==> first_bus_effect(groups, n) is None,
    decreases n,
{
    if n > 0 {
        first_effect_found(groups, (n - 1) as nat, i);
    }
}

/// A graph runs at the rate of its first instrument; without any, at that of the
/// first effect of the first bus that has one; without any plugin, at 48000.
pub proof fn graphs_run_at_the_first_rate(g: GraphModel, i: int)
    ensures
        ({
            let no_instrument = forall|k: int|
                0 <= k < g.lanes.len() ==> (#[trigger] g.lanes[k]).instrument is None;
            &&& 0 <= i < g.lanes.len() && g.lanes[i].instrument is Some && (forall|k: int|
                0 <= k < i ==> (#[trigger] g.lanes[k]).instrument is None) ==> graph_rate(g)
                == (g.lanes[i].instrument->0).sample_rate
            &&& no_instrument && 0 <= i < g.groups.len() && g.groups[i].effects.len() > 0 && (
            forall|k: int| 0 <= k < i ==> (#[trigger] g.groups[k]).effects.len() == 0)
                ==> graph_rate(g) == g.groups[i].effects[0].sample_rate
            &&& no_instrument && (forall|k: int|
                0 <= k < g.groups.len() ==> (#[trigger] g.groups[k]).effects.len() == 0)
                ==> graph_rate(g).bits == 0x473b_8000
        }),
{
    first_instrument_found(g.lanes, g.lanes.len(), i);
    first_effect_found(g.groups, g.groups.len(), i);
}

} // verus!
