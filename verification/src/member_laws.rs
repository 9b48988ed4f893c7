//! Group modulation targets stay on their members.

use vstd::prelude::*;

use crate::command::{lane_grouped, lanes_reindexed};
use crate::graph::{member_lane, members_before, membership, ordinals_name_lanes};
use crate::lane::LaneModel;
use crate::modulation::{index_after_insert, index_after_remove};

verus! {

/// One if a lane is a member of a group, else zero.
pub open spec fn counts(lane: Option<usize>, group: usize) -> int {
    if lane == Some(group) {
        1
    } else {
        0
    }
}

proof fn regrouped_members(
    lanes: Seq<LaneModel>,
    inst: usize,
    group: Option<usize>,
    g: usize,
    n: int,
)
    requires
        inst < lanes.len(),
        0 <= n <= lanes.len(),
    ensures
        members_before(lane_grouped(lanes, inst, group), g, n) == members_before(lanes, g, n)
            + if inst < n {
            counts(group, g) - counts(lanes[inst as int].group, g)
        } else {
            0
        },
    decreases n,
{
    if n > 0 {
        regrouped_members(lanes, inst, group, g, n - 1);
    }
}

proof fn remaining_members(lanes: Seq<LaneModel>, inst: usize, g: usize, n: int)
    requires
        inst < lanes.len(),
        0 <= n < lanes.len(),
    ensures
        members_before(lanes_reindexed(lanes.remove(inst as int)), g, n) == if n <= inst {
            members_before(lanes, g, n) as int
        } else {
            members_before(lanes, g, n + 1) - counts(lanes[inst as int].group, g)
        },
    decreases n,
{
    if n > 0 {
        remaining_members(lanes, inst, g, n - 1);
        let rest = lanes_reindexed(lanes.remove(inst as int));
        assert(rest[n - 1].group == (if n - 1 < inst {
            lanes[n - 1].group
        } else {
            lanes[n].group
        }));
    } else if inst == 0 {
        reveal_with_fuel(members_before, 2);
    }
}

proof fn later_members_count_more(lanes: Seq<LaneModel>, g: usize, a: int, b: int)
    requires
        0 <= a < b <= lanes.len(),
        lanes[a].group == Some(g),
    ensures
        members_before(lanes, g, a) < members_before(lanes, g, b),
    decreases b - a,
{
    if a + 1 < b {
        later_members_count_more(lanes, g, a, b - 1);
    }
}

proof fn members_bound(lanes: Seq<LaneModel>, g: usize, n: int)
    requires
        0 <= n <= lanes.len(),
    ensures
        members_before(lanes, g, n) <= n,
    decreases n,
{
    if n > 0 {
        members_bound(lanes, g, n - 1);
    }
}

/// When a lane leaves its group, a target on another member still names that
/// member's lane once its ordinal is shifted; only the leaver's own ordinal is
/// dropped.
pub proof fn leaving_keeps_members(
    lanes: Seq<LaneModel>,
    inst: usize,
    group: Option<usize>,
    member: usize,
)
    requires
        lanes.len() <= usize::MAX,
        membership(lanes, inst) is Some,
        group != lanes[inst as int].group,
        member_lane(
            lanes,
            (membership(lanes, inst)->0).0,
            member,
            lanes.len() as int,
        ) is Some,
    ensures
        ({
            let (g, ordinal) = membership(lanes, inst)->0;
            let lane = member_lane(lanes, g, member, lanes.len() as int);
            match index_after_remove(member, ordinal) {
                None => lane == Some(inst),
                Some(m) => lane != Some(inst) && member_lane(
                    lane_grouped(lanes, inst, group),
                    g,
                    m,
                    lanes.len() as int,
                ) == lane,
            }
        }),
{
    let (g, ordinal) = membership(lanes, inst)->0;
    let i = member_lane(lanes, g, member, lanes.len() as int)->0;
    let after = lane_grouped(lanes, inst, group);
    ordinals_name_lanes(lanes, i, g, member);
    ordinals_name_lanes(lanes, inst, g, ordinal);
    ordinals_name_lanes(lanes, inst, g, member);
    members_bound(lanes, g, i as int);
    members_bound(lanes, g, inst as int);
    if i != inst {
        if i < inst {
            later_members_count_more(lanes, g, i as int, inst as int);
        } else {
            later_members_count_more(lanes, g, inst as int, i as int);
        }
        regrouped_members(lanes, inst, group, g, i as int);
        let m = index_after_remove(member, ordinal)->0;
        ordinals_name_lanes(after, i, g, m);
    }
}

/// When a lane joins a group, a target on an earlier member still names that
/// member's lane once its ordinal is shifted.
pub proof fn joining_keeps_members(
    lanes: Seq<LaneModel>,
    inst: usize,
    g: usize,
    member: usize,
)
    requires
        lanes.len() <= usize::MAX,
        inst < lanes.len(),
        lanes[inst as int].group != Some(g),
        member_lane(lanes, g, member, lanes.len() as int) is Some,
    ensures
        ({
            let after = lane_grouped(lanes, inst, Some(g));
            let ordinal = (membership(after, inst)->0).1;
            member_lane(
                after,
                g,
                index_after_insert(member, ordinal),
                lanes.len() as int,
            ) == member_lane(lanes, g, member, lanes.len() as int)
        }),
{
    let i = member_lane(lanes, g, member, lanes.len() as int)->0;
    let after = lane_grouped(lanes, inst, Some(g));
    let ordinal = (membership(after, inst)->0).1;
    ordinals_name_lanes(lanes, i, g, member);
    regrouped_members(lanes, inst, Some(g), g, i as int);
    regrouped_members(lanes, inst, Some(g), g, inst as int);
    members_bound(lanes, g, i as int);
    members_bound(lanes, g, inst as int);
    if i < inst {
        later_members_count_more(lanes, g, i as int, inst as int);
    } else {
        members_monotone(lanes, g, inst as int, i as int);
        members_bound(after, g, i as int);
    }
    ordinals_name_lanes(after, i, g, index_after_insert(member, ordinal));
}

proof fn members_monotone(lanes: Seq<LaneModel>, g: usize, a: int, b: int)
    requires
        0 <= a <= b <= lanes.len(),
    ensures
        members_before(lanes, g, a) <= members_before(lanes, g, b),
    decreases b - a,
{
    if a < b {
        members_monotone(lanes, g, a, b - 1);
    }
}

/// When a member lane is removed, a target on another member of the group
/// still names that member's lane, at the lane's new index.
pub proof fn removal_keeps_members(lanes: Seq<LaneModel>, inst: usize, member: usize)
    requires
        lanes.len() <= usize::MAX,
        membership(lanes, inst) is Some,
        member_lane(
            lanes,
            (membership(lanes, inst)->0).0,
            member,
            lanes.len() as int,
        ) is Some,
    ensures
        ({
            let (g, ordinal) = membership(lanes, inst)->0;
            let lane = member_lane(lanes, g, member, lanes.len() as int)->0;
            let rest = lanes_reindexed(lanes.remove(inst as int));
            match index_after_remove(member, ordinal) {
                None => lane == inst,
                Some(m) => lane != inst && member_lane(rest, g, m, rest.len() as int)
                    == index_after_remove(lane, inst),
            }
        }),
{
    let (g, ordinal) = membership(lanes, inst)->0;
    let i = member_lane(lanes, g, member, lanes.len() as int)->0;
    let rest = lanes_reindexed(lanes.remove(inst as int));
    ordinals_name_lanes(lanes, i, g, member);
    ordinals_name_lanes(lanes, inst, g, ordinal);
    ordinals_name_lanes(lanes, inst, g, member);
    members_bound(lanes, g, i as int);
    members_bound(lanes, g, inst as int);
    if i != inst {
        let m = index_after_remove(member, ordinal)->0;
        let k = index_after_remove(i, inst)->0;
        if i < inst {
            later_members_count_more(lanes, g, i as int, inst as int);
        } else {
            later_members_count_more(lanes, g, inst as int, i as int);
        }
        remaining_members(lanes, inst, g, k as int);
        assert(rest[k as int].group == lanes[i as int].group);
        ordinals_name_lanes(rest, k, g, m);
    }
}

} // verus!
