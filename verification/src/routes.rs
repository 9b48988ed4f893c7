//! Which modulation targets contribute to which plugin parameter.
//!
//! When several targets drive one parameter their offsets are summed, so a
//! rack's targets are grouped by the parameter that they reach.

use vstd::prelude::*;

use crate::modulation::{rack, ModTarget, ModTargetKind, Modulator, ModulatorModel};

verus! {

/// A plugin parameter that a modulator reaches.
#[derive(Clone, Copy, Debug, PartialEq, Eq, Structural)]
pub enum ParamDest {
    /// Slot of the lane's own chain: 0 is the instrument, 1.. its effects.
    Chain { slot: usize, param_index: u32 },
    /// Slot of another lane's chain.
    Member { lane: usize, slot: usize, param_index: u32 },
    /// A group's bus effect.
    Bus { group: usize, effect_index: usize, param_index: u32 },
}

/// One target of one modulator of a rack.
#[derive(Clone, Copy, Debug, PartialEq, Eq, Structural)]
pub struct Contribution {
    pub modulator: usize,
    pub target: usize,
}

/// A parameter and the targets whose offsets add up on it. The first of them
/// also gives the base value and the range to clamp to.
#[derive(Debug)]
pub struct ParamRoute {
    pub dest: ParamDest,
    pub contributions: Vec<Contribution>,
}

/// What a route holds.
pub struct ParamRouteModel {
    pub dest: ParamDest,
    pub contributions: Seq<Contribution>,
}

impl View for ParamRoute {
    type V = ParamRouteModel;

    open spec fn view(&self) -> ParamRouteModel {
        ParamRouteModel { dest: self.dest, contributions: self.contributions@ }
    }
}

/// A list of routes as a sequence of models.
pub open spec fn route_list(routes: Seq<ParamRoute>) -> Seq<ParamRouteModel> {
    Seq::new(routes.len(), |i: int| routes[i]@)
}

/// The position of the route to `dest` among the first `n`, or `n` if there is
/// none.
pub open spec fn route_index(routes: Seq<ParamRouteModel>, dest: ParamDest, n: nat) -> nat
    decreases n,
{
    if n == 0 {
        0
    } else {
        let earlier = route_index(routes, dest, (n - 1) as nat);
        if earlier < n - 1 {
            earlier
        } else if routes[n - 1].dest == dest {
            (n - 1) as nat
        } else {
            n
        }
    }
}

/// The routes once `c` also reaches `dest`: it joins the route that is there,
/// or starts a new one behind the others.
pub open spec fn contributed(
    routes: Seq<ParamRouteModel>,
    dest: ParamDest,
    c: Contribution,
) -> Seq<ParamRouteModel> {
    let i = route_index(routes, dest, routes.len()) as int;
    if i < routes.len() {
        routes.update(
            i,
            ParamRouteModel { dest, contributions: routes[i].contributions.push(c) },
        )
    } else {
        routes.push(ParamRouteModel { dest, contributions: seq![c] })
    }
}

/// The routes once the first `n` targets of modulator `modulator` joined;
/// `reach` says which parameter a target drives, if any.
pub open spec fn targets_grouped(
    routes: Seq<ParamRouteModel>,
    targets: Seq<ModTarget>,
    modulator: int,
    reach: spec_fn(ModTargetKind) -> Option<ParamDest>,
    n: nat,
) -> Seq<ParamRouteModel>
    decreases n,
{
    if n == 0 {
        routes
    } else {
        let rest = targets_grouped(routes, targets, modulator, reach, (n - 1) as nat);
        match reach(targets[n - 1].kind) {
            Some(dest) => contributed(
                rest,
                dest,
                Contribution { modulator: modulator as usize, target: (n - 1) as usize },
            ),
            None => rest,
        }
    }
}

/// The targets of the first `n` modulators, grouped by the parameter that they
/// reach, in order of first appearance.
pub open spec fn rack_grouped(
    mods: Seq<ModulatorModel>,
    reach: spec_fn(ModTargetKind) -> Option<ParamDest>,
    n: nat,
) -> Seq<ParamRouteModel>
    decreases n,
{
    if n == 0 {
        Seq::empty()
    } else {
        targets_grouped(
            rack_grouped(mods, reach, (n - 1) as nat),
            mods[n - 1].targets,
            n - 1,
            reach,
            mods[n - 1].targets.len(),
        )
    }
}

/// What a lane's own targets reach: parameters of its chain.
pub open spec fn chain_reach() -> spec_fn(ModTargetKind) -> Option<ParamDest> {
    |kind: ModTargetKind|
        match kind {
            ModTargetKind::PluginParam { slot, param_index } => Some(
                ParamDest::Chain { slot, param_index },
            ),
            _ => None,
        }
}

/// Let `c` reach `dest`.
pub fn contribute(routes: &mut Vec<ParamRoute>, dest: ParamDest, c: Contribution)
    ensures
        route_list(final(routes)@) == contributed(route_list(old(routes)@), dest, c),
{
    let ghost before = route_list(routes@);
    let mut i: usize = 0;
    let mut found: usize = 0;
    while i < routes.len()
        invariant
            i <= routes.len(),
            before == route_list(routes@),
            found == route_index(before, dest, i as nat),
            found <= i,
        decreases routes.len() - i,
    {
        if found == i && routes[i].dest != dest {
            found = i + 1;
        }
        i += 1;
    }
    if found < routes.len() {
        proof {
            found_route(before, dest, before.len());
        }
        routes[found].contributions.push(c);
        assert(route_list(routes@) =~= contributed(before, dest, c));
    } else {
        let mut contributions: Vec<Contribution> = Vec::new();
        contributions.push(c);
        assert(contributions@ =~= seq![c]);
        routes.push(ParamRoute { dest, contributions });
        assert(route_list(routes@) =~= contributed(before, dest, c));
    }
}

/// The position found, if any, is one of a route to `dest`, and no earlier
/// route leads there.
pub proof fn found_route(routes: Seq<ParamRouteModel>, dest: ParamDest, n: nat)
    requires
        n <= routes.len(),
    ensures
        route_index(routes, dest, n) <= n,
        route_index(routes, dest, n) < n ==> routes[route_index(routes, dest, n) as int].dest
            == dest,
        forall|k: int| 0 <= k < route_index(routes, dest, n) ==> routes[k].dest != dest,
    decreases n,
{
    if n > 0 {
        found_route(routes, dest, (n - 1) as nat);
    }
}

/// The parameters of a lane's chain that its modulators drive, each with the
/// targets to sum.
pub fn chain_routes(modulators: &Vec<Modulator>) -> (routes: Vec<ParamRoute>)
    ensures
        route_list(routes@) == rack_grouped(
            rack(modulators@),
            chain_reach(),
            modulators.len() as nat,
        ),
{
    let ghost mods = rack(modulators@);
    let mut routes: Vec<ParamRoute> = Vec::new();
    let mut i: usize = 0;
    assert(route_list(routes@) =~= rack_grouped(mods, chain_reach(), 0));
    while i < modulators.len()
        invariant
            mods == rack(modulators@),
            i <= modulators.len(),
            route_list(routes@) == rack_grouped(mods, chain_reach(), i as nat),
        decreases modulators.len() - i,
    {
        let ghost done = route_list(routes@);
        let mut j: usize = 0;
        while j < modulators[i].targets.len()
            invariant
                mods == rack(modulators@),
                i < modulators.len(),
                j <= modulators@[i as int].targets.len(),
                route_list(routes@) == targets_grouped(
                    done,
                    mods[i as int].targets,
                    i as int,
                    chain_reach(),
                    j as nat,
                ),
            decreases modulators@[i as int].targets.len() - j,
        {
            match modulators[i].targets[j].kind {
                ModTargetKind::PluginParam { slot, param_index } => {
                    contribute(
                        &mut routes,
                        ParamDest::Chain { slot, param_index },
                        Contribution { modulator: i, target: j },
                    );
                },
                _ => {},
            }
            j += 1;
        }
        i += 1;
    }
    routes
}

// ---------------------------------------------------------------------------
// Laws
// ---------------------------------------------------------------------------

/// No two routes lead to one parameter, and none is without a contribution.
pub open spec fn routes_distinct(routes: Seq<ParamRouteModel>) -> bool {
    &&& forall|i: int, j: int|
        0 <= i < j < routes.len() ==> #[trigger] routes[i].dest != #[trigger] routes[j].dest
    &&& forall|i: int| 0 <= i < routes.len() ==> #[trigger] routes[i].contributions.len() > 0
}

/// Some route to `dest` takes contribution `c`.
pub open spec fn reaches(
    routes: Seq<ParamRouteModel>,
    dest: ParamDest,
    c: Contribution,
) -> bool {
    exists|i: int|
        0 <= i < routes.len() && #[trigger] routes[i].dest == dest
            && routes[i].contributions.contains(c)
}

proof fn contributed_keeps(
    routes: Seq<ParamRouteModel>,
    dest: ParamDest,
    c: Contribution,
    d: ParamDest,
    e: Contribution,
)
    requires
        routes_distinct(routes),
    ensures
        routes_distinct(contributed(routes, dest, c)),
        reaches(contributed(routes, dest, c), dest, c),
        reaches(routes, d, e) ==> reaches(contributed(routes, dest, c), d, e),
{
    found_route(routes, dest, routes.len());
    let out = contributed(routes, dest, c);
    let i = route_index(routes, dest, routes.len()) as int;
    if i < routes.len() {
        let cs = routes[i].contributions;
        assert(out[i].contributions[cs.len() as int] == c);
        assert(out[i].contributions.contains(c));
    } else {
        assert(out[i].contributions[0] == c);
        assert(out[i].contributions.contains(c));
    }
    assert(out[i].dest == dest);
    if reaches(routes, d, e) {
        let k = choose|k: int|
            0 <= k < routes.len() && #[trigger] routes[k].dest == d
                && routes[k].contributions.contains(e);
        let p = choose|p: int|
            0 <= p < routes[k].contributions.len() && routes[k].contributions[p] == e;
        assert(out[k].contributions[p] == e);
        assert(out[k].dest == d && out[k].contributions.contains(e));
    }
}

proof fn grouped_targets_cover(
    routes: Seq<ParamRouteModel>,
    targets: Seq<ModTarget>,
    modulator: int,
    reach: spec_fn(ModTargetKind) -> Option<ParamDest>,
    n: nat,
    j: int,
    d: ParamDest,
    e: Contribution,
)
    requires
        routes_distinct(routes),
        n <= targets.len(),
    ensures
        routes_distinct(targets_grouped(routes, targets, modulator, reach, n)),
        reaches(routes, d, e) ==> reaches(
            targets_grouped(routes, targets, modulator, reach, n),
            d,
            e,
        ),
        0 <= j < n && reach(targets[j].kind) is Some ==> reaches(
            targets_grouped(routes, targets, modulator, reach, n),
            reach(targets[j].kind)->0,
            Contribution { modulator: modulator as usize, target: j as usize },
        ),
    decreases n,
{
    if n > 0 {
        grouped_targets_cover(routes, targets, modulator, reach, (n - 1) as nat, j, d, e);
        let rest = targets_grouped(routes, targets, modulator, reach, (n - 1) as nat);
        if let Some(dest) = reach(targets[n - 1].kind) {
            let c = Contribution { modulator: modulator as usize, target: (n - 1) as usize };
            contributed_keeps(rest, dest, c, d, e);
            if 0 <= j < n - 1 && reach(targets[j].kind) is Some {
                contributed_keeps(
                    rest,
                    dest,
                    c,
                    reach(targets[j].kind)->0,
                    Contribution { modulator: modulator as usize, target: j as usize },
                );
            }
        }
    }
}

/// Every parameter gets one route, and every target that reaches a parameter
/// contributes to that parameter's route: no modulator overwrites another.
pub proof fn every_target_contributes(
    mods: Seq<ModulatorModel>,
    reach: spec_fn(ModTargetKind) -> Option<ParamDest>,
    n: nat,
    i: int,
    j: int,
)
    requires
        n <= mods.len(),
    ensures
        routes_distinct(rack_grouped(mods, reach, n)),
        0 <= i < n && 0 <= j < mods[i].targets.len() && reach(mods[i].targets[j].kind) is Some
            ==> reaches(
            rack_grouped(mods, reach, n),
            reach(mods[i].targets[j].kind)->0,
            Contribution { modulator: i as usize, target: j as usize },
        ),
    decreases n,
{
    if n > 0 {
        every_target_contributes(mods, reach, (n - 1) as nat, i, j);
        let rest = rack_grouped(mods, reach, (n - 1) as nat);
        let targets = mods[n - 1].targets;
        let (d, e) = if 0 <= i < n - 1 && 0 <= j < mods[i].targets.len()
            && reach(mods[i].targets[j].kind) is Some {
            (
                reach(mods[i].targets[j].kind)->0,
                Contribution { modulator: i as usize, target: j as usize },
            )
        } else {
            (
                ParamDest::Chain { slot: 0, param_index: 0 },
                Contribution { modulator: 0, target: 0 },
            )
        };
        grouped_targets_cover(rest, targets, n - 1, reach, targets.len(), j, d, e);
    }
}

} // verus!
