//! The effect algebra: a closed set of reified state mutations with a
//! uniform `apply` / `unapply` contract.
//!
//! `spec_apply` and `spec_unapply` give the exact mathematical transition
//! for every variant; the executable dispatcher is proved to realize them.
//! Reversible variants invert exactly (see `lemma_roundtrip`); the
//! others deliberately leave `unapply` a no-op (see
//! `lemma_nonreversible_noop`).

use vstd::prelude::*;
use crate::kinds::{Output, Resource, Byproduct, Feedstock};
use crate::num::{
    add_amt, clamp0_amt, clamp_amt, mul_div_amt, round_mul_amt, tdiv, amt_add, amt_add_clamp0,
    amt_div, amt_mul_div, amt_round_mul, amt_sub, amt_sub_clamp0, lemma_tdiv_exact, AMT_MAX,
};
use crate::processes::{Process, ProcessFeature};
use crate::state::{
    Game, GameView, GameEvent, Industry, Npc, Project, QueuedEvent, Region, RegionView, Request,
    RequestKind, World, WorldView, MAX_REGIONS,
};

verus! {

/// Fraction of a region's population that one migration wave removes:
/// one tenth.
pub const MIGRATION_WAVE_DIVISOR: i64 = 10;

/// A global boolean flag content can set.
#[derive(Clone, Copy, PartialEq, Eq, Structural, Debug)]
pub enum Flag {
    Electrified,
    EnergyStorage1,
    EnergyStorage2,
    EnergyStorage3,
    Vegetarian,
    Vegan,
}

/// A region-scoped numeric variable.
#[derive(Clone, Copy, PartialEq, Eq, Structural, Debug)]
pub enum LocalVariable {
    Population,
    Outlook,
    Habitability,
}

/// A world-scoped numeric variable.
#[derive(Clone, Copy, PartialEq, Eq, Structural, Debug)]
pub enum WorldVariable {
    Year,
    Population,
    PopulationGrowth,
    Emissions,
    ExtinctionRate,
    Outlook,
    Temperature,
    WaterStress,
    SeaLevelRise,
    Precipitation,
}

/// A player-scoped numeric metric.
#[derive(Clone, Copy, PartialEq, Eq, Structural, Debug)]
pub enum PlayerVariable {
    PoliticalCapital,
    MalthusianPoints,
    HESPoints,
    FALCPoints,
}

/// One atomic, named state mutation with its numeric or categorical
/// parameters. Numeric parameters are amounts in millis.
#[derive(Debug)]
pub enum Effect {
    LocalVariable(LocalVariable, i64),
    WorldVariable(WorldVariable, i64),
    PlayerVariable(PlayerVariable, i64),
    Resource(Resource, i64),
    Demand(Output, i64),
    Output(Output, i64),
    DemandAmount(Output, i64),
    OutputForFeature(ProcessFeature, i64),
    OutputForProcess(usize, i64),
    Feedstock(Feedstock, i64),
    AddEvent(usize),
    TriggerEvent(usize, usize),
    UnlocksProject(usize),
    UnlocksProcess(usize),
    ProjectRequest(usize, bool, usize),
    ProcessRequest(usize, bool, usize),
    Migration,
    RegionLeave,
    AddRegionFlag(String),
    AddFlag(Flag),
    AutoClick(usize, i64),
    NPCRelationship(usize, i64),
    ModifyIndustryByproducts(usize, Byproduct, i64),
    ModifyIndustryResources(usize, Resource, i64),
    ModifyEventProbability(usize, i64),
    ModifyIndustryDemand(usize, i64),
    DemandOutlookChange(Output, i64),
    IncomeOutlookChange(i64),
    ProjectCostModifier(usize, i64),
    ProtectLand(i64),
}

/// The multiplicative factor `1 + pct/100` of a percentage expressed in
/// millis, itself in millis.
pub open spec fn pop_factor(c: int) -> int {
    add_amt(1000, tdiv(c, 100))
}

/// Replace the world inside a game view.
pub open spec fn with_world(g: GameView, w: WorldView) -> GameView {
    GameView { world: w, ..g }
}

/// Replace the regions inside a game view.
pub open spec fn with_regions(g: GameView, rs: Seq<RegionView>) -> GameView {
    GameView { world: WorldView { regions: rs, ..g.world }, ..g }
}

/// Every region's population multiplied by `num / den`, saturated.
pub open spec fn spec_scale_populations(rs: Seq<RegionView>, num: int, den: int) -> Seq<
    RegionView,
>
    recommends
        den != 0,
{
    Seq::new(
        rs.len(),
        |j: int|
            RegionView {
                population: mul_div_amt(rs[j].population as int, num, den) as i64,
                ..rs[j]
            },
    )
}

/// Every region's outlook shifted by `round(m * demand[o])` whole units
/// (added when `add`, else subtracted).
pub open spec fn spec_outlook_by_demand(
    rs: Seq<RegionView>,
    o: Output,
    m: int,
    add: bool,
) -> Seq<RegionView> {
    Seq::new(
        rs.len(),
        |j: int|
            {
                let d = round_mul_amt(m, rs[j].demand.spec_get(o) as int);
                RegionView {
                    outlook: (if add {
                        clamp_amt(rs[j].outlook as int + d)
                    } else {
                        clamp_amt(rs[j].outlook as int - d)
                    }) as i64,
                    ..rs[j]
                }
            },
    )
}

/// Every region's outlook shifted by `round(m * income)` whole units.
pub open spec fn spec_outlook_by_income(rs: Seq<RegionView>, m: int, add: bool) -> Seq<
    RegionView,
> {
    Seq::new(
        rs.len(),
        |j: int|
            {
                let d = round_mul_amt(m, rs[j].income as int);
                RegionView {
                    outlook: (if add {
                        clamp_amt(rs[j].outlook as int + d)
                    } else {
                        clamp_amt(rs[j].outlook as int - d)
                    }) as i64,
                    ..rs[j]
                }
            },
    )
}

/// The output modifier of every process carrying feature `f` shifted by
/// `d` (added when `add`, else subtracted).
pub open spec fn spec_shift_feature(
    ps: Seq<Process>,
    f: ProcessFeature,
    d: int,
    add: bool,
) -> Seq<Process> {
    Seq::new(
        ps.len(),
        |i: int|
            if ps[i].spec_has_feature(f) {
                Process {
                    output_modifier: (if add {
                        clamp_amt(ps[i].output_modifier as int + d)
                    } else {
                        clamp_amt(ps[i].output_modifier as int - d)
                    }) as i64,
                    ..ps[i]
                }
            } else {
                ps[i]
            },
    )
}

/// Sum of the first `n` regions' habitabilities.
pub open spec fn sum_habitability(rs: Seq<RegionView>, n: int) -> int
    decreases n,
{
    if n <= 0 {
        0
    } else {
        sum_habitability(rs, n - 1) + rs[n - 1].base_habitability as int
    }
}

/// The world's mean habitability (truncating division).
pub open spec fn spec_mean_habitability(rs: Seq<RegionView>) -> int
    recommends
        rs.len() > 0,
{
    tdiv(sum_habitability(rs, rs.len() as int), rs.len() as int)
}

/// How many regions other than `excl` among the first `n` lie strictly
/// above habitability `mean`.
pub open spec fn count_above(rs: Seq<RegionView>, excl: int, mean: int, n: int) -> int
    decreases n,
{
    if n <= 0 {
        0
    } else {
        count_above(rs, excl, mean, n - 1) + if n - 1 != excl && rs[n - 1].base_habitability as int
            > mean {
            1int
        } else {
            0int
        }
    }
}

/// One migration wave out of region `id`: a tenth of its population leaves
/// and is split evenly across every other region whose habitability lies
/// strictly above the world mean; with no qualifying region the migrants
/// are lost.
pub open spec fn spec_migrate(rs: Seq<RegionView>, id: int) -> Seq<RegionView>
    recommends
        0 <= id < rs.len(),
{
    let leave = tdiv(rs[id].population as int, MIGRATION_WAVE_DIVISOR as int);
    let mean = spec_mean_habitability(rs);
    let cnt = count_above(rs, id, mean, rs.len() as int);
    let per = if cnt > 0 {
        tdiv(leave, cnt)
    } else {
        0
    };
    Seq::new(
        rs.len(),
        |j: int|
            if j == id {
                RegionView { population: (rs[id].population as int - leave) as i64, ..rs[j] }
            } else if rs[j].base_habitability as int > mean {
                RegionView { population: add_amt(rs[j].population as int, per) as i64, ..rs[j] }
            } else {
                rs[j]
            },
    )
}

/// Whether every entity id the effect names is in range, and region-scoped
/// indices fit. Region-scoped effects with no region are always fine: they
/// are defined as no-ops.
pub open spec fn effect_targets_ok(e: Effect, g: GameView, region_id: Option<usize>) -> bool {
    match e {
        Effect::LocalVariable(_, _) | Effect::RegionLeave | Effect::AddRegionFlag(_) => match region_id {
            Option::Some(id) => (id as int) < g.world.regions.len(),
            Option::None => true,
        },
        Effect::Migration => match region_id {
            Option::Some(id) => (id as int) < g.world.regions.len() && g.world.regions.len()
                <= MAX_REGIONS as int,
            Option::None => true,
        },
        Effect::OutputForProcess(id, _) => (id as int) < g.processes.len(),
        Effect::UnlocksProcess(id) => (id as int) < g.processes.len(),
        Effect::AddEvent(id) => (id as int) < g.events.len(),
        Effect::ModifyEventProbability(id, _) => (id as int) < g.events.len(),
        Effect::UnlocksProject(id) => (id as int) < g.projects.len(),
        Effect::ProjectCostModifier(id, _) => (id as int) < g.projects.len(),
        Effect::NPCRelationship(id, _) => (id as int) < g.npcs.len(),
        Effect::ModifyIndustryByproducts(id, _, _) => (id as int) < g.industries.len(),
        Effect::ModifyIndustryResources(id, _, _) => (id as int) < g.industries.len(),
        Effect::ModifyIndustryDemand(id, _) => (id as int) < g.industries.len(),
        _ => true,
    }
}

/// Whether `unapply` algebraically inverts the variant. The others are
/// one-shot narrative transitions with no well-defined inverse.
pub open spec fn reversible(e: Effect) -> bool {
    match e {
        Effect::AddEvent(_) | Effect::TriggerEvent(_, _) | Effect::UnlocksProject(_)
            | Effect::UnlocksProcess(_) | Effect::ProjectRequest(_, _, _)
            | Effect::ProcessRequest(_, _, _) | Effect::Migration | Effect::RegionLeave
            | Effect::AddRegionFlag(_) | Effect::AddFlag(_) | Effect::AutoClick(_, _) => false,
        _ => true,
    }
}

/// The exact state transition `apply` performs.
pub open spec fn spec_apply(e: Effect, g: GameView, region_id: Option<usize>) -> GameView {
    match e {
        Effect::LocalVariable(var, c) => match region_id {
            Option::None => g,
            Option::Some(id) => {
                let r = g.world.regions[id as int];
                let r2 = match var {
                    LocalVariable::Population => RegionView {
                        population: mul_div_amt(r.population as int, pop_factor(c as int), 1000)
                            as i64,
                        ..r
                    },
                    LocalVariable::Outlook => RegionView {
                        outlook: add_amt(r.outlook as int, c as int) as i64,
                        ..r
                    },
                    LocalVariable::Habitability => RegionView {
                        base_habitability: add_amt(r.base_habitability as int, c as int) as i64,
                        ..r
                    },
                };
                with_regions(g, g.world.regions.update(id as int, r2))
            },
        },
        Effect::WorldVariable(var, c) => {
            let w = g.world;
            match var {
                WorldVariable::Year => with_world(
                    g,
                    WorldView { year: add_amt(w.year as int, tdiv(c as int, 1000)) as i64, ..w },
                ),
                WorldVariable::Population => with_regions(
                    g,
                    spec_scale_populations(w.regions, pop_factor(c as int), 1000),
                ),
                WorldVariable::PopulationGrowth => with_world(
                    g,
                    WorldView {
                        population_growth_modifier: add_amt(
                            w.population_growth_modifier as int,
                            tdiv(c as int, 100),
                        ) as i64,
                        ..w
                    },
                ),
                WorldVariable::Emissions => with_world(
                    g,
                    WorldView {
                        byproduct_mods: w.byproduct_mods.spec_set(
                            Byproduct::Co2,
                            add_amt(w.byproduct_mods.co2 as int, c as int) as i64,
                        ),
                        ..w
                    },
                ),
                WorldVariable::ExtinctionRate => with_world(
                    g,
                    WorldView {
                        byproduct_mods: w.byproduct_mods.spec_set(
                            Byproduct::Biodiversity,
                            clamp_amt(w.byproduct_mods.biodiversity as int - c as int) as i64,
                        ),
                        ..w
                    },
                ),
                WorldVariable::Outlook => with_world(
                    g,
                    WorldView { outlook: add_amt(w.outlook as int, c as int) as i64, ..w },
                ),
                WorldVariable::Temperature => with_world(
                    g,
                    WorldView {
                        temperature_modifier: add_amt(w.temperature_modifier as int, c as int)
                            as i64,
                        ..w
                    },
                ),
                WorldVariable::WaterStress => with_world(
                    g,
                    WorldView { water_stress: add_amt(w.water_stress as int, c as int) as i64, ..w },
                ),
                WorldVariable::SeaLevelRise => with_world(
                    g,
                    WorldView {
                        sea_level_rise: add_amt(w.sea_level_rise as int, c as int) as i64,
                        ..w
                    },
                ),
                WorldVariable::Precipitation => with_world(
                    g,
                    WorldView {
                        precipitation: add_amt(w.precipitation as int, c as int) as i64,
                        ..w
                    },
                ),
            }
        },
        Effect::PlayerVariable(var, c) => {
            let u = tdiv(c as int, 1000);
            match var {
                PlayerVariable::PoliticalCapital => GameView {
                    political_capital: add_amt(g.political_capital as int, u) as i64,
                    ..g
                },
                PlayerVariable::MalthusianPoints => GameView {
                    malthusian_points: clamp0_amt(g.malthusian_points as int + u) as i64,
                    ..g
                },
                PlayerVariable::HESPoints => GameView {
                    hes_points: clamp0_amt(g.hes_points as int + u) as i64,
                    ..g
                },
                PlayerVariable::FALCPoints => GameView {
                    falc_points: clamp0_amt(g.falc_points as int + u) as i64,
                    ..g
                },
            }
        },
        Effect::Resource(res, pct) => {
            let v = g.resources.spec_get(res) as int;
            let f = add_amt(1000, pct as int);
            GameView { resources: g.resources.spec_set(res, mul_div_amt(v, f, 1000) as i64), ..g }
        },
        Effect::Demand(o, pct) => GameView {
            output_demand_modifier: g.output_demand_modifier.spec_set(
                o,
                add_amt(g.output_demand_modifier.spec_get(o) as int, pct as int) as i64,
            ),
            ..g
        },
        Effect::DemandAmount(o, amount) => GameView {
            output_demand_extras: g.output_demand_extras.spec_set(
                o,
                add_amt(g.output_demand_extras.spec_get(o) as int, amount as int) as i64,
            ),
            ..g
        },
        Effect::Output(o, pct) => GameView {
            output_modifier: g.output_modifier.spec_set(
                o,
                add_amt(g.output_modifier.spec_get(o) as int, pct as int) as i64,
            ),
            ..g
        },
        Effect::OutputForFeature(f, pct) => GameView {
            processes: spec_shift_feature(g.processes, f, pct as int, true),
            ..g
        },
        Effect::OutputForProcess(id, pct) => {
            let p = g.processes[id as int];
            GameView {
                processes: g.processes.update(
                    id as int,
                    Process {
                        output_modifier: add_amt(p.output_modifier as int, pct as int) as i64,
                        ..p
                    },
                ),
                ..g
            }
        },
        Effect::Feedstock(fs, pct) => {
            let v = g.feedstocks.spec_get(fs) as int;
            GameView {
                feedstocks: g.feedstocks.spec_set(fs, mul_div_amt(v, pct as int, 1000) as i64),
                ..g
            }
        },
        Effect::AddEvent(id) => {
            let ev = g.events[id as int];
            GameView { events: g.events.update(id as int, GameEvent { locked: false, ..ev }), ..g }
        },
        Effect::TriggerEvent(id, years) => GameView {
            event_queue: g.event_queue.push(QueuedEvent { event_id: id, region_id, years }),
            ..g
        },
        Effect::UnlocksProject(id) => {
            let p = g.projects[id as int];
            GameView { projects: g.projects.update(id as int, Project { locked: false, ..p }), ..g }
        },
        Effect::UnlocksProcess(id) => {
            let p = g.processes[id as int];
            GameView {
                processes: g.processes.update(id as int, Process { locked: false, ..p }),
                ..g
            }
        },
        Effect::ProjectRequest(id, active, bounty) => GameView {
            requests: g.requests.push(
                Request { kind: RequestKind::Project, target_id: id, active, bounty },
            ),
            ..g
        },
        Effect::ProcessRequest(id, active, bounty) => GameView {
            requests: g.requests.push(
                Request { kind: RequestKind::Process, target_id: id, active, bounty },
            ),
            ..g
        },
        Effect::Migration => match region_id {
            Option::None => g,
            Option::Some(id) => with_regions(g, spec_migrate(g.world.regions, id as int)),
        },
        Effect::RegionLeave => match region_id {
            Option::None => g,
            Option::Some(id) => {
                let r = g.world.regions[id as int];
                with_regions(
                    g,
                    g.world.regions.update(id as int, RegionView { seceded: true, ..r }),
                )
            },
        },
        Effect::AddRegionFlag(flag) => match region_id {
            Option::None => g,
            Option::Some(id) => {
                let r = g.world.regions[id as int];
                with_regions(
                    g,
                    g.world.regions.update(id as int, RegionView { flags: r.flags.push(flag), ..r }),
                )
            },
        },
        Effect::AddFlag(f) => GameView { flags: g.flags.push(f), ..g },
        Effect::AutoClick(_, _) => g,
        Effect::NPCRelationship(id, c) => {
            let n = g.npcs[id as int];
            GameView {
                npcs: g.npcs.update(
                    id as int,
                    Npc { relationship: add_amt(n.relationship as int, c as int) as i64, ..n },
                ),
                ..g
            }
        },
        Effect::ModifyIndustryByproducts(id, b, mult) => {
            let ind = g.industries[id as int];
            let v = ind.byproducts.spec_get(b) as int;
            GameView {
                industries: g.industries.update(
                    id as int,
                    Industry {
                        byproducts: ind.byproducts.spec_set(
                            b,
                            mul_div_amt(v, mult as int, 1000) as i64,
                        ),
                        ..ind
                    },
                ),
                ..g
            }
        },
        Effect::ModifyIndustryResources(id, res, mult) => {
            let ind = g.industries[id as int];
            let v = ind.resources.spec_get(res) as int;
            GameView {
                industries: g.industries.update(
                    id as int,
                    Industry {
                        resources: ind.resources.spec_set(
                            res,
                            mul_div_amt(v, mult as int, 1000) as i64,
                        ),
                        ..ind
                    },
                ),
                ..g
            }
        },
        Effect::ModifyEventProbability(id, c) => {
            let ev = g.events[id as int];
            GameView {
                events: g.events.update(
                    id as int,
                    GameEvent {
                        prob_modifier: add_amt(ev.prob_modifier as int, c as int) as i64,
                        ..ev
                    },
                ),
                ..g
            }
        },
        Effect::ModifyIndustryDemand(id, c) => {
            let ind = g.industries[id as int];
            GameView {
                industries: g.industries.update(
                    id as int,
                    Industry {
                        demand_modifier: add_amt(ind.demand_modifier as int, c as int) as i64,
                        ..ind
                    },
                ),
                ..g
            }
        },
        Effect::DemandOutlookChange(o, mult) => with_regions(
            g,
            spec_outlook_by_demand(g.world.regions, o, mult as int, true),
        ),
        Effect::IncomeOutlookChange(mult) => with_regions(
            g,
            spec_outlook_by_income(g.world.regions, mult as int, true),
        ),
        Effect::ProjectCostModifier(id, c) => {
            let p = g.projects[id as int];
            GameView {
                projects: g.projects.update(
                    id as int,
                    Project { cost_modifier: add_amt(p.cost_modifier as int, c as int) as i64, ..p },
                ),
                ..g
            }
        },
        Effect::ProtectLand(pct) => GameView {
            protected_land: add_amt(g.protected_land as int, tdiv(pct as int, 100)) as i64,
            ..g
        },
    }
}

/// The exact state transition `unapply` performs: the algebraic inverse
/// for reversible variants, the identity for the rest. Inverse divisions
/// whose factor is zero are guarded no-ops.
pub open spec fn spec_unapply(e: Effect, g: GameView, region_id: Option<usize>) -> GameView {
    match e {
        Effect::LocalVariable(var, c) => match region_id {
            Option::None => g,
            Option::Some(id) => {
                let r = g.world.regions[id as int];
                let r2 = match var {
                    LocalVariable::Population => {
                        let f = pop_factor(c as int);
                        if f == 0 {
                            r
                        } else {
                            RegionView {
                                population: mul_div_amt(r.population as int, 1000, f) as i64,
                                ..r
                            }
                        }
                    },
                    LocalVariable::Outlook => RegionView {
                        outlook: clamp_amt(r.outlook as int - c as int) as i64,
                        ..r
                    },
                    LocalVariable::Habitability => RegionView {
                        base_habitability: clamp_amt(r.base_habitability as int - c as int) as i64,
                        ..r
                    },
                };
                with_regions(g, g.world.regions.update(id as int, r2))
            },
        },
        Effect::WorldVariable(var, c) => {
            let w = g.world;
            match var {
                WorldVariable::Year => with_world(
                    g,
                    WorldView {
                        year: clamp_amt(w.year as int - tdiv(c as int, 1000)) as i64,
                        ..w
                    },
                ),
                WorldVariable::Population => {
                    let f = pop_factor(c as int);
                    if f == 0 {
                        g
                    } else {
                        with_regions(g, spec_scale_populations(w.regions, 1000, f))
                    }
                },
                WorldVariable::PopulationGrowth => with_world(
                    g,
                    WorldView {
                        population_growth_modifier: clamp_amt(
                            w.population_growth_modifier as int - tdiv(c as int, 100),
                        ) as i64,
                        ..w
                    },
                ),
                WorldVariable::Emissions => with_world(
                    g,
                    WorldView {
                        byproduct_mods: w.byproduct_mods.spec_set(
                            Byproduct::Co2,
                            clamp_amt(w.byproduct_mods.co2 as int - c as int) as i64,
                        ),
                        ..w
                    },
                ),
                WorldVariable::ExtinctionRate => with_world(
                    g,
                    WorldView {
                        byproduct_mods: w.byproduct_mods.spec_set(
                            Byproduct::Biodiversity,
                            add_amt(w.byproduct_mods.biodiversity as int, c as int) as i64,
                        ),
                        ..w
                    },
                ),
                WorldVariable::Outlook => with_world(
                    g,
                    WorldView { outlook: clamp_amt(w.outlook as int - c as int) as i64, ..w },
                ),
                WorldVariable::Temperature => with_world(
                    g,
                    WorldView {
                        temperature_modifier: clamp_amt(w.temperature_modifier as int - c as int)
                            as i64,
                        ..w
                    },
                ),
                WorldVariable::WaterStress => with_world(
                    g,
                    WorldView {
                        water_stress: clamp_amt(w.water_stress as int - c as int) as i64,
                        ..w
                    },
                ),
                WorldVariable::SeaLevelRise => with_world(
                    g,
                    WorldView {
                        sea_level_rise: clamp_amt(w.sea_level_rise as int - c as int) as i64,
                        ..w
                    },
                ),
                WorldVariable::Precipitation => with_world(
                    g,
                    WorldView {
                        precipitation: clamp_amt(w.precipitation as int - c as int) as i64,
                        ..w
                    },
                ),
            }
        },
        Effect::PlayerVariable(var, c) => {
            let u = tdiv(c as int, 1000);
            match var {
                PlayerVariable::PoliticalCapital => GameView {
                    political_capital: clamp_amt(g.political_capital as int - u) as i64,
                    ..g
                },
                PlayerVariable::MalthusianPoints => GameView {
                    malthusian_points: clamp0_amt(g.malthusian_points as int - u) as i64,
                    ..g
                },
                PlayerVariable::HESPoints => GameView {
                    hes_points: clamp0_amt(g.hes_points as int - u) as i64,
                    ..g
                },
                PlayerVariable::FALCPoints => GameView {
                    falc_points: clamp0_amt(g.falc_points as int - u) as i64,
                    ..g
                },
            }
        },
        Effect::Resource(res, pct) => {
            let v = g.resources.spec_get(res) as int;
            let f = add_amt(1000, pct as int);
            if f == 0 {
                g
            } else {
                GameView { resources: g.resources.spec_set(res, mul_div_amt(v, 1000, f) as i64), ..g }
            }
        },
        Effect::Demand(o, pct) => GameView {
            output_demand_modifier: g.output_demand_modifier.spec_set(
                o,
                clamp_amt(g.output_demand_modifier.spec_get(o) as int - pct as int) as i64,
            ),
            ..g
        },
        Effect::DemandAmount(o, amount) => GameView {
            output_demand_extras: g.output_demand_extras.spec_set(
                o,
                clamp_amt(g.output_demand_extras.spec_get(o) as int - amount as int) as i64,
            ),
            ..g
        },
        Effect::Output(o, pct) => GameView {
            output_modifier: g.output_modifier.spec_set(
                o,
                clamp_amt(g.output_modifier.spec_get(o) as int - pct as int) as i64,
            ),
            ..g
        },
        Effect::OutputForFeature(f, pct) => GameView {
            processes: spec_shift_feature(g.processes, f, pct as int, false),
            ..g
        },
        Effect::OutputForProcess(id, pct) => {
            let p = g.processes[id as int];
            GameView {
                processes: g.processes.update(
                    id as int,
                    Process {
                        output_modifier: clamp_amt(p.output_modifier as int - pct as int) as i64,
                        ..p
                    },
                ),
                ..g
            }
        },
        Effect::Feedstock(fs, pct) => {
            let v = g.feedstocks.spec_get(fs) as int;
            if pct == 0 {
                g
            } else {
                GameView {
                    feedstocks: g.feedstocks.spec_set(fs, mul_div_amt(v, 1000, pct as int) as i64),
                    ..g
                }
            }
        },
        Effect::NPCRelationship(id, c) => {
            let n = g.npcs[id as int];
            GameView {
                npcs: g.npcs.update(
                    id as int,
                    Npc { relationship: clamp_amt(n.relationship as int - c as int) as i64, ..n },
                ),
                ..g
            }
        },
        Effect::ModifyIndustryByproducts(id, b, mult) => {
            let ind = g.industries[id as int];
            let v = ind.byproducts.spec_get(b) as int;
            if mult == 0 {
                g
            } else {
                GameView {
                    industries: g.industries.update(
                        id as int,
                        Industry {
                            byproducts: ind.byproducts.spec_set(
                                b,
                                mul_div_amt(v, 1000, mult as int) as i64,
                            ),
                            ..ind
                        },
                    ),
                    ..g
                }
            }
        },
        Effect::ModifyIndustryResources(id, res, mult) => {
            let ind = g.industries[id as int];
            let v = ind.resources.spec_get(res) as int;
            if mult == 0 {
                g
            } else {
                GameView {
                    industries: g.industries.update(
                        id as int,
                        Industry {
                            resources: ind.resources.spec_set(
                                res,
                                mul_div_amt(v, 1000, mult as int) as i64,
                            ),
                            ..ind
                        },
                    ),
                    ..g
                }
            }
        },
        Effect::ModifyEventProbability(id, c) => {
            let ev = g.events[id as int];
            GameView {
                events: g.events.update(
                    id as int,
                    GameEvent {
                        prob_modifier: clamp_amt(ev.prob_modifier as int - c as int) as i64,
                        ..ev
                    },
                ),
                ..g
            }
        },
        Effect::ModifyIndustryDemand(id, c) => {
            let ind = g.industries[id as int];
            GameView {
                industries: g.industries.update(
                    id as int,
                    Industry {
                        demand_modifier: clamp_amt(ind.demand_modifier as int - c as int) as i64,
                        ..ind
                    },
                ),
                ..g
            }
        },
        Effect::DemandOutlookChange(o, mult) => with_regions(
            g,
            spec_outlook_by_demand(g.world.regions, o, mult as int, false),
        ),
        Effect::IncomeOutlookChange(mult) => with_regions(
            g,
            spec_outlook_by_income(g.world.regions, mult as int, false),
        ),
        Effect::ProjectCostModifier(id, c) => {
            let p = g.projects[id as int];
            GameView {
                projects: g.projects.update(
                    id as int,
                    Project {
                        cost_modifier: clamp_amt(p.cost_modifier as int - c as int) as i64,
                        ..p
                    },
                ),
                ..g
            }
        },
        Effect::ProtectLand(pct) => GameView {
            protected_land: clamp_amt(g.protected_land as int - tdiv(pct as int, 100)) as i64,
            ..g
        },
        _ => g,
    }
}

/// Multiply every region's population by `num / den`.
#[verifier::loop_isolation(false)]
fn scale_populations(world: &mut World, num: i64, den: i64)
    requires
        den != 0,
    ensures
        final(world)@ == (WorldView {
            regions: spec_scale_populations(old(world)@.regions, num as int, den as int),
            ..old(world)@
        }),
{
    let ghost w0 = world@;
    let n = world.regions.len();
    let mut i: usize = 0;
    while i < n
        invariant
            i <= n,
            den != 0,
            world.regions@.len() == n,
            n == w0.regions.len(),
            world@ == (WorldView { regions: world@.regions, ..w0 }),
            forall|j: int| 0 <= j < i ==> world.regions@[j]@ == #[trigger] spec_scale_populations(
                w0.regions,
                num as int,
                den as int,
            )[j],
            forall|j: int| i <= j < n ==> #[trigger] world.regions@[j]@ == w0.regions[j],
        decreases n - i,
    {
        let ghost prev = world.regions@[i as int];
        let r = &mut world.regions[i];
        let p = r.population;
        r.population = amt_mul_div(p, num, den);
        proof {
            crate::state::lemma_region_views_index(old(world).regions@, i as int);
            assert(prev@ == w0.regions[i as int]);
            assert(world.regions@[i as int]@ =~= spec_scale_populations(
                w0.regions,
                num as int,
                den as int,
            )[i as int]);
        }
        i = i + 1;
    }
    proof {
        assert(world@.regions =~= spec_scale_populations(w0.regions, num as int, den as int));
        assert(world@ =~~= (WorldView {
            regions: spec_scale_populations(w0.regions, num as int, den as int),
            ..w0
        }));
    }
}

/// Shift every region's outlook by `round(mult * demand[o])` whole units.
#[verifier::loop_isolation(false)]
fn outlook_by_demand(world: &mut World, o: Output, mult: i64, add: bool)
    ensures
        final(world)@ == (WorldView {
            regions: spec_outlook_by_demand(old(world)@.regions, o, mult as int, add),
            ..old(world)@
        }),
{
    let ghost w0 = world@;
    let n = world.regions.len();
    let mut i: usize = 0;
    while i < n
        invariant
            i <= n,
            world.regions@.len() == n,
            n == w0.regions.len(),
            world@ == (WorldView { regions: world@.regions, ..w0 }),
            forall|j: int| 0 <= j < i ==> world.regions@[j]@ == #[trigger] spec_outlook_by_demand(
                w0.regions,
                o,
                mult as int,
                add,
            )[j],
            forall|j: int| i <= j < n ==> #[trigger] world.regions@[j]@ == w0.regions[j],
        decreases n - i,
    {
        let ghost prev = world.regions@[i as int];
        let r = &mut world.regions[i];
        let d = amt_round_mul(mult, r.demand.get(o));
        let v = r.outlook;
        r.outlook = if add {
            amt_add(v, d)
        } else {
            amt_sub(v, d)
        };
        proof {
            crate::state::lemma_region_views_index(old(world).regions@, i as int);
            assert(prev@ == w0.regions[i as int]);
            assert(world.regions@[i as int]@ =~= spec_outlook_by_demand(
                w0.regions,
                o,
                mult as int,
                add,
            )[i as int]);
        }
        i = i + 1;
    }
    proof {
        assert(world@.regions =~= spec_outlook_by_demand(w0.regions, o, mult as int, add));
        assert(world@ =~~= (WorldView {
            regions: spec_outlook_by_demand(w0.regions, o, mult as int, add),
            ..w0
        }));
    }
}

/// Shift every region's outlook by `round(mult * income)` whole units.
#[verifier::loop_isolation(false)]
fn outlook_by_income(world: &mut World, mult: i64, add: bool)
    ensures
        final(world)@ == (WorldView {
            regions: spec_outlook_by_income(old(world)@.regions, mult as int, add),
            ..old(world)@
        }),
{
    let ghost w0 = world@;
    let n = world.regions.len();
    let mut i: usize = 0;
    while i < n
        invariant
            i <= n,
            world.regions@.len() == n,
            n == w0.regions.len(),
            world@ == (WorldView { regions: world@.regions, ..w0 }),
            forall|j: int| 0 <= j < i ==> world.regions@[j]@ == #[trigger] spec_outlook_by_income(
                w0.regions,
                mult as int,
                add,
            )[j],
            forall|j: int| i <= j < n ==> #[trigger] world.regions@[j]@ == w0.regions[j],
        decreases n - i,
    {
        let ghost prev = world.regions@[i as int];
        let r = &mut world.regions[i];
        let d = amt_round_mul(mult, r.income);
        let v = r.outlook;
        r.outlook = if add {
            amt_add(v, d)
        } else {
            amt_sub(v, d)
        };
        proof {
            crate::state::lemma_region_views_index(old(world).regions@, i as int);
            assert(prev@ == w0.regions[i as int]);
            assert(world.regions@[i as int]@ =~= spec_outlook_by_income(
                w0.regions,
                mult as int,
                add,
            )[i as int]);
        }
        i = i + 1;
    }
    proof {
        assert(world@.regions =~= spec_outlook_by_income(w0.regions, mult as int, add));
        assert(world@ =~~= (WorldView {
            regions: spec_outlook_by_income(w0.regions, mult as int, add),
            ..w0
        }));
    }
}

/// Shift the output modifier of every process carrying feature `f` by `d`.
#[verifier::loop_isolation(false)]
fn shift_feature(processes: &mut Vec<Process>, f: ProcessFeature, d: i64, add: bool)
    ensures
        final(processes)@ == spec_shift_feature(old(processes)@, f, d as int, add),
{
    let ghost ps0 = processes@;
    let n = processes.len();
    let mut i: usize = 0;
    while i < n
        invariant
            i <= n,
            processes@.len() == n,
            n == ps0.len(),
            forall|j: int| 0 <= j < i ==> processes@[j] == #[trigger] spec_shift_feature(
                ps0,
                f,
                d as int,
                add,
            )[j],
            forall|j: int| i <= j < n ==> #[trigger] processes@[j] == ps0[j],
        decreases n - i,
    {
        if processes[i].has_feature(f) {
            let p = &mut processes[i];
            let v = p.output_modifier;
            p.output_modifier = if add {
                amt_add(v, d)
            } else {
                amt_sub(v, d)
            };
        }
        i = i + 1;
    }
    proof {
        assert(processes@ =~= spec_shift_feature(ps0, f, d as int, add));
    }
}

/// Habitability sums stay within `n` times the `i64` range.
proof fn lemma_sum_habitability_bound(rs: Seq<RegionView>, n: int)
    requires
        0 <= n <= rs.len(),
    ensures
        -(n * 0x8000_0000_0000_0000) <= sum_habitability(rs, n) <= n * 0x7FFF_FFFF_FFFF_FFFF,
    decreases n,
{
    if n > 0 {
        lemma_sum_habitability_bound(rs, n - 1);
        assert((n - 1) * 0x8000_0000_0000_0000 + 0x8000_0000_0000_0000 == n
            * 0x8000_0000_0000_0000) by (nonlinear_arith);
        assert((n - 1) * 0x7FFF_FFFF_FFFF_FFFF + 0x7FFF_FFFF_FFFF_FFFF == n
            * 0x7FFF_FFFF_FFFF_FFFF) by (nonlinear_arith);
    }
}

/// The mean habitability over all regions.
#[verifier::loop_isolation(false)]
fn mean_habitability(regions: &Vec<Region>) -> (r: i64)
    requires
        1 <= regions@.len() <= MAX_REGIONS,
    ensures
        r as int == spec_mean_habitability(crate::state::region_views(regions@)),
{
    let ghost rv = crate::state::region_views(regions@);
    let n = regions.len();
    let mut acc: i128 = 0;
    let mut i: usize = 0;
    while i < n
        invariant
            i <= n,
            n == regions@.len(),
            n == rv.len(),
            n <= MAX_REGIONS,
            forall|j: int| 0 <= j < n ==> (#[trigger] rv[j]).base_habitability == regions@[j]@
                .base_habitability,
            acc as int == sum_habitability(rv, i as int),
            -((i as int) * 0x8000_0000_0000_0000) <= acc as int <= (i as int)
                * 0x7FFF_FFFF_FFFF_FFFF,
        decreases n - i,
    {
        proof {
            lemma_sum_habitability_bound(rv, i as int + 1);
            assert(rv[i as int] == regions@[i as int]@);
        }
        acc = acc + (regions[i].base_habitability as i128);
        i = i + 1;
    }
    proof {
        lemma_sum_habitability_bound(rv, n as int);
    }
    let neg: bool = acc < 0;
    let m: u128 = if neg {
        (-acc) as u128
    } else {
        acc as u128
    };
    let q: u128 = m / (n as u128);
    proof {
        if neg {
            vstd::arithmetic::div_mod::lemma_div_is_ordered(
                m as int,
                (n as int) * 0x8000_0000_0000_0000,
                n as int,
            );
            assert(((n as int) * 0x8000_0000_0000_0000) / (n as int) == 0x8000_0000_0000_0000)
                by {
                vstd::arithmetic::div_mod::lemma_div_by_multiple(0x8000_0000_0000_0000, n as int);
                assert((n as int) * 0x8000_0000_0000_0000 == 0x8000_0000_0000_0000 * (n as int))
                    by (nonlinear_arith);
            }
        } else {
            vstd::arithmetic::div_mod::lemma_div_is_ordered(
                m as int,
                (n as int) * 0x7FFF_FFFF_FFFF_FFFF,
                n as int,
            );
            assert(((n as int) * 0x7FFF_FFFF_FFFF_FFFF) / (n as int) == 0x7FFF_FFFF_FFFF_FFFF)
                by {
                vstd::arithmetic::div_mod::lemma_div_by_multiple(0x7FFF_FFFF_FFFF_FFFF, n as int);
                assert((n as int) * 0x7FFF_FFFF_FFFF_FFFF == 0x7FFF_FFFF_FFFF_FFFF * (n as int))
                    by (nonlinear_arith);
            }
        }
    }
    if neg {
        (-(q as i128)) as i64
    } else {
        q as i64
    }
}

impl Effect {
    /// Apply this effect to the game state: perform exactly the one state
    /// mutation `spec_apply` describes for this variant, confined to the
    /// aggregate (and, for region-scoped variants, to the given region).
    #[verifier::rlimit(100)]
    pub fn apply(&self, game: &mut Game, region_id: Option<usize>)
        requires
            effect_targets_ok(*self, old(game)@, region_id),
        ensures
            final(game)@ == spec_apply(*self, old(game)@, region_id),
    {
        let ghost g0 = game@;
        match self {
            Effect::LocalVariable(var, change) => {
                match region_id {
                    Option::Some(id) => {
                        let r = &mut game.world.regions[id];
                        match var {
                            LocalVariable::Population => {
                                let f = amt_add(1000, amt_div(*change, 100));
                                let v = r.population;
                                r.population = amt_mul_div(v, f, 1000);
                            },
                            LocalVariable::Outlook => {
                                let v = r.outlook;
                                r.outlook = amt_add(v, *change);
                            },
                            LocalVariable::Habitability => {
                                let v = r.base_habitability;
                                r.base_habitability = amt_add(v, *change);
                            },
                        }
                    },
                    Option::None => {},
                }
            },
            Effect::WorldVariable(var, change) => {
                match var {
                    WorldVariable::Year => {
                        let u = amt_div(*change, 1000);
                        let v = game.world.year;
                        game.world.year = amt_add(v, u);
                    },
                    WorldVariable::Population => {
                        let f = amt_add(1000, amt_div(*change, 100));
                        scale_populations(&mut game.world, f, 1000);
                    },
                    WorldVariable::PopulationGrowth => {
                        let u = amt_div(*change, 100);
                        let v = game.world.population_growth_modifier;
                        game.world.population_growth_modifier = amt_add(v, u);
                    },
                    WorldVariable::Emissions => {
                        let v = game.world.byproduct_mods.co2;
                        game.world.byproduct_mods.co2 = amt_add(v, *change);
                    },
                    WorldVariable::ExtinctionRate => {
                        let v = game.world.byproduct_mods.biodiversity;
                        game.world.byproduct_mods.biodiversity = amt_sub(v, *change);
                    },
                    WorldVariable::Outlook => {
                        let v = game.world.outlook;
                        game.world.outlook = amt_add(v, *change);
                    },
                    WorldVariable::Temperature => {
                        let v = game.world.temperature_modifier;
                        game.world.temperature_modifier = amt_add(v, *change);
                    },
                    WorldVariable::WaterStress => {
                        let v = game.world.water_stress;
                        game.world.water_stress = amt_add(v, *change);
                    },
                    WorldVariable::SeaLevelRise => {
                        let v = game.world.sea_level_rise;
                        game.world.sea_level_rise = amt_add(v, *change);
                    },
                    WorldVariable::Precipitation => {
                        let v = game.world.precipitation;
                        game.world.precipitation = amt_add(v, *change);
                    },
                }
            },
            Effect::PlayerVariable(var, change) => {
                let u = amt_div(*change, 1000);
                match var {
                    PlayerVariable::PoliticalCapital => {
                        let v = game.political_capital;
                        game.political_capital = amt_add(v, u);
                    },
                    PlayerVariable::MalthusianPoints => {
                        let v = game.malthusian_points;
                        game.malthusian_points = amt_add_clamp0(v, u);
                    },
                    PlayerVariable::HESPoints => {
                        let v = game.hes_points;
                        game.hes_points = amt_add_clamp0(v, u);
                    },
                    PlayerVariable::FALCPoints => {
                        let v = game.falc_points;
                        game.falc_points = amt_add_clamp0(v, u);
                    },
                }
            },
            Effect::Resource(res, pct) => {
                let v = game.resources.get(*res);
                let f = amt_add(1000, *pct);
                game.resources.set(*res, amt_mul_div(v, f, 1000));
            },
            Effect::Demand(o, pct) => {
                let v = game.output_demand_modifier.get(*o);
                game.output_demand_modifier.set(*o, amt_add(v, *pct));
            },
            Effect::DemandAmount(o, amount) => {
                let v = game.output_demand_extras.get(*o);
                game.output_demand_extras.set(*o, amt_add(v, *amount));
            },
            Effect::Output(o, pct) => {
                let v = game.output_modifier.get(*o);
                game.output_modifier.set(*o, amt_add(v, *pct));
            },
            Effect::OutputForFeature(f, pct) => {
                shift_feature(&mut game.processes, *f, *pct, true);
            },
            Effect::OutputForProcess(id, pct) => {
                let p = &mut game.processes[*id];
                let v = p.output_modifier;
                p.output_modifier = amt_add(v, *pct);
            },
            Effect::Feedstock(fs, pct) => {
                let v = game.feedstocks.get(*fs);
                game.feedstocks.set(*fs, amt_mul_div(v, *pct, 1000));
            },
            Effect::AddEvent(id) => {
                let ev = &mut game.events[*id];
                ev.locked = false;
            },
            Effect::TriggerEvent(id, years) => {
                game.event_queue.push(
                    QueuedEvent { event_id: *id, region_id, years: *years },
                );
            },
            Effect::UnlocksProject(id) => {
                let p = &mut game.projects[*id];
                p.locked = false;
            },
            Effect::UnlocksProcess(id) => {
                let p = &mut game.processes[*id];
                p.locked = false;
            },
            Effect::ProjectRequest(id, active, bounty) => {
                game.requests.push(
                    Request {
                        kind: RequestKind::Project,
                        target_id: *id,
                        active: *active,
                        bounty: *bounty,
                    },
                );
            },
            Effect::ProcessRequest(id, active, bounty) => {
                game.requests.push(
                    Request {
                        kind: RequestKind::Process,
                        target_id: *id,
                        active: *active,
                        bounty: *bounty,
                    },
                );
            },
            Effect::Migration => {
                match region_id {
                    Option::Some(id) => {
                        migrate_from(&mut game.world, id);
                    },
                    Option::None => {},
                }
            },
            Effect::RegionLeave => {
                match region_id {
                    Option::Some(id) => {
                        let r = &mut game.world.regions[id];
                        r.seceded = true;
                    },
                    Option::None => {},
                }
            },
            Effect::AddRegionFlag(flag) => {
                match region_id {
                    Option::Some(id) => {
                        let r = &mut game.world.regions[id];
                        r.flags.push(flag.clone());
                    },
                    Option::None => {},
                }
            },
            Effect::AddFlag(f) => {
                game.flags.push(*f);
            },
            Effect::AutoClick(_, _) => {
                // purely a presentation hint; no engine-side state changes
            },
            Effect::NPCRelationship(id, change) => {
                let n = &mut game.npcs[*id];
                let v = n.relationship;
                n.relationship = amt_add(v, *change);
            },
            Effect::ModifyIndustryByproducts(id, b, mult) => {
                let ind = &mut game.industries[*id];
                let v = ind.byproducts.get(*b);
                ind.byproducts.set(*b, amt_mul_div(v, *mult, 1000));
            },
            Effect::ModifyIndustryResources(id, res, mult) => {
                let ind = &mut game.industries[*id];
                let v = ind.resources.get(*res);
                ind.resources.set(*res, amt_mul_div(v, *mult, 1000));
            },
            Effect::ModifyEventProbability(id, change) => {
                let ev = &mut game.events[*id];
                let v = ev.prob_modifier;
                ev.prob_modifier = amt_add(v, *change);
            },
            Effect::ModifyIndustryDemand(id, change) => {
                let ind = &mut game.industries[*id];
                let v = ind.demand_modifier;
                ind.demand_modifier = amt_add(v, *change);
            },
            Effect::DemandOutlookChange(o, mult) => {
                outlook_by_demand(&mut game.world, *o, *mult, true);
            },
            Effect::IncomeOutlookChange(mult) => {
                outlook_by_income(&mut game.world, *mult, true);
            },
            Effect::ProjectCostModifier(id, change) => {
                let p = &mut game.projects[*id];
                let v = p.cost_modifier;
                p.cost_modifier = amt_add(v, *change);
            },
            Effect::ProtectLand(pct) => {
                let u = amt_div(*pct, 100);
                let v = game.protected_land;
                game.protected_land = amt_add(v, u);
            },
        }
        proof {
            assert(game@ =~~= spec_apply(*self, g0, region_id));
        }
    }

    /// Undo this effect: perform exactly the inverse transition
    /// `spec_unapply` describes. Non-reversible variants are deliberate
    /// no-ops, as are inverse divisions whose factor is zero.
    #[verifier::rlimit(100)]
    pub fn unapply(&self, game: &mut Game, region_id: Option<usize>)
        requires
            effect_targets_ok(*self, old(game)@, region_id),
        ensures
            final(game)@ == spec_unapply(*self, old(game)@, region_id),
    {
        let ghost g0 = game@;
        match self {
            Effect::LocalVariable(var, change) => {
                match region_id {
                    Option::Some(id) => {
                        let r = &mut game.world.regions[id];
                        match var {
                            LocalVariable::Population => {
                                let f = amt_add(1000, amt_div(*change, 100));
                                if f != 0 {
                                    let v = r.population;
                                    r.population = amt_mul_div(v, 1000, f);
                                }
                            },
                            LocalVariable::Outlook => {
                                let v = r.outlook;
                                r.outlook = amt_sub(v, *change);
                            },
                            LocalVariable::Habitability => {
                                let v = r.base_habitability;
                                r.base_habitability = amt_sub(v, *change);
                            },
                        }
                        proof {
                            // a zero inverse factor leaves the region as it
                            // was, which is the same as rewriting it unchanged
                            if var is Population && pop_factor(*change as int) == 0 {
                                assert(game.world.regions@ =~= old(game).world.regions@.update(
                                    id as int,
                                    old(game).world.regions@[id as int],
                                ));
                            }
                        }
                    },
                    Option::None => {},
                }
            },
            Effect::WorldVariable(var, change) => {
                match var {
                    WorldVariable::Year => {
                        let u = amt_div(*change, 1000);
                        let v = game.world.year;
                        game.world.year = amt_sub(v, u);
                    },
                    WorldVariable::Population => {
                        let f = amt_add(1000, amt_div(*change, 100));
                        if f != 0 {
                            scale_populations(&mut game.world, 1000, f);
                        }
                    },
                    WorldVariable::PopulationGrowth => {
                        let u = amt_div(*change, 100);
                        let v = game.world.population_growth_modifier;
                        game.world.population_growth_modifier = amt_sub(v, u);
                    },
                    WorldVariable::Emissions => {
                        let v = game.world.byproduct_mods.co2;
                        game.world.byproduct_mods.co2 = amt_sub(v, *change);
                    },
                    WorldVariable::ExtinctionRate => {
                        let v = game.world.byproduct_mods.biodiversity;
                        game.world.byproduct_mods.biodiversity = amt_add(v, *change);
                    },
                    WorldVariable::Outlook => {
                        let v = game.world.outlook;
                        game.world.outlook = amt_sub(v, *change);
                    },
                    WorldVariable::Temperature => {
                        let v = game.world.temperature_modifier;
                        game.world.temperature_modifier = amt_sub(v, *change);
                    },
                    WorldVariable::WaterStress => {
                        let v = game.world.water_stress;
                        game.world.water_stress = amt_sub(v, *change);
                    },
                    WorldVariable::SeaLevelRise => {
                        let v = game.world.sea_level_rise;
                        game.world.sea_level_rise = amt_sub(v, *change);
                    },
                    WorldVariable::Precipitation => {
                        let v = game.world.precipitation;
                        game.world.precipitation = amt_sub(v, *change);
                    },
                }
            },
            Effect::PlayerVariable(var, change) => {
                let u = amt_div(*change, 1000);
                match var {
                    PlayerVariable::PoliticalCapital => {
                        let v = game.political_capital;
                        game.political_capital = amt_sub(v, u);
                    },
                    PlayerVariable::MalthusianPoints => {
                        let v = game.malthusian_points;
                        game.malthusian_points = amt_sub_clamp0(v, u);
                    },
                    PlayerVariable::HESPoints => {
                        let v = game.hes_points;
                        game.hes_points = amt_sub_clamp0(v, u);
                    },
                    PlayerVariable::FALCPoints => {
                        let v = game.falc_points;
                        game.falc_points = amt_sub_clamp0(v, u);
                    },
                }
            },
            Effect::Resource(res, pct) => {
                let f = amt_add(1000, *pct);
                if f != 0 {
                    let v = game.resources.get(*res);
                    game.resources.set(*res, amt_mul_div(v, 1000, f));
                }
            },
            Effect::Demand(o, pct) => {
                let v = game.output_demand_modifier.get(*o);
                game.output_demand_modifier.set(*o, amt_sub(v, *pct));
            },
            Effect::DemandAmount(o, amount) => {
                let v = game.output_demand_extras.get(*o);
                game.output_demand_extras.set(*o, amt_sub(v, *amount));
            },
            Effect::Output(o, pct) => {
                let v = game.output_modifier.get(*o);
                game.output_modifier.set(*o, amt_sub(v, *pct));
            },
            Effect::OutputForFeature(f, pct) => {
                shift_feature(&mut game.processes, *f, *pct, false);
            },
            Effect::OutputForProcess(id, pct) => {
                let p = &mut game.processes[*id];
                let v = p.output_modifier;
                p.output_modifier = amt_sub(v, *pct);
            },
            Effect::Feedstock(fs, pct) => {
                if *pct != 0 {
                    let v = game.feedstocks.get(*fs);
                    game.feedstocks.set(*fs, amt_mul_div(v, 1000, *pct));
                }
            },
            Effect::NPCRelationship(id, change) => {
                let n = &mut game.npcs[*id];
                let v = n.relationship;
                n.relationship = amt_sub(v, *change);
            },
            Effect::ModifyIndustryByproducts(id, b, mult) => {
                if *mult != 0 {
                    let ind = &mut game.industries[*id];
                    let v = ind.byproducts.get(*b);
                    ind.byproducts.set(*b, amt_mul_div(v, 1000, *mult));
                }
            },
            Effect::ModifyIndustryResources(id, res, mult) => {
                if *mult != 0 {
                    let ind = &mut game.industries[*id];
                    let v = ind.resources.get(*res);
                    ind.resources.set(*res, amt_mul_div(v, 1000, *mult));
                }
            },
            Effect::ModifyEventProbability(id, change) => {
                let ev = &mut game.events[*id];
                let v = ev.prob_modifier;
                ev.prob_modifier = amt_sub(v, *change);
            },
            Effect::ModifyIndustryDemand(id, change) => {
                let ind = &mut game.industries[*id];
                let v = ind.demand_modifier;
                ind.demand_modifier = amt_sub(v, *change);
            },
            Effect::DemandOutlookChange(o, mult) => {
                outlook_by_demand(&mut game.world, *o, *mult, false);
            },
            Effect::IncomeOutlookChange(mult) => {
                outlook_by_income(&mut game.world, *mult, false);
            },
            Effect::ProjectCostModifier(id, change) => {
                let p = &mut game.projects[*id];
                let v = p.cost_modifier;
                p.cost_modifier = amt_sub(v, *change);
            },
            Effect::ProtectLand(pct) => {
                let u = amt_div(*pct, 100);
                let v = game.protected_land;
                game.protected_land = amt_sub(v, u);
            },
            _ => {
                // non-reversible variants: deliberately a no-op
            },
        }
        proof {
            assert(game@ =~~= spec_unapply(*self, g0, region_id));
        }
    }
}

/// One migration wave out of region `id`, as `spec_migrate` describes.
#[verifier::loop_isolation(false)]
fn migrate_from(world: &mut World, id: usize)
    requires
        (id as int) < old(world)@.regions.len(),
        old(world)@.regions.len() <= MAX_REGIONS,
    ensures
        final(world)@ == (WorldView {
            regions: spec_migrate(old(world)@.regions, id as int),
            ..old(world)@
        }),
{
    let ghost rv0 = world@.regions;
    let n = world.regions.len();
    let p0 = world.regions[id].population;
    let leave = amt_div(p0, MIGRATION_WAVE_DIVISOR);
    proof {
        // `leave` has the sign of the population and no larger magnitude
        vstd::arithmetic::div_mod::lemma_div_nonincreasing(
            crate::num::mag(p0 as int),
            MIGRATION_WAVE_DIVISOR as int,
        );
        vstd::arithmetic::div_mod::lemma_div_pos_is_pos(
            crate::num::mag(p0 as int),
            MIGRATION_WAVE_DIVISOR as int,
        );
    }
    let mean = mean_habitability(&world.regions);
    let mut cnt: usize = 0;
    let mut j: usize = 0;
    while j < n
        invariant
            j <= n,
            n == world.regions@.len(),
            n == rv0.len(),
            world@.regions == rv0,
            cnt as int == count_above(rv0, id as int, mean as int, j as int),
            cnt <= j,
        decreases n - j,
    {
        if j != id && world.regions[j].base_habitability > mean {
            cnt = cnt + 1;
        }
        proof {
            assert(rv0[j as int] == world.regions@[j as int]@);
        }
        j = j + 1;
    }
    let per: i64 = if cnt > 0 {
        amt_div(leave, cnt as i64)
    } else {
        0
    };
    let mut k: usize = 0;
    while k < n
        invariant
            k <= n,
            n == world.regions@.len(),
            n == rv0.len(),
            (id as int) < n,
            world@ == (WorldView { regions: world@.regions, ..old(world)@ }),
            p0 == rv0[id as int].population,
            leave as int == tdiv(p0 as int, MIGRATION_WAVE_DIVISOR as int),
            mean as int == spec_mean_habitability(rv0),
            cnt as int == count_above(rv0, id as int, mean as int, rv0.len() as int),
            per as int == if cnt > 0 {
                tdiv(leave as int, cnt as int)
            } else {
                0
            },
            p0 >= 0 ==> 0 <= leave <= p0,
            p0 < 0 ==> p0 <= leave <= 0,
            forall|j2: int| 0 <= j2 < k ==> world.regions@[j2]@ == #[trigger] spec_migrate(
                rv0,
                id as int,
            )[j2],
            forall|j2: int| k <= j2 < n ==> #[trigger] world.regions@[j2]@ == rv0[j2],
        decreases n - k,
    {
        let ghost prevk = world.regions@[k as int];
        if k == id {
            let r = &mut world.regions[k];
            r.population = p0 - leave;
        } else if world.regions[k].base_habitability > mean {
            let r = &mut world.regions[k];
            let v = r.population;
            r.population = amt_add(v, per);
        }
        proof {
            crate::state::lemma_region_views_index(old(world).regions@, k as int);
            assert(prevk@ == rv0[k as int]);
            assert(world.regions@[k as int]@ =~= spec_migrate(rv0, id as int)[k as int]);
        }
        k = k + 1;
    }
    proof {
        assert(world@.regions =~= spec_migrate(rv0, id as int));
        assert(world@ =~~= (WorldView { regions: spec_migrate(rv0, id as int), ..old(world)@ }));
    }
}

/// A value that the saturating range still represents exactly.
pub open spec fn in_amt(x: int) -> bool {
    -(AMT_MAX as int) <= x <= AMT_MAX as int
}

/// The scaled product `v * f / 1000` loses nothing to truncation.
pub open spec fn exact_scale(v: int, f: int) -> bool {
    tdiv(v * f, 1000) * 1000 == v * f
}

/// A multiplicative step on one value inverts exactly when the factor is
/// non-zero, the scaling is exact and nothing saturates.
pub open spec fn scale_roundtrip_ok(v: int, f: int) -> bool {
    f != 0 && in_amt(v) && exact_scale(v, f) && in_amt(tdiv(v * f, 1000))
}

/// An additive step on one value inverts exactly when nothing saturates.
pub open spec fn add_roundtrip_ok(v: int, c: int) -> bool {
    in_amt(v) && in_amt(v + c)
}

/// A clamped-at-zero step on one point counter inverts exactly when the
/// counter stays within `[0, AMT_MAX]` on both sides.
pub open spec fn points_roundtrip_ok(v: int, u: int) -> bool {
    0 <= v <= AMT_MAX as int && 0 <= v + u <= AMT_MAX as int
}

/// Multiplying by `f / 1000` and then by `1000 / f` restores the value.
proof fn lemma_scale_roundtrip(v: int, f: int)
    requires
        scale_roundtrip_ok(v, f),
    ensures
        mul_div_amt(mul_div_amt(v, f, 1000), 1000, f) == v,
{
    let v2 = tdiv(v * f, 1000);
    assert(mul_div_amt(v, f, 1000) == v2);
    assert(v2 * 1000 == v * f);
    lemma_tdiv_exact(v, f);
}

/// The conditions under which one `apply` of a reversible effect is undone
/// exactly by `unapply`: inverse factors are non-zero, multiplicative
/// scalings are exact, and no touched value saturates.
pub open spec fn roundtrip_safe(e: Effect, g: GameView, region_id: Option<usize>) -> bool {
    match e {
        Effect::LocalVariable(var, c) => match region_id {
            Option::None => true,
            Option::Some(id) => {
                let r = g.world.regions[id as int];
                match var {
                    LocalVariable::Population => scale_roundtrip_ok(
                        r.population as int,
                        pop_factor(c as int),
                    ),
                    LocalVariable::Outlook => add_roundtrip_ok(r.outlook as int, c as int),
                    LocalVariable::Habitability => add_roundtrip_ok(
                        r.base_habitability as int,
                        c as int,
                    ),
                }
            },
        },
        Effect::WorldVariable(var, c) => {
            let w = g.world;
            match var {
                WorldVariable::Year => add_roundtrip_ok(w.year as int, tdiv(c as int, 1000)),
                WorldVariable::Population => forall|j: int|
                    0 <= j < w.regions.len() ==> scale_roundtrip_ok(
                        (#[trigger] w.regions[j]).population as int,
                        pop_factor(c as int),
                    ),
                WorldVariable::PopulationGrowth => add_roundtrip_ok(
                    w.population_growth_modifier as int,
                    tdiv(c as int, 100),
                ),
                WorldVariable::Emissions => add_roundtrip_ok(
                    w.byproduct_mods.co2 as int,
                    c as int,
                ),
                WorldVariable::ExtinctionRate => add_roundtrip_ok(
                    w.byproduct_mods.biodiversity as int,
                    -(c as int),
                ),
                WorldVariable::Outlook => add_roundtrip_ok(w.outlook as int, c as int),
                WorldVariable::Temperature => add_roundtrip_ok(
                    w.temperature_modifier as int,
                    c as int,
                ),
                WorldVariable::WaterStress => add_roundtrip_ok(w.water_stress as int, c as int),
                WorldVariable::SeaLevelRise => add_roundtrip_ok(w.sea_level_rise as int, c as int),
                WorldVariable::Precipitation => add_roundtrip_ok(w.precipitation as int, c as int),
            }
        },
        Effect::PlayerVariable(var, c) => {
            let u = tdiv(c as int, 1000);
            match var {
                PlayerVariable::PoliticalCapital => add_roundtrip_ok(g.political_capital as int, u),
                PlayerVariable::MalthusianPoints => points_roundtrip_ok(
                    g.malthusian_points as int,
                    u,
                ),
                PlayerVariable::HESPoints => points_roundtrip_ok(g.hes_points as int, u),
                PlayerVariable::FALCPoints => points_roundtrip_ok(g.falc_points as int, u),
            }
        },
        Effect::Resource(res, pct) => scale_roundtrip_ok(
            g.resources.spec_get(res) as int,
            add_amt(1000, pct as int),
        ),
        Effect::Demand(o, pct) => add_roundtrip_ok(
            g.output_demand_modifier.spec_get(o) as int,
            pct as int,
        ),
        Effect::DemandAmount(o, amount) => add_roundtrip_ok(
            g.output_demand_extras.spec_get(o) as int,
            amount as int,
        ),
        Effect::Output(o, pct) => add_roundtrip_ok(
            g.output_modifier.spec_get(o) as int,
            pct as int,
        ),
        Effect::OutputForFeature(f, pct) => forall|i: int|
            0 <= i < g.processes.len() && (#[trigger] g.processes[i]).spec_has_feature(f)
                ==> add_roundtrip_ok(g.processes[i].output_modifier as int, pct as int),
        Effect::OutputForProcess(id, pct) => add_roundtrip_ok(
            g.processes[id as int].output_modifier as int,
            pct as int,
        ),
        Effect::Feedstock(fs, pct) => scale_roundtrip_ok(
            g.feedstocks.spec_get(fs) as int,
            pct as int,
        ),
        Effect::NPCRelationship(id, c) => add_roundtrip_ok(
            g.npcs[id as int].relationship as int,
            c as int,
        ),
        Effect::ModifyIndustryByproducts(id, b, mult) => scale_roundtrip_ok(
            g.industries[id as int].byproducts.spec_get(b) as int,
            mult as int,
        ),
        Effect::ModifyIndustryResources(id, res, mult) => scale_roundtrip_ok(
            g.industries[id as int].resources.spec_get(res) as int,
            mult as int,
        ),
        Effect::ModifyEventProbability(id, c) => add_roundtrip_ok(
            g.events[id as int].prob_modifier as int,
            c as int,
        ),
        Effect::ModifyIndustryDemand(id, c) => add_roundtrip_ok(
            g.industries[id as int].demand_modifier as int,
            c as int,
        ),
        Effect::DemandOutlookChange(o, m) => forall|j: int|
            0 <= j < g.world.regions.len() ==> add_roundtrip_ok(
                (#[trigger] g.world.regions[j]).outlook as int,
                round_mul_amt(m as int, g.world.regions[j].demand.spec_get(o) as int),
            ),
        Effect::IncomeOutlookChange(m) => forall|j: int|
            0 <= j < g.world.regions.len() ==> add_roundtrip_ok(
                (#[trigger] g.world.regions[j]).outlook as int,
                round_mul_amt(m as int, g.world.regions[j].income as int),
            ),
        Effect::ProjectCostModifier(id, c) => add_roundtrip_ok(
            g.projects[id as int].cost_modifier as int,
            c as int,
        ),
        Effect::ProtectLand(pct) => add_roundtrip_ok(
            g.protected_land as int,
            tdiv(pct as int, 100),
        ),
        _ => true,
    }
}

/// Law (effect round-trip): for every reversible variant, `apply` followed
/// immediately by `unapply` restores the state exactly, provided the
/// inverse factor is non-zero, multiplicative scalings divide exactly, and
/// no touched value saturates.
#[verifier::rlimit(100)]
pub proof fn lemma_roundtrip(e: Effect, g: GameView, region_id: Option<usize>)
    requires
        reversible(e),
        effect_targets_ok(e, g, region_id),
        roundtrip_safe(e, g, region_id),
    ensures
        spec_unapply(e, spec_apply(e, g, region_id), region_id) == g,
{
    let g1 = spec_apply(e, g, region_id);
    let g2 = spec_unapply(e, g1, region_id);
    match e {
        Effect::LocalVariable(var, c) => {
            match region_id {
                Option::Some(id) => {
                    let r = g.world.regions[id as int];
                    if var is Population {
                        lemma_scale_roundtrip(r.population as int, pop_factor(c as int));
                    }
                    assert(g2.world.regions[id as int] =~= r);
                    assert(g2.world.regions =~= g.world.regions);
                },
                Option::None => {},
            }
        },
        Effect::WorldVariable(var, c) => {
            match var {
                WorldVariable::Population => {
                    let f = pop_factor(c as int);
                    assert forall|j: int| 0 <= j < g.world.regions.len() implies #[trigger] g2
                        .world.regions[j] =~= g.world.regions[j] by {
                        lemma_scale_roundtrip(g.world.regions[j].population as int, f);
                    }
                    assert(g2.world.regions =~= g.world.regions);
                },
                _ => {},
            }
        },
        Effect::Resource(res, pct) => {
            lemma_scale_roundtrip(g.resources.spec_get(res) as int, add_amt(1000, pct as int));
        },
        Effect::Feedstock(fs, pct) => {
            lemma_scale_roundtrip(g.feedstocks.spec_get(fs) as int, pct as int);
        },
        Effect::OutputForFeature(f, pct) => {
            assert forall|i: int| 0 <= i < g.processes.len() implies #[trigger] g2.processes[i]
                =~= g.processes[i] by {}
            assert(g2.processes =~= g.processes);
        },
        Effect::OutputForProcess(id, pct) => {
            assert(g2.processes[id as int] =~= g.processes[id as int]);
            assert(g2.processes =~= g.processes);
        },
        Effect::ModifyIndustryByproducts(id, b, mult) => {
            lemma_scale_roundtrip(
                g.industries[id as int].byproducts.spec_get(b) as int,
                mult as int,
            );
            assert(g2.industries[id as int] =~= g.industries[id as int]);
            assert(g2.industries =~= g.industries);
        },
        Effect::ModifyIndustryResources(id, res, mult) => {
            lemma_scale_roundtrip(
                g.industries[id as int].resources.spec_get(res) as int,
                mult as int,
            );
            assert(g2.industries[id as int] =~= g.industries[id as int]);
            assert(g2.industries =~= g.industries);
        },
        Effect::NPCRelationship(id, c) => {
            assert(g2.npcs[id as int] =~= g.npcs[id as int]);
            assert(g2.npcs =~= g.npcs);
        },
        Effect::ModifyEventProbability(id, c) => {
            assert(g2.events[id as int] =~= g.events[id as int]);
            assert(g2.events =~= g.events);
        },
        Effect::ModifyIndustryDemand(id, c) => {
            assert(g2.industries[id as int] =~= g.industries[id as int]);
            assert(g2.industries =~= g.industries);
        },
        Effect::ProjectCostModifier(id, c) => {
            assert(g2.projects[id as int] =~= g.projects[id as int]);
            assert(g2.projects =~= g.projects);
        },
        Effect::DemandOutlookChange(o, m) => {
            assert forall|j: int| 0 <= j < g.world.regions.len() implies #[trigger] g2.world
                .regions[j] =~= g.world.regions[j] by {}
            assert(g2.world.regions =~= g.world.regions);
        },
        Effect::IncomeOutlookChange(m) => {
            assert forall|j: int| 0 <= j < g.world.regions.len() implies #[trigger] g2.world
                .regions[j] =~= g.world.regions[j] by {}
            assert(g2.world.regions =~= g.world.regions);
        },
        _ => {},
    }
    assert(g2 =~~= g);
}

/// Law (non-reversible no-op): `unapply` of a non-reversible variant
/// leaves every state field unchanged.
pub proof fn lemma_nonreversible_noop(e: Effect, g: GameView, region_id: Option<usize>)
    requires
        !reversible(e),
    ensures
        spec_unapply(e, g, region_id) == g,
{
}

/// Law (feature-scoped effect scope): an output-for-feature effect changes
/// `output_modifier` exactly for the processes whose feature set contains
/// the target feature, leaves every other process untouched, and touches
/// nothing else in the state.
pub proof fn lemma_output_for_feature_scope(
    g: GameView,
    f: ProcessFeature,
    pct: i64,
    region_id: Option<usize>,
    i: int,
)
    requires
        0 <= i < g.processes.len(),
    ensures
        ({
            let g1 = spec_apply(Effect::OutputForFeature(f, pct), g, region_id);
            &&& g1.processes.len() == g.processes.len()
            &&& (!g.processes[i].spec_has_feature(f) ==> g1.processes[i] == g.processes[i])
            &&& (g.processes[i].spec_has_feature(f) ==> g1.processes[i] == (Process {
                output_modifier: clamp_amt(g.processes[i].output_modifier as int + pct as int)
                    as i64,
                ..g.processes[i]
            }))
            &&& g1 == (GameView { processes: g1.processes, ..g })
        }),
{
}

} // verus!
