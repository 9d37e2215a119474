use planetsim::effects::{Effect, Flag, LocalVariable, PlayerVariable, WorldVariable};
use planetsim::kinds::{
    Byproduct, ByproductMap, Feedstock, FeedstockMap, Output, OutputMap, Resource, ResourceMap,
};
use planetsim::processes::{Process, ProcessChange, ProcessFeature, ProcessStatus};
use planetsim::state::{Game, GameEvent, Industry, Npc, Project, Region, RequestKind, World};

fn zero_outputs() -> OutputMap {
    OutputMap { fuel: 0, electricity: 0, plant_calories: 0, animal_calories: 0 }
}

fn region(id: usize, population: i64, habitability: i64) -> Region {
    Region {
        id,
        population,
        outlook: 10_000,
        base_habitability: habitability,
        seceded: false,
        flags: vec![],
        demand: zero_outputs(),
        income: 5_000,
    }
}

fn new_game() -> Game {
    Game {
        world: World {
            year: 2030,
            outlook: 0,
            regions: vec![],
            population_growth_modifier: 0,
            byproduct_mods: ByproductMap { co2: 0, biodiversity: 0 },
            temperature_modifier: 0,
            water_stress: 0,
            sea_level_rise: 0,
            precipitation: 0,
        },
        political_capital: 100,
        malthusian_points: 0,
        hes_points: 0,
        falc_points: 0,
        resources: ResourceMap { land: 0, water: 100_000, fuel: 0, electricity: 0 },
        feedstocks: FeedstockMap { coal: 0, oil: 80_000, soil: 0, other: 0 },
        output_demand_modifier: zero_outputs(),
        output_demand_extras: zero_outputs(),
        output_modifier: zero_outputs(),
        processes: vec![],
        projects: vec![],
        events: vec![],
        event_queue: vec![],
        requests: vec![],
        npcs: vec![],
        industries: vec![],
        flags: vec![],
        protected_land: 100,
    }
}

fn solar_process(id: usize, with_feature: bool) -> Process {
    Process {
        id,
        name: format!("process {}", id),
        mix_share: 500,
        output: Output::Electricity,
        output_modifier: 1000,
        resources: ResourceMap { land: 0, water: 0, fuel: 0, electricity: 0 },
        byproducts: ByproductMap { co2: 0, biodiversity: 0 },
        feedstock: (Feedstock::Other, 0),
        features: if with_feature { vec![ProcessFeature::IsSolar] } else { vec![] },
        locked: true,
        status: ProcessStatus::Neutral,
        change: ProcessChange::Neutral,
    }
}

#[test]
fn resource_round_trip() {
    // stock 100.0, Resource(water, 0.5): apply gives 150.0, unapply 100.0
    let mut game = new_game();
    let e = Effect::Resource(Resource::Water, 500);
    e.apply(&mut game, None);
    assert_eq!(game.resources.water, 150_000);
    e.unapply(&mut game, None);
    assert_eq!(game.resources.water, 100_000);
}

#[test]
fn feedstock_uses_raw_multiplier() {
    // feedstocks scale by the raw factor, not 1 + pct
    let mut game = new_game();
    let e = Effect::Feedstock(Feedstock::Oil, 500);
    e.apply(&mut game, None);
    assert_eq!(game.feedstocks.oil, 40_000);
    e.unapply(&mut game, None);
    assert_eq!(game.feedstocks.oil, 80_000);
}

#[test]
fn additive_world_variable_round_trip() {
    let mut game = new_game();
    let e = Effect::WorldVariable(WorldVariable::Temperature, 1_500);
    e.apply(&mut game, None);
    assert_eq!(game.world.temperature_modifier, 1_500);
    e.unapply(&mut game, None);
    assert_eq!(game.world.temperature_modifier, 0);
}

#[test]
fn extinction_rate_subtracts() {
    let mut game = new_game();
    let e = Effect::WorldVariable(WorldVariable::ExtinctionRate, 2_000);
    e.apply(&mut game, None);
    assert_eq!(game.world.byproduct_mods.biodiversity, -2_000);
    e.unapply(&mut game, None);
    assert_eq!(game.world.byproduct_mods.biodiversity, 0);
}

#[test]
fn political_capital_truncates_to_units() {
    // a delta of 2.5 adds 2 whole units of political capital
    let mut game = new_game();
    let e = Effect::PlayerVariable(PlayerVariable::PoliticalCapital, 2_500);
    e.apply(&mut game, None);
    assert_eq!(game.political_capital, 102);
    e.unapply(&mut game, None);
    assert_eq!(game.political_capital, 100);
}

#[test]
fn points_never_go_negative() {
    let mut game = new_game();
    let e = Effect::PlayerVariable(PlayerVariable::MalthusianPoints, -3_000);
    e.unapply(&mut game, None);
    assert_eq!(game.malthusian_points, 3);
    let f = Effect::PlayerVariable(PlayerVariable::HESPoints, -5_000);
    f.apply(&mut game, None);
    assert_eq!(game.hes_points, 0);
}

#[test]
fn local_population_percentage() {
    // +50% population in region 0, exactly undone
    let mut game = new_game();
    game.world.regions.push(region(0, 10_000, 0));
    let e = Effect::LocalVariable(LocalVariable::Population, 50_000);
    e.apply(&mut game, Some(0));
    assert_eq!(game.world.regions[0].population, 15_000);
    e.unapply(&mut game, Some(0));
    assert_eq!(game.world.regions[0].population, 10_000);
}

#[test]
fn region_scoped_effect_without_region_is_noop() {
    let mut game = new_game();
    game.world.regions.push(region(0, 10_000, 0));
    let e = Effect::LocalVariable(LocalVariable::Outlook, 7_000);
    e.apply(&mut game, None);
    assert_eq!(game.world.regions[0].outlook, 10_000);
}

#[test]
fn world_population_scales_every_region() {
    let mut game = new_game();
    game.world.regions.push(region(0, 10_000, 0));
    game.world.regions.push(region(1, 4_000, 0));
    let e = Effect::WorldVariable(WorldVariable::Population, 25_000);
    e.apply(&mut game, None);
    assert_eq!(game.world.regions[0].population, 12_500);
    assert_eq!(game.world.regions[1].population, 5_000);
    e.unapply(&mut game, None);
    assert_eq!(game.world.regions[0].population, 10_000);
    assert_eq!(game.world.regions[1].population, 4_000);
}

#[test]
fn output_for_feature_is_scoped() {
    let mut game = new_game();
    game.processes.push(solar_process(0, true));
    game.processes.push(solar_process(1, false));
    let e = Effect::OutputForFeature(ProcessFeature::IsSolar, 250);
    e.apply(&mut game, None);
    assert_eq!(game.processes[0].output_modifier, 1_250);
    assert_eq!(game.processes[1].output_modifier, 1_000);
    e.unapply(&mut game, None);
    assert_eq!(game.processes[0].output_modifier, 1_000);
    assert_eq!(game.processes[1].output_modifier, 1_000);
}

#[test]
fn output_for_process_targets_one_process() {
    let mut game = new_game();
    game.processes.push(solar_process(0, false));
    game.processes.push(solar_process(1, false));
    let e = Effect::OutputForProcess(1, -100);
    e.apply(&mut game, None);
    assert_eq!(game.processes[0].output_modifier, 1_000);
    assert_eq!(game.processes[1].output_modifier, 900);
}

#[test]
fn unlock_is_not_reversible() {
    let mut game = new_game();
    game.projects.push(Project { id: 0, locked: true, cost_modifier: 0 });
    let e = Effect::UnlocksProject(0);
    e.apply(&mut game, None);
    assert!(!game.projects[0].locked);
    // unapply of a one-shot unlock leaves all state unchanged
    e.unapply(&mut game, None);
    assert!(!game.projects[0].locked);
    assert_eq!(game.projects[0].cost_modifier, 0);
}

#[test]
fn requests_are_enqueued() {
    let mut game = new_game();
    let e = Effect::ProjectRequest(7, true, 3);
    e.apply(&mut game, None);
    let f = Effect::ProcessRequest(2, false, 1);
    f.apply(&mut game, None);
    assert_eq!(game.requests.len(), 2);
    assert_eq!(game.requests[0].kind, RequestKind::Project);
    assert_eq!(game.requests[0].target_id, 7);
    assert!(game.requests[0].active);
    assert_eq!(game.requests[0].bounty, 3);
    assert_eq!(game.requests[1].kind, RequestKind::Process);
}

#[test]
fn trigger_event_queues_with_region() {
    let mut game = new_game();
    let e = Effect::TriggerEvent(4, 2);
    game.events.push(GameEvent { id: 4, locked: false, prob_modifier: 0 });
    e.apply(&mut game, Some(9));
    assert_eq!(game.event_queue.len(), 1);
    assert_eq!(game.event_queue[0].event_id, 4);
    assert_eq!(game.event_queue[0].region_id, Some(9));
    assert_eq!(game.event_queue[0].years, 2);
}

#[test]
fn region_leave_and_flags() {
    let mut game = new_game();
    game.world.regions.push(region(0, 1_000, 0));
    Effect::RegionLeave.apply(&mut game, Some(0));
    assert!(game.world.regions[0].seceded);
    Effect::AddRegionFlag("coastal".to_string()).apply(&mut game, Some(0));
    assert_eq!(game.world.regions[0].flags, vec!["coastal".to_string()]);
    Effect::AddFlag(Flag::Vegan).apply(&mut game, None);
    assert_eq!(game.flags, vec![Flag::Vegan]);
}

#[test]
fn migration_redistributes_to_above_mean_regions() {
    let mut game = new_game();
    game.world.regions.push(region(0, 10_000, 0));
    game.world.regions.push(region(1, 1_000, 9_000));
    game.world.regions.push(region(2, 1_000, -3_000));
    // mean habitability = (0 + 9000 - 3000) / 3 = 2000; only region 1 is above
    Effect::Migration.apply(&mut game, Some(0));
    assert_eq!(game.world.regions[0].population, 9_000);
    assert_eq!(game.world.regions[1].population, 2_000);
    assert_eq!(game.world.regions[2].population, 1_000);
}

#[test]
fn migration_with_no_target_loses_migrants() {
    let mut game = new_game();
    game.world.regions.push(region(0, 10_000, 5_000));
    // a single region: no other region qualifies, migrants are lost
    Effect::Migration.apply(&mut game, Some(0));
    assert_eq!(game.world.regions[0].population, 9_000);
}

#[test]
fn demand_outlook_change_rounds_per_region() {
    let mut game = new_game();
    let mut r = region(0, 1_000, 0);
    r.demand = OutputMap { fuel: 2_000, ..zero_outputs() };
    game.world.regions.push(r);
    // round(1.5 * 2.0) == 3 whole units of outlook
    let e = Effect::DemandOutlookChange(Output::Fuel, 1_500);
    e.apply(&mut game, None);
    assert_eq!(game.world.regions[0].outlook, 13_000);
    e.unapply(&mut game, None);
    assert_eq!(game.world.regions[0].outlook, 10_000);
}

#[test]
fn income_outlook_change_rounds_per_region() {
    let mut game = new_game();
    game.world.regions.push(region(0, 1_000, 0));
    // round(0.5 * 5.0) == round(2.5) == 3 whole units (half away from zero)
    let e = Effect::IncomeOutlookChange(500);
    e.apply(&mut game, None);
    assert_eq!(game.world.regions[0].outlook, 13_000);
}

#[test]
fn industry_modifiers() {
    let mut game = new_game();
    game.industries.push(Industry {
        id: 0,
        resources: ResourceMap { land: 0, water: 4_000, fuel: 0, electricity: 0 },
        byproducts: ByproductMap { co2: 6_000, biodiversity: 0 },
        demand_modifier: 0,
    });
    Effect::ModifyIndustryByproducts(0, Byproduct::Co2, 500).apply(&mut game, None);
    assert_eq!(game.industries[0].byproducts.co2, 3_000);
    Effect::ModifyIndustryResources(0, Resource::Water, 2_000).apply(&mut game, None);
    assert_eq!(game.industries[0].resources.water, 8_000);
    Effect::ModifyIndustryDemand(0, 700).apply(&mut game, None);
    assert_eq!(game.industries[0].demand_modifier, 700);
    Effect::ModifyIndustryDemand(0, 700).unapply(&mut game, None);
    assert_eq!(game.industries[0].demand_modifier, 0);
}

#[test]
fn event_and_project_modifiers() {
    let mut game = new_game();
    game.events.push(GameEvent { id: 0, locked: true, prob_modifier: 0 });
    game.projects.push(Project { id: 0, locked: false, cost_modifier: 0 });
    Effect::AddEvent(0).apply(&mut game, None);
    assert!(!game.events[0].locked);
    Effect::ModifyEventProbability(0, 150).apply(&mut game, None);
    assert_eq!(game.events[0].prob_modifier, 150);
    Effect::ProjectCostModifier(0, -250).apply(&mut game, None);
    assert_eq!(game.projects[0].cost_modifier, -250);
    Effect::ProtectLand(5_000).apply(&mut game, None);
    // 5% of land: 0.05 in millis
    assert_eq!(game.protected_land, 150);
}

#[test]
fn zero_factor_inverses_are_guarded() {
    // dividing by a zero factor on unapply is a guarded no-op
    let mut game = new_game();
    Effect::Feedstock(Feedstock::Oil, 0).apply(&mut game, None);
    assert_eq!(game.feedstocks.oil, 0);
    Effect::Feedstock(Feedstock::Oil, 0).unapply(&mut game, None);
    assert_eq!(game.feedstocks.oil, 0);
    // Resource(r, -1.0) makes the factor zero: unapply leaves the stock alone
    Effect::Resource(Resource::Water, -1_000).apply(&mut game, None);
    assert_eq!(game.resources.water, 0);
    Effect::Resource(Resource::Water, -1_000).unapply(&mut game, None);
    assert_eq!(game.resources.water, 0);
}

#[test]
fn npc_relationship_round_trip() {
    let mut game = new_game();
    game.npcs.push(Npc { id: 0, relationship: 2_000 });
    let e = Effect::NPCRelationship(0, 750);
    e.apply(&mut game, None);
    assert_eq!(game.npcs[0].relationship, 2_750);
    e.unapply(&mut game, None);
    assert_eq!(game.npcs[0].relationship, 2_000);
}

#[test]
fn auto_click_is_engine_noop() {
    let mut game = new_game();
    let e = Effect::AutoClick(3, 500);
    e.apply(&mut game, None);
    e.unapply(&mut game, None);
    assert_eq!(game.political_capital, 100);
    assert_eq!(game.flags.len(), 0);
}

#[test]
fn year_advances_by_whole_years() {
    let mut game = new_game();
    let e = Effect::WorldVariable(WorldVariable::Year, 5_000);
    e.apply(&mut game, None);
    assert_eq!(game.world.year, 2035);
    e.unapply(&mut game, None);
    assert_eq!(game.world.year, 2030);
}

#[test]
fn demand_modifiers_accumulate() {
    let mut game = new_game();
    Effect::Demand(Output::Fuel, 200).apply(&mut game, None);
    Effect::Demand(Output::Fuel, 300).apply(&mut game, None);
    assert_eq!(game.output_demand_modifier.fuel, 500);
    Effect::DemandAmount(Output::Fuel, 9_000).apply(&mut game, None);
    assert_eq!(game.output_demand_extras.fuel, 9_000);
    Effect::Output(Output::Electricity, 400).apply(&mut game, None);
    assert_eq!(game.output_modifier.electricity, 400);
}
