use planetsim::kinds::{ByproductMap, Feedstock, FeedstockMap, Output, OutputMap, ResourceMap};
use planetsim::processes::{
    calculate_mix, update_mixes, Priority, Process, ProcessChange, ProcessFeature, ProcessStatus,
};

fn proc(id: usize, name: &str, share: u64, output: Output, water: i64) -> Process {
    Process {
        id,
        name: name.to_string(),
        mix_share: share,
        output,
        output_modifier: 1000,
        resources: ResourceMap { land: 0, water, fuel: 0, electricity: 0 },
        byproducts: ByproductMap { co2: 0, biodiversity: 0 },
        feedstock: (Feedstock::Oil, 1000),
        features: vec![],
        locked: false,
        status: ProcessStatus::Neutral,
        change: ProcessChange::Neutral,
    }
}

fn gen_processes() -> Vec<Process> {
    vec![
        proc(0, "Test Process A", 500, Output::Fuel, 10_000),
        proc(1, "Test Process B", 500, Output::Fuel, 10_000),
        proc(2, "Test Process C", 1000, Output::Electricity, 2_000),
    ]
}

fn zero_outputs() -> OutputMap {
    OutputMap { fuel: 0, electricity: 0, plant_calories: 0, animal_calories: 0 }
}

fn zero_resources() -> ResourceMap {
    ResourceMap { land: 0, water: 0, fuel: 0, electricity: 0 }
}

fn zero_feedstocks() -> FeedstockMap {
    FeedstockMap { coal: 0, oil: 0, soil: 0, other: 0 }
}

#[test]
fn test_update_mix_share_resources() {
    let mut processes = gen_processes();
    processes[1].resources = ResourceMap { land: 0, water: 2_000, fuel: 0, electricity: 0 };
    let demand = OutputMap { fuel: 100_000, ..zero_outputs() };
    let resource_weights = ResourceMap { water: 100_000, ..zero_resources() };
    let feedstock_weights = zero_feedstocks();
    update_mixes(
        &mut processes,
        &demand,
        &resource_weights,
        &feedstock_weights,
        &Priority::Neutral,
    );

    // Less water intensive process should be favored
    assert!(processes[0].mix_share < processes[1].mix_share);

    // Should be normalized
    assert_eq!(processes[0].mix_share + processes[1].mix_share, 1000);

    // Unrelated process should be unaffected
    assert_eq!(processes[2].mix_share, 1000);
}

#[test]
fn test_update_mix_share_banned() {
    let mut processes = gen_processes();
    processes[0].status = ProcessStatus::Banned;
    let demand = OutputMap { fuel: 100_000, ..zero_outputs() };
    let resource_weights = zero_resources();
    let feedstock_weights = zero_feedstocks();
    update_mixes(
        &mut processes,
        &demand,
        &resource_weights,
        &feedstock_weights,
        &Priority::Neutral,
    );

    // Unbanned process should be favored
    assert!(processes[0].mix_share < processes[1].mix_share);

    // Should be normalized
    assert_eq!(processes[0].mix_share + processes[1].mix_share, 1000);
}

#[test]
fn update_mixes_exact_steps() {
    // A (water 10.0) against B (water 2.0) under a scarce water weight:
    // targets 478 and 521, one bounded step of 10 each, renormalized.
    let mut processes = gen_processes();
    processes[1].resources = ResourceMap { land: 0, water: 2_000, fuel: 0, electricity: 0 };
    let demand = OutputMap { fuel: 100_000, ..zero_outputs() };
    let resource_weights = ResourceMap { water: 100_000, ..zero_resources() };
    update_mixes(
        &mut processes,
        &demand,
        &resource_weights,
        &zero_feedstocks(),
        &Priority::Neutral,
    );
    assert_eq!(processes[0].mix_share, 490);
    assert_eq!(processes[1].mix_share, 510);
    assert_eq!(processes[0].change, ProcessChange::Contracting);
    assert_eq!(processes[1].change, ProcessChange::Expanding);
}

#[test]
fn calculate_mix_targets() {
    let mut processes = gen_processes();
    processes[1].resources = ResourceMap { land: 0, water: 2_000, fuel: 0, electricity: 0 };
    let demand = OutputMap { fuel: 100_000, ..zero_outputs() };
    let resource_weights = ResourceMap { water: 100_000, ..zero_resources() };
    let targets = calculate_mix(
        &processes,
        &demand,
        &resource_weights,
        &zero_feedstocks(),
        &Priority::Neutral,
    );
    // scores: 10_000_000 - 1_000_000 and 10_000_000 - 200_000
    assert_eq!(targets[0], 9_000_000 * 1000 / 18_800_000);
    assert_eq!(targets[1], 9_800_000 * 1000 / 18_800_000);
    // no demand for electricity: no target
    assert_eq!(targets[2], 0);
}

#[test]
fn locked_process_is_frozen() {
    // The locked sibling takes no step; renormalization rescales the pair.
    let mut processes = vec![
        proc(0, "Locked", 500, Output::Fuel, 10_000),
        proc(1, "Cheap", 500, Output::Fuel, 2_000),
    ];
    processes[0].locked = true;
    let demand = OutputMap { fuel: 100_000, ..zero_outputs() };
    let resource_weights = ResourceMap { water: 100_000, ..zero_resources() };
    update_mixes(
        &mut processes,
        &demand,
        &resource_weights,
        &zero_feedstocks(),
        &Priority::Neutral,
    );
    // the locked process takes no step (its sibling expands to 510), then
    // renormalization rescales both so the category sums to one again
    assert_eq!(processes[0].change, ProcessChange::Neutral);
    assert_eq!(processes[0].mix_share + processes[1].mix_share, 1000);
    assert_eq!(processes[0].mix_share, 500 * 1000 / 1010);
}

#[test]
fn promoted_target_is_floored() {
    // Two competing processes; the promoted one is pulled toward at least
    // the promotion floor with an accelerated step of max(share/10, 50).
    let mut processes = vec![
        proc(0, "Plain", 900, Output::Fuel, 0),
        proc(1, "Promoted", 100, Output::Fuel, 0),
    ];
    processes[1].status = ProcessStatus::Promoted;
    let demand = OutputMap { fuel: 100_000, ..zero_outputs() };
    update_mixes(
        &mut processes,
        &demand,
        &zero_resources(),
        &zero_feedstocks(),
        &Priority::Neutral,
    );
    // both targets are 500 (equal scores); promoted expands by 50
    assert_eq!(processes[1].change, ProcessChange::Expanding);
    // plain contracts by 10 toward 500: 890; promoted: 150; total 1040
    assert_eq!(processes[0].mix_share, 890 * 1000 / 1040);
    assert_eq!(processes[0].mix_share + processes[1].mix_share, 1000);
}

#[test]
fn zero_share_category_is_untouched() {
    // A category whose shares total zero is left alone by renormalization.
    let mut processes = vec![proc(0, "Idle", 0, Output::Fuel, 0)];
    let demand = zero_outputs();
    update_mixes(
        &mut processes,
        &demand,
        &zero_resources(),
        &zero_feedstocks(),
        &Priority::Neutral,
    );
    assert_eq!(processes[0].mix_share, 0);
    assert_eq!(processes[0].change, ProcessChange::Neutral);
}

#[test]
fn shares_stay_nonnegative() {
    // A banned process near zero cannot be driven below zero.
    let mut processes = vec![
        proc(0, "Banned", 5, Output::Fuel, 0),
        proc(1, "Open", 995, Output::Fuel, 0),
    ];
    processes[0].status = ProcessStatus::Banned;
    let demand = OutputMap { fuel: 100_000, ..zero_outputs() };
    update_mixes(
        &mut processes,
        &demand,
        &zero_resources(),
        &zero_feedstocks(),
        &Priority::Neutral,
    );
    assert!(processes[0].mix_share <= 1000);
    assert_eq!(processes[0].mix_share + processes[1].mix_share, 1000);
}

#[test]
fn priority_feature_biases_targets() {
    let mut a = proc(0, "Solar", 500, Output::Fuel, 0);
    a.features = vec![ProcessFeature::IsSolar];
    let b = proc(1, "Other", 500, Output::Fuel, 0);
    let processes = vec![a, b];
    let demand = OutputMap { fuel: 100_000, ..zero_outputs() };
    let targets = calculate_mix(
        &processes,
        &demand,
        &zero_resources(),
        &zero_feedstocks(),
        &Priority::Feature(ProcessFeature::IsSolar),
    );
    // the favored process's score doubles: 2/3 against 1/3
    assert_eq!(targets[0], 666);
    assert_eq!(targets[1], 333);
}

#[test]
fn production_order_amount() {
    let p = proc(0, "Maker", 500, Output::Fuel, 0);
    let demand = OutputMap { fuel: 100_000, ..zero_outputs() };
    let order = p.production_order(&demand);
    // demand 100.0 times share 0.5 == 50.0
    assert_eq!(order.amount, 50_000);
    assert_eq!(order.process_id, 0);
}

#[test]
fn status_queries() {
    let mut p = proc(0, "P", 0, Output::Fuel, 0);
    assert!(!p.is_banned());
    assert!(!p.is_promoted());
    p.status = ProcessStatus::Banned;
    assert!(p.is_banned());
    p.status = ProcessStatus::Promoted;
    assert!(p.is_promoted());
}
