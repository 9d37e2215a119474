//! The aggregate game state the effect dispatcher mutates: world, regions,
//! player metrics, stocks and modifiers, content entities, and bookkeeping.
//!
//! Each compound type has a ghost view (`@`) over mathematical sequences so
//! contracts can describe whole-state transitions functionally.

use vstd::prelude::*;
use crate::kinds::{OutputMap, ResourceMap, ByproductMap, FeedstockMap};
use crate::processes::Process;
use crate::effects::Flag;

verus! {

/// Most regions a world may hold; keeps habitability sums in range.
pub const MAX_REGIONS: usize = 10_000;

/// A geographic subdivision holding population, outlook and habitability.
#[derive(Debug)]
pub struct Region {
    pub id: usize,
    /// Population in millis.
    pub population: i64,
    /// Sentiment of the region's population, in millis.
    pub outlook: i64,
    /// Baseline habitability, in millis.
    pub base_habitability: i64,
    pub seceded: bool,
    pub flags: Vec<String>,
    /// The demand this region places on each output category, in millis.
    pub demand: OutputMap,
    /// Adjusted income of the region, in millis.
    pub income: i64,
}

/// Ghost image of a `Region`.
#[verifier::ext_equal]
pub ghost struct RegionView {
    pub id: usize,
    pub population: i64,
    pub outlook: i64,
    pub base_habitability: i64,
    pub seceded: bool,
    pub flags: Seq<String>,
    pub demand: OutputMap,
    pub income: i64,
}

impl View for Region {
    type V = RegionView;

    open spec fn view(&self) -> RegionView {
        RegionView {
            id: self.id,
            population: self.population,
            outlook: self.outlook,
            base_habitability: self.base_habitability,
            seceded: self.seceded,
            flags: self.flags@,
            demand: self.demand,
            income: self.income,
        }
    }
}

impl Region {
    /// The region's habitability as the effects read it.
    pub fn habitability(&self) -> (r: i64)
        ensures
            r == self.base_habitability,
    {
        self.base_habitability
    }

    /// The region's adjusted income as the effects read it.
    pub fn adjusted_income(&self) -> (r: i64)
        ensures
            r == self.income,
    {
        self.income
    }
}

/// Global planetary state and the regions it contains.
#[derive(Debug)]
pub struct World {
    pub year: i64,
    /// World-level outlook, in millis.
    pub outlook: i64,
    pub regions: Vec<Region>,
    /// Additive modifier to population growth, in millis.
    pub population_growth_modifier: i64,
    /// Additive modifiers to global byproducts, in millis.
    pub byproduct_mods: ByproductMap,
    pub temperature_modifier: i64,
    pub water_stress: i64,
    pub sea_level_rise: i64,
    pub precipitation: i64,
}

/// Ghost image of a `World`.
#[verifier::ext_equal]
pub ghost struct WorldView {
    pub year: i64,
    pub outlook: i64,
    pub regions: Seq<RegionView>,
    pub population_growth_modifier: i64,
    pub byproduct_mods: ByproductMap,
    pub temperature_modifier: i64,
    pub water_stress: i64,
    pub sea_level_rise: i64,
    pub precipitation: i64,
}

/// The ghost images of a sequence of regions.
pub open spec fn region_views(rs: Seq<Region>) -> Seq<RegionView> {
    Seq::new(rs.len(), |i: int| rs[i]@)
}

/// Indexing the ghost images gives each region's image.
pub proof fn lemma_region_views_index(rs: Seq<Region>, i: int)
    requires
        0 <= i < rs.len(),
    ensures
        region_views(rs)[i] == rs[i]@,
{
}

impl View for World {
    type V = WorldView;

    open spec fn view(&self) -> WorldView {
        WorldView {
            year: self.year,
            outlook: self.outlook,
            regions: region_views(self.regions@),
            population_growth_modifier: self.population_growth_modifier,
            byproduct_mods: self.byproduct_mods,
            temperature_modifier: self.temperature_modifier,
            water_stress: self.water_stress,
            sea_level_rise: self.sea_level_rise,
            precipitation: self.precipitation,
        }
    }
}

/// A narrative project that effects can unlock or reprice.
#[derive(Clone, Copy, PartialEq, Eq, Structural, Debug)]
pub struct Project {
    pub id: usize,
    pub locked: bool,
    /// Multiplier adjustment on the project's cost, in millis.
    pub cost_modifier: i64,
}

/// A narrative event that effects can unlock or reweight.
#[derive(Clone, Copy, PartialEq, Eq, Structural, Debug)]
pub struct GameEvent {
    pub id: usize,
    pub locked: bool,
    /// Additive adjustment to the event's probability, in millis.
    pub prob_modifier: i64,
}

/// An event scheduled to fire some years ahead, optionally region-scoped.
#[derive(Clone, Copy, PartialEq, Eq, Structural, Debug)]
pub struct QueuedEvent {
    pub event_id: usize,
    pub region_id: Option<usize>,
    pub years: usize,
}

/// What kind of content a request concerns.
#[derive(Clone, Copy, PartialEq, Eq, Structural, Debug)]
pub enum RequestKind {
    Project,
    Process,
}

/// A request enqueued by content for the player to act on.
#[derive(Clone, Copy, PartialEq, Eq, Structural, Debug)]
pub struct Request {
    pub kind: RequestKind,
    pub target_id: usize,
    pub active: bool,
    pub bounty: usize,
}

/// A non-player character with a relationship meter.
#[derive(Clone, Copy, PartialEq, Eq, Structural, Debug)]
pub struct Npc {
    pub id: usize,
    /// Relationship level, in millis.
    pub relationship: i64,
}

/// An industry with per-unit intensities and a demand modifier.
#[derive(Clone, Copy, PartialEq, Eq, Structural, Debug)]
pub struct Industry {
    pub id: usize,
    pub resources: ResourceMap,
    pub byproducts: ByproductMap,
    /// Multiplier adjustment on the industry's demand, in millis.
    pub demand_modifier: i64,
}

/// The aggregate game state passed to the effect dispatcher.
#[derive(Debug)]
pub struct Game {
    pub world: World,
    /// Whole-unit player currency.
    pub political_capital: i64,
    /// Whole-unit point currencies; never negative.
    pub malthusian_points: i64,
    pub hes_points: i64,
    pub falc_points: i64,
    /// Global resource stocks, in millis.
    pub resources: ResourceMap,
    /// Global feedstock stocks, in millis.
    pub feedstocks: FeedstockMap,
    /// Multiplicative demand adjustment per output, in millis.
    pub output_demand_modifier: OutputMap,
    /// Flat extra demand per output, in millis.
    pub output_demand_extras: OutputMap,
    /// Multiplicative output adjustment per output, in millis.
    pub output_modifier: OutputMap,
    pub processes: Vec<Process>,
    pub projects: Vec<Project>,
    pub events: Vec<GameEvent>,
    pub event_queue: Vec<QueuedEvent>,
    pub requests: Vec<Request>,
    pub npcs: Vec<Npc>,
    pub industries: Vec<Industry>,
    pub flags: Vec<Flag>,
    /// Fraction of land under protection, in millis.
    pub protected_land: i64,
}

/// Ghost image of the aggregate game state.
#[verifier::ext_equal]
pub ghost struct GameView {
    pub world: WorldView,
    pub political_capital: i64,
    pub malthusian_points: i64,
    pub hes_points: i64,
    pub falc_points: i64,
    pub resources: ResourceMap,
    pub feedstocks: FeedstockMap,
    pub output_demand_modifier: OutputMap,
    pub output_demand_extras: OutputMap,
    pub output_modifier: OutputMap,
    pub processes: Seq<Process>,
    pub projects: Seq<Project>,
    pub events: Seq<GameEvent>,
    pub event_queue: Seq<QueuedEvent>,
    pub requests: Seq<Request>,
    pub npcs: Seq<Npc>,
    pub industries: Seq<Industry>,
    pub flags: Seq<Flag>,
    pub protected_land: i64,
}

impl View for Game {
    type V = GameView;

    open spec fn view(&self) -> GameView {
        GameView {
            world: self.world@,
            political_capital: self.political_capital,
            malthusian_points: self.malthusian_points,
            hes_points: self.hes_points,
            falc_points: self.falc_points,
            resources: self.resources,
            feedstocks: self.feedstocks,
            output_demand_modifier: self.output_demand_modifier,
            output_demand_extras: self.output_demand_extras,
            output_modifier: self.output_modifier,
            processes: self.processes@,
            projects: self.projects@,
            events: self.events@,
            event_queue: self.event_queue@,
            requests: self.requests@,
            npcs: self.npcs@,
            industries: self.industries@,
            flags: self.flags@,
            protected_land: self.protected_land,
        }
    }
}

} // verus!
