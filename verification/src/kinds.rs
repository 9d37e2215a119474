//! Resource, output, byproduct and feedstock categories, and fixed-shape
//! maps from each category to an amount.

use vstd::prelude::*;

verus! {

/// A category of producible good that processes compete to supply.
#[derive(Clone, Copy, PartialEq, Eq, Structural, Debug)]
pub enum Output {
    Fuel,
    Electricity,
    PlantCalories,
    AnimalCalories,
}

/// A general resource consumed by production.
#[derive(Clone, Copy, PartialEq, Eq, Structural, Debug)]
pub enum Resource {
    Land,
    Water,
    Fuel,
    Electricity,
}

/// A side effect of production tracked per process or industry.
#[derive(Clone, Copy, PartialEq, Eq, Structural, Debug)]
pub enum Byproduct {
    Co2,
    Biodiversity,
}

/// A depletable input consumed by a process, distinct from general resources.
#[derive(Clone, Copy, PartialEq, Eq, Structural, Debug)]
pub enum Feedstock {
    Coal,
    Oil,
    Soil,
    Other,
}

/// An amount per output category.
#[derive(Clone, Copy, PartialEq, Eq, Structural, Debug)]
pub struct OutputMap {
    pub fuel: i64,
    pub electricity: i64,
    pub plant_calories: i64,
    pub animal_calories: i64,
}

impl OutputMap {
    pub open spec fn spec_get(&self, k: Output) -> i64 {
        match k {
            Output::Fuel => self.fuel,
            Output::Electricity => self.electricity,
            Output::PlantCalories => self.plant_calories,
            Output::AnimalCalories => self.animal_calories,
        }
    }

    pub open spec fn spec_set(self, k: Output, v: i64) -> OutputMap {
        match k {
            Output::Fuel => OutputMap { fuel: v, ..self },
            Output::Electricity => OutputMap { electricity: v, ..self },
            Output::PlantCalories => OutputMap { plant_calories: v, ..self },
            Output::AnimalCalories => OutputMap { animal_calories: v, ..self },
        }
    }

    /// All entries are non-negative.
    pub open spec fn nonneg(&self) -> bool {
        self.fuel >= 0 && self.electricity >= 0 && self.plant_calories >= 0
            && self.animal_calories >= 0
    }

    pub fn new() -> (r: OutputMap)
        ensures
            r == (OutputMap { fuel: 0i64, electricity: 0i64, plant_calories: 0i64, animal_calories: 0i64 }),
    {
        OutputMap { fuel: 0, electricity: 0, plant_calories: 0, animal_calories: 0 }
    }

    pub fn get(&self, k: Output) -> (r: i64)
        ensures
            r == self.spec_get(k),
    {
        match k {
            Output::Fuel => self.fuel,
            Output::Electricity => self.electricity,
            Output::PlantCalories => self.plant_calories,
            Output::AnimalCalories => self.animal_calories,
        }
    }

    pub fn set(&mut self, k: Output, v: i64)
        ensures
            *final(self) == old(self).spec_set(k, v),
    {
        match k {
            Output::Fuel => self.fuel = v,
            Output::Electricity => self.electricity = v,
            Output::PlantCalories => self.plant_calories = v,
            Output::AnimalCalories => self.animal_calories = v,
        }
    }
}

/// An amount per resource.
#[derive(Clone, Copy, PartialEq, Eq, Structural, Debug)]
pub struct ResourceMap {
    pub land: i64,
    pub water: i64,
    pub fuel: i64,
    pub electricity: i64,
}

impl ResourceMap {
    pub open spec fn spec_get(&self, k: Resource) -> i64 {
        match k {
            Resource::Land => self.land,
            Resource::Water => self.water,
            Resource::Fuel => self.fuel,
            Resource::Electricity => self.electricity,
        }
    }

    pub open spec fn spec_set(self, k: Resource, v: i64) -> ResourceMap {
        match k {
            Resource::Land => ResourceMap { land: v, ..self },
            Resource::Water => ResourceMap { water: v, ..self },
            Resource::Fuel => ResourceMap { fuel: v, ..self },
            Resource::Electricity => ResourceMap { electricity: v, ..self },
        }
    }

    /// All entries are non-negative.
    pub open spec fn nonneg(&self) -> bool {
        self.land >= 0 && self.water >= 0 && self.fuel >= 0 && self.electricity >= 0
    }

    pub fn new() -> (r: ResourceMap)
        ensures
            r == (ResourceMap { land: 0i64, water: 0i64, fuel: 0i64, electricity: 0i64 }),
    {
        ResourceMap { land: 0, water: 0, fuel: 0, electricity: 0 }
    }

    pub fn get(&self, k: Resource) -> (r: i64)
        ensures
            r == self.spec_get(k),
    {
        match k {
            Resource::Land => self.land,
            Resource::Water => self.water,
            Resource::Fuel => self.fuel,
            Resource::Electricity => self.electricity,
        }
    }

    pub fn set(&mut self, k: Resource, v: i64)
        ensures
            *final(self) == old(self).spec_set(k, v),
    {
        match k {
            Resource::Land => self.land = v,
            Resource::Water => self.water = v,
            Resource::Fuel => self.fuel = v,
            Resource::Electricity => self.electricity = v,
        }
    }
}

/// An amount per byproduct.
#[derive(Clone, Copy, PartialEq, Eq, Structural, Debug)]
pub struct ByproductMap {
    pub co2: i64,
    pub biodiversity: i64,
}

impl ByproductMap {
    pub open spec fn spec_get(&self, k: Byproduct) -> i64 {
        match k {
            Byproduct::Co2 => self.co2,
            Byproduct::Biodiversity => self.biodiversity,
        }
    }

    pub open spec fn spec_set(self, k: Byproduct, v: i64) -> ByproductMap {
        match k {
            Byproduct::Co2 => ByproductMap { co2: v, ..self },
            Byproduct::Biodiversity => ByproductMap { biodiversity: v, ..self },
        }
    }

    pub fn new() -> (r: ByproductMap)
        ensures
            r == (ByproductMap { co2: 0i64, biodiversity: 0i64 }),
    {
        ByproductMap { co2: 0, biodiversity: 0 }
    }

    pub fn get(&self, k: Byproduct) -> (r: i64)
        ensures
            r == self.spec_get(k),
    {
        match k {
            Byproduct::Co2 => self.co2,
            Byproduct::Biodiversity => self.biodiversity,
        }
    }

    pub fn set(&mut self, k: Byproduct, v: i64)
        ensures
            *final(self) == old(self).spec_set(k, v),
    {
        match k {
            Byproduct::Co2 => self.co2 = v,
            Byproduct::Biodiversity => self.biodiversity = v,
        }
    }
}

/// An amount per feedstock.
#[derive(Clone, Copy, PartialEq, Eq, Structural, Debug)]
pub struct FeedstockMap {
    pub coal: i64,
    pub oil: i64,
    pub soil: i64,
    pub other: i64,
}

impl FeedstockMap {
    pub open spec fn spec_get(&self, k: Feedstock) -> i64 {
        match k {
            Feedstock::Coal => self.coal,
            Feedstock::Oil => self.oil,
            Feedstock::Soil => self.soil,
            Feedstock::Other => self.other,
        }
    }

    pub open spec fn spec_set(self, k: Feedstock, v: i64) -> FeedstockMap {
        match k {
            Feedstock::Coal => FeedstockMap { coal: v, ..self },
            Feedstock::Oil => FeedstockMap { oil: v, ..self },
            Feedstock::Soil => FeedstockMap { soil: v, ..self },
            Feedstock::Other => FeedstockMap { other: v, ..self },
        }
    }

    /// All entries are non-negative.
    pub open spec fn nonneg(&self) -> bool {
        self.coal >= 0 && self.oil >= 0 && self.soil >= 0 && self.other >= 0
    }

    pub fn new() -> (r: FeedstockMap)
        ensures
            r == (FeedstockMap { coal: 0i64, oil: 0i64, soil: 0i64, other: 0i64 }),
    {
        FeedstockMap { coal: 0, oil: 0, soil: 0, other: 0 }
    }

    pub fn get(&self, k: Feedstock) -> (r: i64)
        ensures
            r == self.spec_get(k),
    {
        match k {
            Feedstock::Coal => self.coal,
            Feedstock::Oil => self.oil,
            Feedstock::Soil => self.soil,
            Feedstock::Other => self.other,
        }
    }

    pub fn set(&mut self, k: Feedstock, v: i64)
        ensures
            *final(self) == old(self).spec_set(k, v),
    {
        match k {
            Feedstock::Coal => self.coal = v,
            Feedstock::Oil => self.oil = v,
            Feedstock::Soil => self.soil = v,
            Feedstock::Other => self.other = v,
        }
    }
}

} // verus!
