use vstd::prelude::*;

use crate::model::{Ability, Science, Stat};

verus! {

// The configuration is generic over `R`, the type of the real numbers that the
// game computes with (distances, durations, multipliers). The rules verified
// here never compute with such a number; they only carry it to the caller.

/// The planet the game is played around.
#[derive(Debug, Clone)]
pub struct PlanetConfig<R> {
    pub radius: R,
    pub orbit_distance: R,
}

/// What a satellite costs and earns.
#[derive(Debug, Clone)]
pub struct SatelliteConfig<R> {
    pub launch_cost: Science,
    pub science: Science,
    pub interval: R,
}

/// The research tree.
#[derive(Debug, Clone)]
pub struct ResearchConfig<R> {
    pub items: Vec<ResearchItemConfig<R>>,
}

/// One node of the research tree: it can be bought for `cost` once every
/// research in `after` is done, and then has `effect`.
#[derive(Debug, Clone)]
pub struct ResearchItemConfig<R> {
    pub name: String,
    pub id: u64,
    pub after: Vec<u64>,
    pub cost: Science,
    pub effect: Research<R>,
}

/// What a completed research does.
#[derive(Debug, Clone)]
pub enum Research<R> {
    /// Adds the amount to the stat's multiplier.
    Upgrade(Stat, R),
    /// Grants the ability.
    Unlock(Ability),
}

/// The whole game configuration.
#[derive(Debug, Clone)]
pub struct Config<R> {
    pub home_planet: PlanetConfig<R>,
    pub theoretic_research: Science,
    pub satellite: SatelliteConfig<R>,
    pub research: ResearchConfig<R>,
}

} // verus!
