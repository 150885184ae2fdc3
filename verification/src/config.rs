//! Configuration constants for the simulation.
//!
//! All quantities are fixed-point: one nominal unit is `SCALE` (1000)
//! fixed-point units. Probabilities and normalized gene values live in
//! `0..=SCALE`; durations are milliseconds.

use vstd::prelude::*;

verus! {

/// Fixed-point units per nominal unit (thousandths).
pub const SCALE: u32 = 1000;

/// Default world dimensions, in voxels.
pub const WORLD_WIDTH: usize = 64;
pub const WORLD_HEIGHT: usize = 64;
pub const WORLD_DEPTH: usize = 64;

/// Initial number of seed plants.
pub const INITIAL_SEED_COUNT: u32 = 10;

/// Maximum sunlight at the top of the world (nominal 100.0).
pub const SUNLIGHT_MAX: u32 = 100_000;
/// Fraction of light a plant voxel lets through (nominal 0.6).
pub const PLANT_LIGHT_TRANSMISSION: u32 = 600;
/// Fraction of light a soil voxel lets through (nominal 0.1).
pub const SOIL_LIGHT_TRANSMISSION: u32 = 100;

/// Maximum soil nutrient level (nominal 100.0).
pub const SOIL_NUTRIENT_MAX: u32 = 100_000;
/// Maximum soil water level (nominal 100.0).
pub const SOIL_WATER_MAX: u32 = 100_000;
/// Nutrient regeneration per tick (nominal 0.1).
pub const NUTRIENT_REGEN_RATE: u32 = 100;
/// Water regeneration per tick (nominal 0.2).
pub const WATER_REGEN_RATE: u32 = 200;

/// Energy cost of claiming one new voxel (nominal 10.0).
pub const BASE_GROWTH_COST: i64 = 10_000;
/// Maintenance energy per voxel per second (nominal 0.3).
pub const BASE_MAINTENANCE_COST: u32 = 300;
/// Transport surcharge per voxel per unit height per second (nominal 0.01).
pub const TRANSPORT_COST: u32 = 10;
/// Global photosynthesis efficiency (nominal 0.5).
pub const PHOTOSYNTHESIS_EFFICIENCY: u32 = 500;
/// Resource absorption per root per second (nominal 1.0).
pub const ROOT_ABSORPTION_RATE: u32 = 1000;
/// Fraction of absorbed resources converted to energy (nominal 0.1).
pub const ABSORPTION_TO_ENERGY: u32 = 100;

/// Energy a freshly spawned plant starts with (nominal 50.0).
pub const STARTING_ENERGY: i64 = 50_000;
/// Energy deducted for a reproduction attempt (nominal 50.0).
pub const REPRODUCTION_ENERGY_COST: i64 = 50_000;
/// Horizontal seed dispersal radius, in voxels.
pub const SEED_DISPERSAL_RANGE: i32 = 5;
/// Number of candidate sites tried per reproduction attempt.
pub const SEED_SITE_ATTEMPTS: u32 = 20;

/// Probability (in thousandths) that a gene mutates (nominal 0.05).
pub const MUTATION_RATE: u32 = 50;
/// Largest mutation offset, in thousandths of gene value (nominal 0.1).
pub const MUTATION_STRENGTH: u32 = 100;
/// Genetic distance above which an offspring founds a new species
/// (nominal 0.25).
pub const SPECIES_DIVERGENCE_THRESHOLD: u32 = 250;
/// Genetic distance below which two genomes fall into the same cluster when
/// estimating the species count (nominal 0.15).
pub const SPECIES_CLUSTER_THRESHOLD: u32 = 150;

/// Milliseconds between growth attempts of one plant.
pub const GROWTH_INTERVAL_MS: u32 = 500;
/// Probability (in thousandths) of a root-growth attempt per growth tick.
pub const ROOT_GROWTH_CHANCE: u32 = 300;

/// Milliseconds between statistics snapshots.
pub const STATS_UPDATE_INTERVAL_MS: u32 = 1000;
/// Number of statistics snapshots kept.
pub const STATS_HISTORY_SIZE: usize = 1000;
/// At most this many plants enter the pairwise diversity sample.
pub const DIVERSITY_SAMPLE_CAP: usize = 50;

/// Milliseconds in a simulated day.
pub const DAY_LENGTH_MS: u32 = 60_000;
/// Milliseconds in a simulated year.
pub const YEAR_LENGTH_MS: u32 = 300_000;

/// Largest time step one tick may take (one hour).
pub const DT_MAX_MS: u32 = 3_600_000;

/// Energy is kept within these machine bounds; gains and drains saturate
/// here, far beyond any value the simulation reaches.
pub const ENERGY_CAP: i64 = 1_000_000_000_000_000_000;
pub const ENERGY_MIN: i64 = -1_000_000_000_000_000_000;
/// Per-tick energy gains and drains saturate at this magnitude.
pub const FLOW_SAT: u64 = 1_000_000_000_000_000;
/// Ages saturate here (milliseconds), far beyond any reachable age.
pub const AGE_CAP: u64 = 1_000_000_000_000_000_000;

} // verus!
