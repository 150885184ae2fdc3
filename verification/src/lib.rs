//! A voxel-world plant evolution simulation: a bounded 3D grid of typed cells
//! carrying light, nutrient and water levels, populated by plants that grow,
//! photosynthesize, absorb resources, reproduce with mutation, and die.
//!
//! All scalar quantities are fixed-point integers: normalized gene values and
//! probabilities are stored in thousandths (0..=1000), environment scalars and
//! energy in thousandths of their nominal unit, and time in milliseconds.

pub mod config;
pub mod voxel;
pub mod environment;
pub mod genetics;
pub mod rng;
pub mod plant;
pub mod biology;
pub mod growth;
pub mod reproduction;
pub mod stats;
pub mod sim;
