use plant_evolution::biology::{
    aging_system, maintenance_cost_system, photosynthesis_system, resource_absorption_system,
};
use plant_evolution::genetics::{Gene, GeneticLineage, Genome};
use plant_evolution::plant::{GrowthTimer, Plant, PlantBiology, PlantStructure};
use plant_evolution::voxel::{VoxelPos, VoxelWorld};

fn genome_of(value: u32) -> Genome {
    Genome {
        growth_rate: Gene::new(value),
        max_height: Gene::new(value),
        leaf_density: Gene::new(value),
        root_depth: Gene::new(value),
        branching_frequency: Gene::new(value),
        photosynthesis_efficiency: Gene::new(value),
        reproduction_threshold: Gene::new(value),
        mutation_rate: Gene::new(value),
        horizontal_growth_tendency: Gene::new(value),
    }
}

fn plant_at(root: VoxelPos, genome: Genome) -> Plant {
    Plant {
        id: 1,
        genome,
        biology: PlantBiology::default(),
        structure: PlantStructure::new(root),
        lineage: GeneticLineage::default(),
        growth_timer: GrowthTimer::default(),
    }
}

#[test]
fn starved_plant_loses_energy_every_tick_and_dies_exactly_once() {
    // A plant with an all-0.5 genome, no light anywhere, and a depleted
    // root cell: its energy strictly decreases each tick until it crosses
    // zero and the alive flag flips to false exactly once.
    let mut world = VoxelWorld::new(3, 4, 3);
    let root = VoxelPos::new(1, 1, 1);
    {
        let v = world.get_mut(&root).unwrap();
        v.environment.nutrients = 0;
        v.environment.water = 0;
    }
    let mut plants = vec![plant_at(root, genome_of(500))];
    let dt: u32 = 4000;
    let mut flips = 0;
    let mut last_energy = plants[0].biology.energy;
    let mut was_alive = plants[0].biology.is_alive;
    assert!(was_alive);
    for _ in 0..100 {
        photosynthesis_system(&mut plants, &world, dt);
        resource_absorption_system(&mut plants, &mut world, dt);
        maintenance_cost_system(&mut plants, dt);
        aging_system(&mut plants, dt);
        let p = &plants[0];
        if was_alive {
            assert!(p.biology.energy < last_energy, "energy must strictly decrease");
        } else {
            assert_eq!(p.biology.energy, last_energy, "a dead plant keeps its energy");
        }
        if was_alive && !p.biology.is_alive {
            flips += 1;
            assert!(p.biology.energy <= 0);
        }
        assert!(!(p.biology.is_alive && !was_alive), "death is one-way");
        last_energy = p.biology.energy;
        was_alive = p.biology.is_alive;
    }
    assert!(!was_alive, "the plant must have died within 100 ticks");
    assert_eq!(flips, 1, "the alive flag flips exactly once");
}

#[test]
fn dead_plants_are_untouched_by_every_metabolic_system() {
    let mut world = VoxelWorld::new(3, 4, 3);
    let root = VoxelPos::new(1, 1, 1);
    let mut dead = plant_at(root, genome_of(500));
    dead.biology.is_alive = false;
    dead.biology.energy = -123;
    dead.biology.age = 777;
    let mut plants = vec![dead];
    photosynthesis_system(&mut plants, &world, 1000);
    resource_absorption_system(&mut plants, &mut world, 1000);
    maintenance_cost_system(&mut plants, 1000);
    aging_system(&mut plants, 1000);
    assert_eq!(plants[0].biology.energy, -123);
    assert_eq!(plants[0].biology.age, 777);
    assert!(!plants[0].biology.is_alive);
}

#[test]
fn photosynthesis_converts_leaf_light_exactly() {
    let mut world = VoxelWorld::new(3, 4, 3);
    let leaf = VoxelPos::new(1, 3, 1);
    {
        let v = world.get_mut(&leaf).unwrap();
        v.environment.light_level = 100_000;
    }
    let mut p = plant_at(VoxelPos::new(1, 1, 1), genome_of(500));
    p.structure.leaf_positions.push(leaf);
    let mut plants = vec![p];
    // Gain per leaf: 100.0 light x 0.5 global x 0.9 genome x 1 s = 45.0.
    photosynthesis_system(&mut plants, &world, 1000);
    assert_eq!(plants[0].biology.energy, 50_000 + 45_000);
    // An out-of-bounds leaf contributes nothing.
    plants[0].structure.voxel_positions.push(VoxelPos::new(9, 9, 9));
    plants[0].structure.leaf_positions[0] = VoxelPos::new(9, 9, 9);
    photosynthesis_system(&mut plants, &world, 1000);
    assert_eq!(plants[0].biology.energy, 50_000 + 45_000);
}

#[test]
fn absorption_drains_the_soil_and_converts_a_tenth_to_energy() {
    let mut world = VoxelWorld::new(3, 4, 3);
    let root = VoxelPos::new(1, 1, 1);
    let mut plants = vec![plant_at(root, genome_of(500))];
    // One second absorbs 1.0 nutrient and 1.0 water, worth 0.2 energy,
    // and the maintenance of the single voxel costs 0.3.
    resource_absorption_system(&mut plants, &mut world, 1000);
    assert_eq!(plants[0].biology.energy, 50_000 + 200);
    let cell = world.get(&root).unwrap();
    assert_eq!(cell.environment.nutrients, 99_000);
    assert_eq!(cell.environment.water, 99_000);
}

#[test]
fn maintenance_charges_mass_and_height_surcharge() {
    let mut p = plant_at(VoxelPos::new(1, 1, 1), genome_of(500));
    // Three voxels: the root and two above it at heights 1 and 2.
    p.structure.voxel_positions.push(VoxelPos::new(1, 2, 1));
    p.structure.voxel_positions.push(VoxelPos::new(1, 3, 1));
    let mut plants = vec![p];
    // Base: 3 voxels x 0.3/s = 0.9; transport: (1 + 2) x 0.01/s = 0.03.
    maintenance_cost_system(&mut plants, 1000);
    assert_eq!(plants[0].biology.energy, 50_000 - 900 - 30);
    assert!(plants[0].biology.is_alive);
}

#[test]
fn aging_advances_only_living_plants() {
    let mut alive = plant_at(VoxelPos::new(1, 1, 1), genome_of(500));
    alive.id = 1;
    let mut dead = plant_at(VoxelPos::new(0, 1, 0), genome_of(500));
    dead.id = 2;
    dead.biology.is_alive = false;
    let mut plants = vec![alive, dead];
    aging_system(&mut plants, 2500);
    assert_eq!(plants[0].biology.age, 2500);
    assert_eq!(plants[1].biology.age, 0);
    aging_system(&mut plants, 500);
    assert_eq!(plants[0].biology.age, 3000);
}
