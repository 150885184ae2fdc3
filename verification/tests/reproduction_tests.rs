use plant_evolution::config::{REPRODUCTION_ENERGY_COST, STARTING_ENERGY};
use plant_evolution::genetics::{Gene, GeneticLineage, Genome};
use plant_evolution::plant::{GrowthTimer, Plant, PlantBiology, PlantStructure};
use plant_evolution::reproduction::{
    classify_offspring_species, cleanup_dead_plants_system, find_seed_position,
    is_valid_seed_position, reproduction_system, spawn_plant, SpeciesCounter,
};
use plant_evolution::voxel::{VoxelPos, VoxelType, VoxelWorld};

fn genome_of(value: u32) -> Genome {
    Genome {
        growth_rate: Gene::new(value),
        max_height: Gene::new(value),
        leaf_density: Gene::new(value),
        root_depth: Gene::new(value),
        branching_frequency: Gene::new(value),
        photosynthesis_efficiency: Gene::new(value),
        reproduction_threshold: Gene::new(value),
        mutation_rate: Gene::new(value),
        horizontal_growth_tendency: Gene::new(value),
    }
}

#[test]
fn divergent_offspring_found_a_new_species() {
    // A genetic distance of 0.30 exceeds the 0.25 divergence threshold:
    // the offspring takes a fresh species identity off the counter.
    let mut counter = SpeciesCounter { next_id: 42 };
    let id = classify_offspring_species(7, 300, &mut counter);
    assert_eq!(id, 42);
    assert_ne!(id, 7);
    assert_eq!(counter.next_id, 43);
}

#[test]
fn close_offspring_inherit_the_parent_species() {
    // A distance of 0.10 stays below the threshold: the parent's species
    // is inherited and the counter does not move.
    let mut counter = SpeciesCounter { next_id: 42 };
    let id = classify_offspring_species(7, 100, &mut counter);
    assert_eq!(id, 7);
    assert_eq!(counter.next_id, 42);
}

#[test]
fn threshold_distance_itself_does_not_diverge() {
    let mut counter = SpeciesCounter { next_id: 5 };
    let id = classify_offspring_species(3, 250, &mut counter);
    assert_eq!(id, 3);
    assert_eq!(counter.next_id, 5);
}

#[test]
fn seed_sites_need_soil_below_air() {
    let world = VoxelWorld::new(4, 6, 4);
    // The surface layer (y = 2) is soil with air above.
    assert!(is_valid_seed_position(&VoxelPos::new(1, 2, 1), &world));
    // Deeper soil has soil above it.
    assert!(!is_valid_seed_position(&VoxelPos::new(1, 1, 1), &world));
    // Air is no seed site.
    assert!(!is_valid_seed_position(&VoxelPos::new(1, 4, 1), &world));
    // The edge of the world is no seed site.
    assert!(!is_valid_seed_position(&VoxelPos::new(-1, 2, 1), &world));
}

#[test]
fn found_seed_positions_are_valid_and_nearby() {
    let mut rng = rand::rng();
    let world = VoxelWorld::new(16, 8, 16);
    let parent = VoxelPos::new(8, 3, 8);
    // Every cell of the surface layer is a valid site here, so the first
    // attempt must succeed.
    let pos = find_seed_position(&parent, &world, &mut rng).unwrap();
    assert!(is_valid_seed_position(&pos, &world));
    assert_eq!(pos.y, 3);
    assert!((pos.x - 8).abs() <= 5);
    assert!((pos.z - 8).abs() <= 5);
}

#[test]
fn spawn_claims_the_soil_cell_and_hands_out_the_next_identity() {
    let mut world = VoxelWorld::new(4, 6, 4);
    let mut plants: Vec<Plant> = Vec::new();
    let mut next_id: u32 = 10;
    let site = VoxelPos::new(2, 2, 2);
    spawn_plant(&mut plants, &mut world, &mut next_id, site, genome_of(500), 4, Some(3), 6);
    assert_eq!(next_id, 11);
    assert_eq!(plants.len(), 1);
    let p = &plants[0];
    assert_eq!(p.id, 10);
    assert_eq!(p.biology.energy, STARTING_ENERGY);
    assert!(p.biology.is_alive);
    assert_eq!(p.structure.root_position, site);
    assert_eq!(p.structure.voxel_positions.len(), 1);
    assert_eq!(p.lineage.generation, 4);
    assert_eq!(p.lineage.parent_id, Some(3));
    assert_eq!(p.lineage.species_id, 6);
    let cell = world.get(&site).unwrap();
    assert_eq!(cell.voxel_type, VoxelType::PlantMaterial { plant_id: 10, species_id: 6 });
}

#[test]
fn energetic_plants_pay_the_cost_and_spawn_offspring() {
    let mut rng = rand::rng();
    let mut world = VoxelWorld::new(16, 8, 16);
    let root = VoxelPos::new(8, 3, 8);
    {
        let v = world.get_mut(&root).unwrap();
        v.voxel_type = VoxelType::PlantMaterial { plant_id: 0, species_id: 0 };
    }
    let parent = Plant {
        id: 0,
        // A zero threshold gene decodes to 50.0 energy.
        genome: genome_of(0),
        biology: PlantBiology { energy: 200_000, age: 0, is_alive: true, total_mass: 1 },
        structure: PlantStructure::new(root),
        lineage: GeneticLineage::default(),
        growth_timer: GrowthTimer::default(),
    };
    let mut plants = vec![parent];
    let mut counter = SpeciesCounter { next_id: 1 };
    let mut next_id: u32 = 1;
    reproduction_system(&mut plants, &mut world, &mut counter, &mut next_id, &mut rng);
    assert_eq!(plants.len(), 2, "an offspring is spawned on the open surface");
    assert_eq!(plants[0].biology.energy, 200_000 - REPRODUCTION_ENERGY_COST);
    assert_eq!(next_id, 2);
    let child = &plants[1];
    assert_eq!(child.id, 1);
    assert!(child.biology.is_alive);
    assert_eq!(child.biology.energy, STARTING_ENERGY);
    assert_eq!(child.lineage.generation, 1);
    assert_eq!(child.lineage.parent_id, Some(0));
}

#[test]
fn poor_plants_do_not_reproduce() {
    let mut rng = rand::rng();
    let mut world = VoxelWorld::new(8, 8, 8);
    let root = VoxelPos::new(4, 3, 4);
    let mut plants = vec![Plant {
        id: 0,
        genome: genome_of(1000),  // threshold decodes to 500.0
        biology: PlantBiology { energy: 400_000, age: 0, is_alive: true, total_mass: 1 },
        structure: PlantStructure::new(root),
        lineage: GeneticLineage::default(),
        growth_timer: GrowthTimer::default(),
    }];
    let mut counter = SpeciesCounter { next_id: 1 };
    let mut next_id: u32 = 1;
    reproduction_system(&mut plants, &mut world, &mut counter, &mut next_id, &mut rng);
    assert_eq!(plants.len(), 1);
    assert_eq!(plants[0].biology.energy, 400_000, "no cost without the threshold");
}

#[test]
fn reproduction_cost_is_paid_even_without_a_seed_site() {
    let mut rng = rand::rng();
    // A world whose only layer above the soil is the parent's own: rooted in
    // the air layer, every candidate site (same height) is air, never soil.
    let mut world = VoxelWorld::new(16, 2, 16);
    let root = VoxelPos::new(8, 1, 8);
    {
        let v = world.get_mut(&root).unwrap();
        v.voxel_type = VoxelType::PlantMaterial { plant_id: 0, species_id: 0 };
    }
    let mut plants = vec![Plant {
        id: 0,
        genome: genome_of(0), // threshold decodes to 50.0
        biology: PlantBiology { energy: 200_000, age: 0, is_alive: true, total_mass: 1 },
        structure: PlantStructure::new(root),
        lineage: GeneticLineage::default(),
        growth_timer: GrowthTimer::default(),
    }];
    let mut counter = SpeciesCounter { next_id: 1 };
    let mut next_id: u32 = 1;
    reproduction_system(&mut plants, &mut world, &mut counter, &mut next_id, &mut rng);
    assert_eq!(plants.len(), 1, "no site within the dispersal radius");
    assert_eq!(plants[0].biology.energy, 200_000 - REPRODUCTION_ENERGY_COST);
}

#[test]
fn offspring_lineage_points_at_the_parent() {
    let mut rng = rand::rng();
    let mut world = VoxelWorld::new(16, 8, 16);
    let root = VoxelPos::new(8, 3, 8);
    {
        let v = world.get_mut(&root).unwrap();
        v.voxel_type = VoxelType::PlantMaterial { plant_id: 3, species_id: 7 };
    }
    let mut parent = Plant {
        id: 3,
        genome: genome_of(0),
        biology: PlantBiology { energy: 200_000, age: 0, is_alive: true, total_mass: 1 },
        structure: PlantStructure::new(root),
        lineage: GeneticLineage { generation: 2, parent_id: None, species_id: 7 },
        growth_timer: GrowthTimer::default(),
    };
    parent.lineage.species_id = 7;
    let mut plants = vec![parent];
    let mut counter = SpeciesCounter { next_id: 8 };
    let mut next_id: u32 = 4;
    reproduction_system(&mut plants, &mut world, &mut counter, &mut next_id, &mut rng);
    assert_eq!(plants.len(), 2);
    let child = &plants[1];
    assert_eq!(child.lineage.parent_id, Some(3));
    assert_eq!(child.lineage.generation, 3);
    // Offspring stay within one mutation step, far below the divergence
    // threshold, so the species is inherited and the counter holds.
    assert_eq!(child.lineage.species_id, 7);
    assert_eq!(counter.next_id, 8);
}

#[test]
fn cleanup_decomposes_dead_plants_back_to_soil() {
    let mut world = VoxelWorld::new(4, 6, 4);
    let root = VoxelPos::new(1, 2, 1);
    let stem = VoxelPos::new(1, 3, 1);
    for pos in [root, stem] {
        let v = world.get_mut(&pos).unwrap();
        v.voxel_type = VoxelType::PlantMaterial { plant_id: 4, species_id: 0 };
    }
    let mut dead = Plant {
        id: 4,
        genome: genome_of(500),
        biology: PlantBiology { energy: -5, age: 9000, is_alive: false, total_mass: 2 },
        structure: PlantStructure::new(root),
        lineage: GeneticLineage::default(),
        growth_timer: GrowthTimer::default(),
    };
    dead.structure.voxel_positions.push(stem);
    let live_root = VoxelPos::new(2, 2, 2);
    {
        let v = world.get_mut(&live_root).unwrap();
        v.voxel_type = VoxelType::PlantMaterial { plant_id: 9, species_id: 1 };
    }
    let mut live = Plant {
        id: 9,
        genome: genome_of(500),
        biology: PlantBiology::default(),
        structure: PlantStructure::new(live_root),
        lineage: GeneticLineage { generation: 0, parent_id: None, species_id: 1 },
        growth_timer: GrowthTimer::default(),
    };
    live.biology.total_mass = 1;
    let mut plants = vec![dead, live];
    cleanup_dead_plants_system(&mut plants, &mut world);
    assert_eq!(plants.len(), 1);
    assert_eq!(plants[0].id, 9);
    assert!(plants[0].biology.is_alive);
    // The dead plant's cells decomposed to soil; the living one's remain.
    assert_eq!(world.get(&root).unwrap().voxel_type, VoxelType::Soil);
    assert_eq!(world.get(&stem).unwrap().voxel_type, VoxelType::Soil);
    assert_eq!(
        world.get(&live_root).unwrap().voxel_type,
        VoxelType::PlantMaterial { plant_id: 9, species_id: 1 },
    );
}
