use plant_evolution::config::BASE_GROWTH_COST;
use plant_evolution::genetics::{Gene, GeneticLineage, Genome};
use plant_evolution::growth::{
    can_grow_at, can_grow_root_at, grow_voxel, highest_position, plant_growth_system,
    try_grow_root, try_grow_upward,
};
use plant_evolution::plant::{GrowthTimer, Plant, PlantBiology, PlantStructure};
use plant_evolution::voxel::{VoxelPos, VoxelType, VoxelWorld};

fn genome_of(value: u32) -> Genome {
    Genome {
        growth_rate: Gene::new(value),
        max_height: Gene::new(value),
        leaf_density: Gene::new(value),
        root_depth: Gene::new(value),
        branching_frequency: Gene::new(value),
        photosynthesis_efficiency: Gene::new(value),
        reproduction_threshold: Gene::new(value),
        mutation_rate: Gene::new(value),
        horizontal_growth_tendency: Gene::new(value),
    }
}

/// Spawns a plant whose root cell is claimed in the grid, as the library
/// does, so the grid and the structure agree.
fn planted(world: &mut VoxelWorld, root: VoxelPos, id: u32, genome: Genome) -> Plant {
    {
        let v = world.get_mut(&root).unwrap();
        v.voxel_type = VoxelType::PlantMaterial { plant_id: id, species_id: 0 };
    }
    Plant {
        id,
        genome,
        biology: PlantBiology::default(),
        structure: PlantStructure::new(root),
        lineage: GeneticLineage::default(),
        growth_timer: GrowthTimer::default(),
    }
}

#[test]
fn grow_voxel_claims_the_cell_and_pays_the_cost() {
    let mut world = VoxelWorld::new(4, 6, 4);
    let root = VoxelPos::new(1, 2, 1);
    let mut plant = planted(&mut world, root, 5, genome_of(500));
    let target = VoxelPos::new(1, 3, 1);
    assert!(can_grow_at(&target, &world));
    grow_voxel(&mut plant, &mut world, target);
    assert_eq!(plant.biology.energy, 50_000 - BASE_GROWTH_COST);
    assert_eq!(plant.structure.voxel_positions.len(), 2);
    assert_eq!(plant.structure.voxel_positions[1], target);
    assert_eq!(plant.biology.total_mass, 2);
    let cell = world.get(&target).unwrap();
    assert_eq!(cell.voxel_type, VoxelType::PlantMaterial { plant_id: 5, species_id: 0 });
    assert!(!can_grow_at(&target, &world));
}

#[test]
fn growth_checks_air_and_roots_accept_soil() {
    let world = VoxelWorld::new(4, 6, 4);
    let air = VoxelPos::new(1, 4, 1);
    let soil = VoxelPos::new(1, 1, 1);
    let outside = VoxelPos::new(9, 9, 9);
    assert!(can_grow_at(&air, &world));
    assert!(!can_grow_at(&soil, &world));
    assert!(!can_grow_at(&outside, &world));
    assert!(can_grow_root_at(&air, &world));
    assert!(can_grow_root_at(&soil, &world));
    assert!(!can_grow_root_at(&outside, &world));
}

#[test]
fn upward_growth_claims_the_cell_above() {
    let mut world = VoxelWorld::new(4, 8, 4);
    let root = VoxelPos::new(2, 3, 2);
    let mut plant = planted(&mut world, root, 3, genome_of(0));
    // A leaf roll past the leaf density adds no leaf.
    try_grow_upward(&mut plant, &mut world, root, 999, 0);
    assert_eq!(plant.structure.voxel_positions.len(), 2);
    assert_eq!(plant.structure.voxel_positions[1], VoxelPos::new(2, 4, 2));
    assert_eq!(plant.structure.leaf_positions.len(), 0);
    let cell = world.get(&VoxelPos::new(2, 4, 2)).unwrap();
    assert_eq!(cell.voxel_type, VoxelType::PlantMaterial { plant_id: 3, species_id: 0 });
}

#[test]
fn upward_growth_can_sprout_a_leaf() {
    let mut world = VoxelWorld::new(5, 8, 5);
    let root = VoxelPos::new(2, 3, 2);
    let mut plant = planted(&mut world, root, 3, genome_of(1000));
    // A zero roll is below any leaf density; offset 0 is +x.
    try_grow_upward(&mut plant, &mut world, root, 0, 0);
    assert_eq!(plant.structure.voxel_positions.len(), 3);
    assert_eq!(plant.structure.leaf_positions.len(), 1);
    assert_eq!(plant.structure.leaf_positions[0], VoxelPos::new(3, 4, 2));
    let leaf_cell = world.get(&VoxelPos::new(3, 4, 2)).unwrap();
    assert!(leaf_cell.voxel_type.is_plant());
}

#[test]
fn blocked_upward_growth_is_a_no_op() {
    let mut world = VoxelWorld::new(4, 8, 4);
    let root = VoxelPos::new(2, 3, 2);
    let mut plant = planted(&mut world, root, 3, genome_of(0));
    {
        let v = world.get_mut(&VoxelPos::new(2, 4, 2)).unwrap();
        v.voxel_type = VoxelType::PlantMaterial { plant_id: 99, species_id: 9 };
    }
    let energy = plant.biology.energy;
    try_grow_upward(&mut plant, &mut world, root, 999, 0);
    assert_eq!(plant.structure.voxel_positions.len(), 1);
    assert_eq!(plant.biology.energy, energy);
    // The blocking cell keeps its owner.
    let cell = world.get(&VoxelPos::new(2, 4, 2)).unwrap();
    assert_eq!(cell.voxel_type, VoxelType::PlantMaterial { plant_id: 99, species_id: 9 });
}

#[test]
fn roots_grow_down_into_soil_until_the_genome_depth() {
    let mut world = VoxelWorld::new(4, 8, 4);
    let root = VoxelPos::new(2, 3, 2);
    // Root-depth gene 0 decodes to a depth limit of one voxel below.
    let mut plant = planted(&mut world, root, 3, genome_of(0));
    try_grow_root(&mut plant, &mut world);
    assert_eq!(plant.structure.root_positions.len(), 2);
    assert_eq!(plant.structure.root_positions[1], VoxelPos::new(2, 2, 2));
    let cell = world.get(&VoxelPos::new(2, 2, 2)).unwrap();
    assert_eq!(cell.voxel_type, VoxelType::PlantMaterial { plant_id: 3, species_id: 0 });
    // The limit has been reached: another step changes nothing.
    try_grow_root(&mut plant, &mut world);
    assert_eq!(plant.structure.root_positions.len(), 2);
}

#[test]
fn highest_position_finds_the_top_voxel() {
    let mut world = VoxelWorld::new(4, 8, 4);
    let root = VoxelPos::new(1, 3, 1);
    let mut plant = planted(&mut world, root, 2, genome_of(500));
    plant.structure.voxel_positions.push(VoxelPos::new(1, 6, 1));
    plant.structure.voxel_positions.push(VoxelPos::new(1, 5, 1));
    assert_eq!(highest_position(&plant), VoxelPos::new(1, 6, 1));
}

#[test]
fn growth_timer_gates_growth_attempts() {
    let mut timer = GrowthTimer::default();
    assert!(!timer.tick(499));
    assert_eq!(timer.elapsed_ms, 499);
    assert!(timer.tick(1));
    assert_eq!(timer.elapsed_ms, 0);
    assert!(timer.tick(1200));
    assert_eq!(timer.elapsed_ms, 200);
}

#[test]
fn poor_plants_only_advance_their_timer() {
    let mut rng = rand::rng();
    let mut world = VoxelWorld::new(8, 16, 8);
    let mut plants = vec![planted(&mut world, VoxelPos::new(3, 7, 3), 1, genome_of(500))];
    plants[0].biology.energy = 9_999; // below the 10.0 growth cost
    plant_growth_system(&mut plants, &mut world, &mut rng, 500);
    assert_eq!(plants[0].growth_timer.elapsed_ms, 0); // 500 ms interval elapsed and wrapped
    assert_eq!(plants[0].biology.energy, 9_999);
    assert_eq!(plants[0].structure.voxel_positions.len(), 1);
    assert_eq!(plants[0].structure.leaf_positions.len(), 0);
    assert_eq!(plants[0].structure.root_positions.len(), 1);
}

#[test]
fn plants_at_their_height_cap_stop_growing() {
    let mut rng = rand::rng();
    let mut world = VoxelWorld::new(8, 16, 8);
    // A height gene of zero decodes to a cap of five voxels above the root.
    let mut plant = planted(&mut world, VoxelPos::new(3, 7, 3), 1, genome_of(0));
    let top = VoxelPos::new(3, 12, 3);
    {
        let v = world.get_mut(&top).unwrap();
        v.voxel_type = VoxelType::PlantMaterial { plant_id: 1, species_id: 0 };
    }
    plant.structure.voxel_positions.push(top);
    plant.biology.energy = 500_000;
    let mut plants = vec![plant];
    for _ in 0..10 {
        plant_growth_system(&mut plants, &mut world, &mut rng, 500);
        assert_eq!(plants[0].biology.energy, 500_000);
        assert_eq!(plants[0].structure.voxel_positions.len(), 2);
    }
}

#[test]
fn growth_pays_exactly_the_cost_per_claimed_cell() {
    let mut rng = rand::rng();
    let mut world = VoxelWorld::new(8, 16, 8);
    let mut plants = vec![planted(&mut world, VoxelPos::new(3, 7, 3), 1, genome_of(500))];
    plants[0].biology.energy = 500_000;
    for _ in 0..40 {
        let before_len = plants[0].structure.voxel_positions.len();
        let before_energy = plants[0].biology.energy;
        plant_growth_system(&mut plants, &mut world, &mut rng, 500);
        let claimed = plants[0].structure.voxel_positions.len() - before_len;
        assert!(claimed <= 3);
        assert_eq!(
            plants[0].biology.energy,
            before_energy - (claimed as i64) * BASE_GROWTH_COST,
        );
    }
}

#[test]
fn growth_system_only_extends_structures_and_spends_energy() {
    let mut rng = rand::rng();
    let mut world = VoxelWorld::new(8, 16, 8);
    let mut plants = vec![planted(&mut world, VoxelPos::new(3, 7, 3), 1, genome_of(500))];
    plants[0].biology.energy = 500_000;
    for _ in 0..40 {
        let before_len = plants[0].structure.voxel_positions.len();
        let before_energy = plants[0].biology.energy;
        let before_age = plants[0].biology.age;
        plant_growth_system(&mut plants, &mut world, &mut rng, 500);
        assert!(plants[0].structure.voxel_positions.len() >= before_len);
        assert!(plants[0].biology.energy <= before_energy);
        assert_eq!(plants[0].biology.age, before_age);
        assert!(plants[0].biology.is_alive);
    }
    // Every claimed cell carries this plant's tag.
    for pos in &plants[0].structure.voxel_positions {
        let cell = world.get(pos).unwrap();
        assert_eq!(cell.voxel_type, VoxelType::PlantMaterial { plant_id: 1, species_id: 0 });
    }
}
