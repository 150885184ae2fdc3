use plant_evolution::sim::Simulation;
use plant_evolution::voxel::VoxelType;

#[test]
fn a_new_simulation_is_empty_and_running() {
    let sim = Simulation::new(16, 16, 16);
    assert_eq!(sim.plants.len(), 0);
    assert_eq!(sim.next_plant_id, 0);
    assert_eq!(sim.species_counter.next_id, 0);
    assert!(!sim.paused);
    assert_eq!(sim.world.width(), 16);
}

#[test]
fn seeding_places_at_most_count_plants_on_soil() {
    let mut rng = rand::rng();
    let mut sim = Simulation::new(16, 16, 16);
    sim.seed_initial_plants(10, &mut rng);
    assert!(sim.plants.len() <= 10);
    assert!(sim.species_counter.next_id >= 10);
    for p in &sim.plants {
        assert!(p.biology.is_alive);
        // Seeds sit just below the surface, on what was soil.
        assert_eq!(p.structure.root_position.y, 7);
        let cell = sim.world.get(&p.structure.root_position).unwrap();
        assert_eq!(
            cell.voxel_type,
            VoxelType::PlantMaterial { plant_id: p.id, species_id: p.lineage.species_id },
        );
    }
}

#[test]
fn a_paused_simulation_does_not_move() {
    let mut rng = rand::rng();
    let mut sim = Simulation::new(8, 8, 8);
    sim.seed_initial_plants(4, &mut rng);
    sim.paused = true;
    let plants_before = sim.plants.len();
    let day_before = sim.day_night.time_of_day_ms;
    let elapsed_before = sim.elapsed_ms;
    let energies: Vec<i64> = sim.plants.iter().map(|p| p.biology.energy).collect();
    for _ in 0..5 {
        sim.tick(&mut rng, 1000);
    }
    assert_eq!(sim.plants.len(), plants_before);
    assert_eq!(sim.day_night.time_of_day_ms, day_before);
    assert_eq!(sim.elapsed_ms, elapsed_before);
    let energies_after: Vec<i64> = sim.plants.iter().map(|p| p.biology.energy).collect();
    assert_eq!(energies, energies_after);
}

#[test]
fn resuming_restarts_the_clocks() {
    let mut rng = rand::rng();
    let mut sim = Simulation::new(8, 8, 8);
    sim.paused = true;
    sim.tick(&mut rng, 1000);
    assert_eq!(sim.elapsed_ms, 0);
    sim.paused = false;
    sim.tick(&mut rng, 1000);
    assert_eq!(sim.elapsed_ms, 1000);
    assert_eq!(sim.day_night.time_of_day_ms, 31_000);
}

#[test]
fn ticks_keep_the_grid_and_structures_consistent() {
    let mut rng = rand::rng();
    let mut sim = Simulation::new(24, 24, 24);
    sim.seed_initial_plants(8, &mut rng);
    for _ in 0..30 {
        sim.tick(&mut rng, 500);
        // Every living plant's listed cell is plant material tagged with
        // that plant's identity, so no two living plants share a cell.
        for p in &sim.plants {
            assert!(p.biology.is_alive);
            for pos in &p.structure.voxel_positions {
                let cell = sim.world.get(pos).unwrap();
                assert_eq!(
                    cell.voxel_type,
                    VoxelType::PlantMaterial { plant_id: p.id, species_id: p.lineage.species_id },
                );
            }
        }
        // Plant identities stay pairwise distinct.
        for (a, pa) in sim.plants.iter().enumerate() {
            for pb in sim.plants.iter().skip(a + 1) {
                assert_ne!(pa.id, pb.id);
            }
        }
    }
}

#[test]
fn structure_and_age_grow_monotonically_while_alive() {
    let mut rng = rand::rng();
    let mut sim = Simulation::new(24, 24, 24);
    sim.seed_initial_plants(8, &mut rng);
    for _ in 0..30 {
        let before: Vec<(u32, usize, u64)> = sim
            .plants
            .iter()
            .map(|p| (p.id, p.structure.voxel_positions.len(), p.biology.age))
            .collect();
        sim.tick(&mut rng, 500);
        for p in &sim.plants {
            if let Some((_, len, age)) = before.iter().find(|(id, _, _)| *id == p.id) {
                assert!(p.structure.voxel_positions.len() >= *len);
                assert!(p.biology.age >= *age);
            }
        }
    }
}

#[test]
fn environment_scalars_stay_in_their_ranges() {
    let mut rng = rand::rng();
    let mut sim = Simulation::new(12, 12, 12);
    sim.seed_initial_plants(6, &mut rng);
    for _ in 0..20 {
        sim.tick(&mut rng, 500);
    }
    for pos in sim.world.iter_positions() {
        let v = sim.world.get(&pos).unwrap();
        assert!(v.environment.light_level <= 100_000);
        assert!(v.environment.nutrients <= 100_000);
        assert!(v.environment.water <= 100_000);
    }
    for p in &sim.plants {
        for g in [
            p.genome.growth_rate,
            p.genome.max_height,
            p.genome.leaf_density,
            p.genome.root_depth,
            p.genome.branching_frequency,
            p.genome.photosynthesis_efficiency,
            p.genome.reproduction_threshold,
            p.genome.mutation_rate,
            p.genome.horizontal_growth_tendency,
        ] {
            assert!(g.value <= 1000);
        }
    }
}
