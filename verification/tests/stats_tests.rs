use plant_evolution::genetics::{Gene, GeneticLineage, Genome};
use plant_evolution::plant::{GrowthTimer, Plant, PlantBiology, PlantStructure};
use plant_evolution::stats::{
    calculate_genetic_diversity, collect_statistics_system, estimate_species_count,
    StatisticsHistory,
};
use plant_evolution::voxel::VoxelPos;

fn genome_of(value: u32) -> Genome {
    Genome {
        growth_rate: Gene::new(value),
        max_height: Gene::new(value),
        leaf_density: Gene::new(value),
        root_depth: Gene::new(value),
        branching_frequency: Gene::new(value),
        photosynthesis_efficiency: Gene::new(value),
        reproduction_threshold: Gene::new(value),
        mutation_rate: Gene::new(value),
        horizontal_growth_tendency: Gene::new(value),
    }
}

fn plant_with(id: u32, energy: i64, age: u64, mass: u32, genome: Genome, alive: bool) -> Plant {
    Plant {
        id,
        genome,
        biology: PlantBiology { energy, age, is_alive: alive, total_mass: mass },
        structure: PlantStructure::new(VoxelPos::new(0, 0, 0)),
        lineage: GeneticLineage::default(),
        growth_timer: GrowthTimer::default(),
    }
}

#[test]
fn diversity_of_identical_genomes_is_zero() {
    let genomes = vec![genome_of(400); 5];
    assert_eq!(calculate_genetic_diversity(&genomes), 0);
}

#[test]
fn diversity_of_extreme_pair_is_the_full_unit() {
    let genomes = vec![genome_of(0), genome_of(1000)];
    assert_eq!(calculate_genetic_diversity(&genomes), 1000);
}

#[test]
fn diversity_needs_at_least_two_genomes() {
    assert_eq!(calculate_genetic_diversity(&Vec::new()), 0);
    assert_eq!(calculate_genetic_diversity(&vec![genome_of(123)]), 0);
}

#[test]
fn diversity_averages_over_all_pairs() {
    // Three genomes at 0, 0 and 900: pair distances 0, 900, 900 over three
    // pairs give a mean of 600.
    let genomes = vec![genome_of(0), genome_of(0), genome_of(900)];
    assert_eq!(calculate_genetic_diversity(&genomes), 600);
}

#[test]
fn species_estimate_clusters_by_distance() {
    // Identical genomes form one cluster.
    let same = vec![genome_of(500); 4];
    assert_eq!(estimate_species_count(&same), 1);
    // Two well-separated groups form two clusters (distance 0.5 >= 0.15).
    let split = vec![genome_of(0), genome_of(500), genome_of(10), genome_of(490)];
    assert_eq!(estimate_species_count(&split), 2);
    // Nearby genomes join the first cluster (distance 0.1 < 0.15).
    let close = vec![genome_of(500), genome_of(600)];
    assert_eq!(estimate_species_count(&close), 1);
    assert_eq!(estimate_species_count(&Vec::new()), 0);
}

#[test]
fn collector_waits_for_its_interval() {
    let mut history = StatisticsHistory::default();
    let plants = vec![plant_with(1, 10_000, 100, 1, genome_of(500), true)];
    collect_statistics_system(&mut history, &plants, 400, 400);
    assert_eq!(history.snapshots.len(), 0);
    assert_eq!(history.update_timer_ms, 400);
    collect_statistics_system(&mut history, &plants, 1000, 600);
    assert_eq!(history.snapshots.len(), 1);
    assert_eq!(history.update_timer_ms, 0);
}

#[test]
fn collector_skips_an_empty_population() {
    let mut history = StatisticsHistory::default();
    let dead = vec![plant_with(1, -5, 100, 1, genome_of(500), false)];
    collect_statistics_system(&mut history, &dead, 1000, 1000);
    assert_eq!(history.snapshots.len(), 0);
}

#[test]
fn snapshot_averages_cover_only_living_plants() {
    let mut history = StatisticsHistory::default();
    let plants = vec![
        plant_with(1, 10_000, 1000, 2, genome_of(200), true),
        plant_with(2, 30_000, 3000, 4, genome_of(600), true),
        plant_with(3, 999_999, 9999, 99, genome_of(999), false),
    ];
    collect_statistics_system(&mut history, &plants, 1000, 1000);
    assert_eq!(history.snapshots.len(), 1);
    let s = &history.snapshots[0];
    assert_eq!(s.timestamp, 1000);
    assert_eq!(s.population, 2);
    assert_eq!(s.avg_energy, 20_000);
    assert_eq!(s.avg_age, 2000);
    assert_eq!(s.avg_mass, 3);
    assert_eq!(s.total_biomass, 6);
    assert_eq!(s.avg_growth_rate, 400);
    assert_eq!(s.avg_height_gene, 400);
    assert_eq!(s.avg_photosynthesis, 400);
    // Two genomes 0.4 apart: diversity 400, clusters 2.
    assert_eq!(s.genetic_diversity, 400);
    assert_eq!(s.species_count, 2);
}
