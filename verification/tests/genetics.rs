use plant_evolution::config::{MUTATION_STRENGTH, SCALE};
use plant_evolution::genetics::{Gene, GeneticLineage, Genome};

fn genome_of(value: u32) -> Genome {
    Genome {
        growth_rate: Gene::new(value),
        max_height: Gene::new(value),
        leaf_density: Gene::new(value),
        root_depth: Gene::new(value),
        branching_frequency: Gene::new(value),
        photosynthesis_efficiency: Gene::new(value),
        reproduction_threshold: Gene::new(value),
        mutation_rate: Gene::new(value),
        horizontal_growth_tendency: Gene::new(value),
    }
}

#[test]
fn gene_new_clamps_into_unit_range() {
    assert_eq!(Gene::new(0).value, 0);
    assert_eq!(Gene::new(500).value, 500);
    assert_eq!(Gene::new(1000).value, 1000);
    assert_eq!(Gene::new(1001).value, 1000);
    assert_eq!(Gene::new(u32::MAX).value, 1000);
}

#[test]
fn distance_to_exact_clone_is_zero() {
    let g = genome_of(375);
    let clone = g;
    assert_eq!(g.distance(&clone), 0);
}

#[test]
fn distance_between_extreme_genomes_is_full_unit() {
    let zeros = genome_of(0);
    let ones = genome_of(1000);
    // Nine genes each differing by the whole unit: mean distance 1.0.
    assert_eq!(zeros.distance(&ones), 1000);
    assert_eq!(ones.distance(&zeros), 1000);
}

#[test]
fn distance_averages_over_nine_genes() {
    let mut a = genome_of(0);
    let b = genome_of(0);
    a.growth_rate = Gene::new(900);
    // One gene differs by 0.9: mean = 900 / 9 = 100 thousandths.
    assert_eq!(a.distance(&b), 100);
}

#[test]
fn distance_floors_toward_zero() {
    // A single gene one thousandth apart: the mean 1/9 floors to zero.
    let mut a = genome_of(0);
    let b = genome_of(0);
    a.growth_rate = Gene::new(1);
    assert_eq!(a.distance(&b), 0);
}

#[test]
fn gene_decoders_map_unit_range_onto_domain_ranges() {
    let low = genome_of(0);
    let mid = genome_of(500);
    let high = genome_of(1000);
    assert_eq!(low.get_growth_rate(), 100);
    assert_eq!(high.get_growth_rate(), 2000);
    assert_eq!(low.get_max_height(), 5);
    assert_eq!(mid.get_max_height(), 27);
    assert_eq!(high.get_max_height(), 50);
    assert_eq!(low.get_leaf_density(), 100);
    assert_eq!(high.get_leaf_density(), 1000);
    assert_eq!(low.get_root_depth(), 1);
    assert_eq!(high.get_root_depth(), 20);
    assert_eq!(low.get_branching_frequency(), 10);
    assert_eq!(high.get_branching_frequency(), 300);
    assert_eq!(low.get_photosynthesis_efficiency(), 300);
    assert_eq!(mid.get_photosynthesis_efficiency(), 900);
    assert_eq!(high.get_photosynthesis_efficiency(), 1500);
    assert_eq!(low.get_reproduction_threshold(), 50_000);
    assert_eq!(high.get_reproduction_threshold(), 500_000);
    assert_eq!(low.get_mutation_rate(), 10);
    assert_eq!(high.get_mutation_rate(), 200);
    assert_eq!(mid.get_horizontal_growth_tendency(), 500);
}

#[test]
fn mutation_keeps_genes_in_range_and_near_parent() {
    let mut rng = rand::rng();
    for _ in 0..200 {
        let mut g = Gene::new(500);
        g.mutate(&mut rng);
        assert!(g.value <= SCALE);
        assert!(g.value.abs_diff(500) <= MUTATION_STRENGTH);
    }
    // Repeated mutation from the boundary never escapes the unit range.
    let mut edge = Gene::new(0);
    for _ in 0..500 {
        edge.mutate(&mut rng);
        assert!(edge.value <= SCALE);
    }
}

#[test]
fn reproduce_keeps_offspring_in_range_and_near_parent() {
    let mut rng = rand::rng();
    let parent = genome_of(500);
    for _ in 0..50 {
        let child = parent.reproduce(&mut rng);
        for (p, c) in [
            (parent.growth_rate, child.growth_rate),
            (parent.max_height, child.max_height),
            (parent.leaf_density, child.leaf_density),
            (parent.root_depth, child.root_depth),
            (parent.branching_frequency, child.branching_frequency),
            (parent.photosynthesis_efficiency, child.photosynthesis_efficiency),
            (parent.reproduction_threshold, child.reproduction_threshold),
            (parent.mutation_rate, child.mutation_rate),
            (parent.horizontal_growth_tendency, child.horizontal_growth_tendency),
        ] {
            assert!(c.value <= SCALE);
            assert!(c.value.abs_diff(p.value) <= MUTATION_STRENGTH);
        }
    }
}

#[test]
fn random_genomes_are_well_formed() {
    let mut rng = rand::rng();
    for _ in 0..50 {
        let g = Genome::random(&mut rng);
        assert!(g.growth_rate.value <= SCALE);
        assert!(g.max_height.value <= SCALE);
        assert!(g.leaf_density.value <= SCALE);
        assert!(g.root_depth.value <= SCALE);
        assert!(g.branching_frequency.value <= SCALE);
        assert!(g.photosynthesis_efficiency.value <= SCALE);
        assert!(g.reproduction_threshold.value <= SCALE);
        assert!(g.mutation_rate.value <= SCALE);
        assert!(g.horizontal_growth_tendency.value <= SCALE);
    }
}

#[test]
fn default_lineage_is_a_founder() {
    let l = GeneticLineage::default();
    assert_eq!(l.generation, 0);
    assert!(l.parent_id.is_none());
    assert_eq!(l.species_id, 0);
}
