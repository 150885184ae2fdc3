//! Genomes: fixed sets of normalized genes in thousandths of the unit
//! interval, with mutation, pairwise distance, and decoders that map each
//! gene onto its trait's domain range.

use vstd::prelude::*;
use crate::config::{MUTATION_RATE, MUTATION_STRENGTH, SCALE};
use crate::rng::rng_below;

verus! {

/// Clamps a mathematical integer into the unit range `0..=SCALE`.
pub open spec fn clamp_unit(v: int) -> u32 {
    if v < 0 {
        0u32
    } else if v > SCALE {
        SCALE
    } else {
        v as u32
    }
}

/// The value of a gene after one mutation step. A roll below the mutation
/// probability shifts the value by `offset - MUTATION_STRENGTH` (a signed
/// shift of at most `MUTATION_STRENGTH` thousandths), clamped back into the
/// unit range; any other roll leaves the value unchanged.
pub open spec fn spec_mutated(value: u32, roll: u32, offset: u32) -> u32 {
    if roll < MUTATION_RATE {
        clamp_unit(value + offset - MUTATION_STRENGTH)
    } else {
        value
    }
}

/// The absolute difference of two gene values.
pub open spec fn spec_abs_diff(a: u32, b: u32) -> int {
    if a >= b {
        a - b
    } else {
        b - a
    }
}

/// One normalized heritable trait value, in thousandths of the unit
/// interval.
#[derive(Debug, Clone, Copy, PartialEq, Eq, Structural)]
pub struct Gene {
    pub value: u32,
}

impl Gene {
    /// The value lies inside the closed unit range.
    pub open spec fn wf(self) -> bool {
        self.value <= SCALE
    }

    /// A gene with the given value, clamped into the unit range.
    pub fn new(value: u32) -> (r: Self)
        ensures
            r.value == clamp_unit(value as int),
            r.wf(),
    {
        Gene { value: if value > SCALE { SCALE } else { value } }
    }

    /// A uniformly random gene value.
    pub fn random(rng: &mut rand::rngs::ThreadRng) -> (r: Self)
        ensures
            r.wf(),
    {
        Gene { value: rng_below(rng, SCALE) }
    }

    /// The gene value after a mutation step with the given roll and offset:
    /// exactly `spec_mutated`.
    pub fn mutated_with(self, roll: u32, offset: u32) -> (r: Self)
        requires
            self.wf(),
            offset <= 2 * MUTATION_STRENGTH,
        ensures
            r.value == spec_mutated(self.value, roll, offset),
            r.wf(),
            spec_abs_diff(self.value, r.value) <= MUTATION_STRENGTH,
    {
        if roll < MUTATION_RATE {
            let shifted: u32 = self.value + offset;
            if shifted <= MUTATION_STRENGTH {
                Gene { value: 0 }
            } else if shifted - MUTATION_STRENGTH > SCALE {
                Gene { value: SCALE }
            } else {
                Gene { value: shifted - MUTATION_STRENGTH }
            }
        } else {
            Gene { value: self.value }
        }
    }

    /// Mutates the gene in place: with probability `MUTATION_RATE` the value
    /// shifts by at most `MUTATION_STRENGTH` thousandths either way, clamped
    /// into the unit range; otherwise it is unchanged.
    pub fn mutate(&mut self, rng: &mut rand::rngs::ThreadRng)
        requires
            old(self).wf(),
        ensures
            final(self).wf(),
            spec_abs_diff(old(self).value, final(self).value) <= MUTATION_STRENGTH,
    {
        let roll = rng_below(rng, SCALE);
        let offset = rng_below(rng, 2 * MUTATION_STRENGTH + 1);
        *self = self.mutated_with(roll, offset);
    }
}

/// The full heritable genome of one plant.
#[derive(Debug, Clone, Copy, PartialEq, Eq, Structural)]
pub struct Genome {
    pub growth_rate: Gene,
    pub max_height: Gene,
    pub leaf_density: Gene,
    pub root_depth: Gene,
    pub branching_frequency: Gene,
    pub photosynthesis_efficiency: Gene,
    pub reproduction_threshold: Gene,
    pub mutation_rate: Gene,
    pub horizontal_growth_tendency: Gene,
}

/// The sum of the absolute gene differences of two genomes.
pub open spec fn spec_diff_sum(a: Genome, b: Genome) -> int {
    spec_abs_diff(a.growth_rate.value, b.growth_rate.value) + spec_abs_diff(
        a.max_height.value,
        b.max_height.value,
    ) + spec_abs_diff(a.leaf_density.value, b.leaf_density.value) + spec_abs_diff(
        a.root_depth.value,
        b.root_depth.value,
    ) + spec_abs_diff(a.branching_frequency.value, b.branching_frequency.value) + spec_abs_diff(
        a.photosynthesis_efficiency.value,
        b.photosynthesis_efficiency.value,
    ) + spec_abs_diff(a.reproduction_threshold.value, b.reproduction_threshold.value)
        + spec_abs_diff(a.mutation_rate.value, b.mutation_rate.value) + spec_abs_diff(
        a.horizontal_growth_tendency.value,
        b.horizontal_growth_tendency.value,
    )
}

/// The genetic distance of two genomes: the mean absolute difference over
/// the nine genes, in thousandths.
pub open spec fn spec_distance(a: Genome, b: Genome) -> int {
    spec_diff_sum(a, b) / 9
}

/// Every gene of `b` lies within `MUTATION_STRENGTH` of the same gene of
/// `a`: the relation between a parent genome and its offspring.
pub open spec fn genes_near(a: Genome, b: Genome) -> bool {
    &&& spec_abs_diff(a.growth_rate.value, b.growth_rate.value) <= MUTATION_STRENGTH
    &&& spec_abs_diff(a.max_height.value, b.max_height.value) <= MUTATION_STRENGTH
    &&& spec_abs_diff(a.leaf_density.value, b.leaf_density.value) <= MUTATION_STRENGTH
    &&& spec_abs_diff(a.root_depth.value, b.root_depth.value) <= MUTATION_STRENGTH
    &&& spec_abs_diff(a.branching_frequency.value, b.branching_frequency.value)
        <= MUTATION_STRENGTH
    &&& spec_abs_diff(a.photosynthesis_efficiency.value, b.photosynthesis_efficiency.value)
        <= MUTATION_STRENGTH
    &&& spec_abs_diff(a.reproduction_threshold.value, b.reproduction_threshold.value)
        <= MUTATION_STRENGTH
    &&& spec_abs_diff(a.mutation_rate.value, b.mutation_rate.value) <= MUTATION_STRENGTH
    &&& spec_abs_diff(a.horizontal_growth_tendency.value, b.horizontal_growth_tendency.value)
        <= MUTATION_STRENGTH
}

impl Genome {
    /// Every gene value lies inside the closed unit range.
    pub open spec fn wf(self) -> bool {
        &&& self.growth_rate.wf()
        &&& self.max_height.wf()
        &&& self.leaf_density.wf()
        &&& self.root_depth.wf()
        &&& self.branching_frequency.wf()
        &&& self.photosynthesis_efficiency.wf()
        &&& self.reproduction_threshold.wf()
        &&& self.mutation_rate.wf()
        &&& self.horizontal_growth_tendency.wf()
    }

    /// A genome of uniformly random genes.
    pub fn random(rng: &mut rand::rngs::ThreadRng) -> (r: Self)
        ensures
            r.wf(),
    {
        Genome {
            growth_rate: Gene::random(rng),
            max_height: Gene::random(rng),
            leaf_density: Gene::random(rng),
            root_depth: Gene::random(rng),
            branching_frequency: Gene::random(rng),
            photosynthesis_efficiency: Gene::random(rng),
            reproduction_threshold: Gene::random(rng),
            mutation_rate: Gene::random(rng),
            horizontal_growth_tendency: Gene::random(rng),
        }
    }

    /// An offspring genome: every gene of the clone mutates independently
    /// with probability `MUTATION_RATE`, the mutation-rate gene itself only
    /// half as often. Each gene moves at most `MUTATION_STRENGTH`
    /// thousandths and stays in the unit range.
    pub fn reproduce(&self, rng: &mut rand::rngs::ThreadRng) -> (child: Self)
        requires
            self.wf(),
        ensures
            child.wf(),
            genes_near(*self, child),
    {
        let mut child = *self;
        child.growth_rate.mutate(rng);
        child.max_height.mutate(rng);
        child.leaf_density.mutate(rng);
        child.root_depth.mutate(rng);
        child.branching_frequency.mutate(rng);
        child.photosynthesis_efficiency.mutate(rng);
        child.reproduction_threshold.mutate(rng);
        child.horizontal_growth_tendency.mutate(rng);
        let meta_roll = rng_below(rng, SCALE);
        if meta_roll < MUTATION_RATE / 2 {
            // The half-rate gate has already decided; a zero roll lets the
            // perturbation through unconditionally.
            let offset = rng_below(rng, 2 * MUTATION_STRENGTH + 1);
            child.mutation_rate = child.mutation_rate.mutated_with(0, offset);
        }
        child
    }

    /// The genetic distance from `other`: the mean absolute gene
    /// difference, in thousandths.
    #[verifier::rlimit(30)]
    pub fn distance(&self, other: &Genome) -> (r: u32)
        requires
            self.wf(),
            other.wf(),
        ensures
            r == spec_distance(*self, *other),
            r <= SCALE,
    {
        let d1 = abs_diff(self.growth_rate.value, other.growth_rate.value);
        let d2 = abs_diff(self.max_height.value, other.max_height.value);
        let d3 = abs_diff(self.leaf_density.value, other.leaf_density.value);
        let d4 = abs_diff(self.root_depth.value, other.root_depth.value);
        let d5 = abs_diff(self.branching_frequency.value, other.branching_frequency.value);
        let d6 = abs_diff(
            self.photosynthesis_efficiency.value,
            other.photosynthesis_efficiency.value,
        );
        let d7 = abs_diff(
            self.reproduction_threshold.value,
            other.reproduction_threshold.value,
        );
        let d8 = abs_diff(self.mutation_rate.value, other.mutation_rate.value);
        let d9 = abs_diff(
            self.horizontal_growth_tendency.value,
            other.horizontal_growth_tendency.value,
        );
        let diff_sum: u32 = d1 + d2 + d3 + d4 + d5 + d6 + d7 + d8 + d9;
        diff_sum / 9
    }

    /// Growth speed decoded from the genome, in thousandths of voxels per
    /// second (nominal range 0.1 to 2.0).
    pub fn get_growth_rate(&self) -> (r: u32)
        requires
            self.wf(),
        ensures
            r == 100 + self.growth_rate.value * 1900 / 1000,
            100 <= r <= 2000,
    {
        100 + self.growth_rate.value * 1900 / 1000
    }

    /// Maximum height above the root, in voxels (range 5 to 50).
    pub fn get_max_height(&self) -> (r: i32)
        requires
            self.wf(),
        ensures
            r == 5 + self.max_height.value * 45 / 1000,
            5 <= r <= 50,
    {
        5 + (self.max_height.value * 45 / 1000) as i32
    }

    /// Probability of adding a leaf after growth, in thousandths (nominal
    /// range 0.1 to 1.0).
    pub fn get_leaf_density(&self) -> (r: u32)
        requires
            self.wf(),
        ensures
            r == 100 + self.leaf_density.value * 900 / 1000,
            100 <= r <= 1000,
    {
        100 + self.leaf_density.value * 900 / 1000
    }

    /// Maximum root depth below the root position, in voxels (range 1 to
    /// 20).
    pub fn get_root_depth(&self) -> (r: i32)
        requires
            self.wf(),
        ensures
            r == 1 + self.root_depth.value * 19 / 1000,
            1 <= r <= 20,
    {
        1 + (self.root_depth.value * 19 / 1000) as i32
    }

    /// Probability of branching instead of growing upward, in thousandths
    /// (nominal range 0.01 to 0.3).
    pub fn get_branching_frequency(&self) -> (r: u32)
        requires
            self.wf(),
        ensures
            r == 10 + self.branching_frequency.value * 290 / 1000,
            10 <= r <= 300,
    {
        10 + self.branching_frequency.value * 290 / 1000
    }

    /// Photosynthesis efficiency multiplier, in thousandths (nominal range
    /// 0.3 to 1.5).
    pub fn get_photosynthesis_efficiency(&self) -> (r: u32)
        requires
            self.wf(),
        ensures
            r == 300 + self.photosynthesis_efficiency.value * 1200 / 1000,
            300 <= r <= 1500,
    {
        300 + self.photosynthesis_efficiency.value * 1200 / 1000
    }

    /// Energy needed to reproduce, in thousandths of an energy unit
    /// (nominal range 50 to 500).
    pub fn get_reproduction_threshold(&self) -> (r: i64)
        requires
            self.wf(),
        ensures
            r == 50_000 + self.reproduction_threshold.value * 450_000 / 1000,
            50_000 <= r <= 500_000,
    {
        50_000 + (self.reproduction_threshold.value as i64) * 450_000 / 1000
    }

    /// Per-gene mutation probability decoded from the genome, in
    /// thousandths (nominal range 0.01 to 0.2). Decoded for display only:
    /// reproduction deliberately uses the fixed global `MUTATION_RATE`, so
    /// this gene is carried and mutated but never steers mutation itself.
    pub fn get_mutation_rate(&self) -> (r: u32)
        requires
            self.wf(),
        ensures
            r == 10 + self.mutation_rate.value * 190 / 1000,
            10 <= r <= 200,
    {
        10 + self.mutation_rate.value * 190 / 1000
    }

    /// Preference for horizontal over vertical growth, in thousandths.
    pub fn get_horizontal_growth_tendency(&self) -> (r: u32)
        requires
            self.wf(),
        ensures
            r == self.horizontal_growth_tendency.value,
    {
        self.horizontal_growth_tendency.value
    }
}

/// The absolute difference of two gene values.
fn abs_diff(a: u32, b: u32) -> (r: u32)
    ensures
        r == spec_abs_diff(a, b),
{
    if a >= b {
        a - b
    } else {
        b - a
    }
}

/// Ancestry metadata of one plant. The species id is assigned at creation
/// and never changes.
#[derive(Debug, Clone, Copy, PartialEq, Eq, Structural)]
pub struct GeneticLineage {
    pub generation: u32,
    pub parent_id: Option<u32>,
    pub species_id: u32,
}

impl Default for GeneticLineage {
    /// A founding lineage: generation zero, no parent, species zero.
    fn default() -> (r: Self)
        ensures
            r.generation == 0,
            r.parent_id is None,
            r.species_id == 0,
    {
        GeneticLineage { generation: 0, parent_id: None, species_id: 0 }
    }
}

/// Law: one mutation step keeps a unit-range gene value in the unit range,
/// whatever the roll and the offset.
pub proof fn lemma_mutation_preserves_range(value: u32, roll: u32, offset: u32)
    requires
        value <= SCALE,
    ensures
        spec_mutated(value, roll, offset) <= SCALE,
{
}

/// Law: the genetic distance of a genome from itself is zero.
pub proof fn lemma_distance_self_zero(g: Genome)
    ensures
        spec_distance(g, g) == 0,
{
}

/// Law: genetic distance is symmetric.
pub proof fn lemma_distance_symmetric(a: Genome, b: Genome)
    ensures
        spec_distance(a, b) == spec_distance(b, a),
{
}

} // verus!
