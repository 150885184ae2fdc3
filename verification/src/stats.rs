//! The statistics collector: periodic population-wide aggregates, a capped
//! pairwise genetic-diversity sample, and an approximate species count by
//! greedy clustering — an order-dependent estimate, deliberately distinct
//! from the authoritative per-plant species identity.

use vstd::prelude::*;
use crate::config::{
    DIVERSITY_SAMPLE_CAP, DT_MAX_MS, SCALE, SPECIES_CLUSTER_THRESHOLD, STATS_HISTORY_SIZE,
    STATS_UPDATE_INTERVAL_MS,
};
use crate::genetics::{spec_distance, Genome};
use crate::plant::Plant;

verus! {

use vstd::arithmetic::div_mod::{
    lemma_div_is_ordered,
    lemma_div_multiples_vanish,
    lemma_fundamental_div_mod_converse_div,
};

/// Statistic sums saturate at this magnitude, far beyond any value the
/// simulation reaches.
pub const STAT_SAT: i64 = 1_000_000_000_000_000_000;

/// Clamps a statistic contribution or sum into its saturation range.
pub open spec fn cap_stat(v: int) -> int {
    if v > STAT_SAT {
        STAT_SAT as int
    } else if v < -STAT_SAT {
        -(STAT_SAT as int)
    } else {
        v
    }
}

/// Adds a statistic contribution to a running sum, saturating both.
fn stat_add(acc: i64, v: i64) -> (r: i64)
    requires
        -STAT_SAT <= acc <= STAT_SAT,
    ensures
        r == cap_stat(acc + cap_stat(v as int)),
        -STAT_SAT <= r <= STAT_SAT,
{
    let c: i64 = if v > STAT_SAT {
        STAT_SAT
    } else if v < -STAT_SAT {
        -STAT_SAT
    } else {
        v
    };
    let s: i64 = acc + c;
    if s > STAT_SAT {
        STAT_SAT
    } else if s < -STAT_SAT {
        -STAT_SAT
    } else {
        s
    }
}

/// The number of living plants.
pub open spec fn spec_alive_count(plants: Seq<Plant>) -> int
    decreases plants.len(),
{
    if plants.len() == 0 {
        0
    } else {
        spec_alive_count(plants.drop_last()) + (if plants.last().biology.is_alive {
            1int
        } else {
            0int
        })
    }
}

/// A saturating sum of a per-plant quantity over the living plants.
pub open spec fn spec_alive_total(plants: Seq<Plant>, f: spec_fn(Plant) -> int) -> int
    decreases plants.len(),
{
    if plants.len() == 0 {
        0
    } else {
        let rest = spec_alive_total(plants.drop_last(), f);
        if plants.last().biology.is_alive {
            cap_stat(rest + cap_stat(f(plants.last())))
        } else {
            rest
        }
    }
}

/// The saturating sum and the living count stay in range.
pub proof fn lemma_alive_total_bounds(plants: Seq<Plant>, f: spec_fn(Plant) -> int)
    ensures
        -STAT_SAT <= spec_alive_total(plants, f) <= STAT_SAT,
        0 <= spec_alive_count(plants) <= plants.len(),
    decreases plants.len(),
{
    if plants.len() > 0 {
        lemma_alive_total_bounds(plants.drop_last(), f);
    }
}

/// A sum of nonnegative contributions is nonnegative.
pub proof fn lemma_alive_total_nonneg(plants: Seq<Plant>, f: spec_fn(Plant) -> int)
    requires
        forall|p: Plant| #[trigger] f(p) >= 0,
    ensures
        spec_alive_total(plants, f) >= 0,
    decreases plants.len(),
{
    if plants.len() > 0 {
        lemma_alive_total_nonneg(plants.drop_last(), f);
        lemma_alive_total_bounds(plants.drop_last(), f);
    }
}

/// Division truncating toward zero, as machine division does.
pub open spec fn trunc_div(a: int, b: int) -> int {
    if a >= 0 {
        a / b
    } else {
        -((-a) / b)
    }
}

/// The genomes of the living plants, in population order.
pub open spec fn spec_alive_genomes(plants: Seq<Plant>) -> Seq<Genome>
    decreases plants.len(),
{
    if plants.len() == 0 {
        Seq::empty()
    } else {
        let rest = spec_alive_genomes(plants.drop_last());
        if plants.last().biology.is_alive {
            rest.push(plants.last().genome)
        } else {
            rest
        }
    }
}

/// One point of the statistics history. Energies are in thousandths of an
/// energy unit, ages in milliseconds, gene averages in thousandths of the
/// unit interval, the diversity in thousandths of the distance unit.
#[derive(Debug, Clone, Copy, PartialEq, Eq, Structural)]
pub struct StatsSnapshot {
    pub timestamp: u64,
    pub population: usize,
    pub species_count: usize,
    pub avg_energy: i64,
    pub avg_age: u64,
    pub avg_mass: u64,
    pub genetic_diversity: u32,
    pub avg_growth_rate: u64,
    pub avg_height_gene: u64,
    pub avg_photosynthesis: u64,
    pub total_biomass: u64,
}

/// The statistics history: a bounded list of snapshots and the sampling
/// interval accumulator.
#[derive(Debug)]
pub struct StatisticsHistory {
    pub snapshots: Vec<StatsSnapshot>,
    pub update_timer_ms: u32,
}

impl StatisticsHistory {
    pub open spec fn wf(self) -> bool {
        &&& self.update_timer_ms < STATS_UPDATE_INTERVAL_MS
        &&& self.snapshots@.len() <= STATS_HISTORY_SIZE
    }
}

impl Default for StatisticsHistory {
    fn default() -> (r: Self)
        ensures
            r.snapshots@ =~= Seq::<StatsSnapshot>::empty(),
            r.update_timer_ms == 0,
            r.wf(),
    {
        StatisticsHistory { snapshots: Vec::new(), update_timer_ms: 0 }
    }
}

/// Running counters of population turnover.
#[derive(Debug, Clone, Copy, PartialEq, Eq, Structural)]
pub struct GenerationStats {
    pub current_generation: u32,
    pub total_births: u64,
    pub total_deaths: u64,
}

impl Default for GenerationStats {
    fn default() -> (r: Self)
        ensures
            r.current_generation == 0,
            r.total_births == 0,
            r.total_deaths == 0,
    {
        GenerationStats { current_generation: 0, total_births: 0, total_deaths: 0 }
    }
}

/// The summed genetic distance of `genomes[i]` against the genomes from `j`
/// up to the sample bound `m`.
pub open spec fn spec_row_distance(genomes: Seq<Genome>, i: int, j: int, m: int) -> int
    decreases m - j,
{
    if j < 0 || j >= m || j >= genomes.len() || i < 0 || i >= genomes.len() {
        0
    } else {
        spec_distance(genomes[i], genomes[j]) + spec_row_distance(genomes, i, j + 1, m)
    }
}

/// The summed pairwise genetic distance over the first `m` genomes,
/// starting at row `i`.
pub open spec fn spec_pairs_distance(genomes: Seq<Genome>, i: int, m: int) -> int
    decreases m - i,
{
    if i < 0 || i >= m || i >= genomes.len() {
        0
    } else {
        spec_row_distance(genomes, i, i + 1, m) + spec_pairs_distance(genomes, i + 1, m)
    }
}

/// The number of pairs the diversity sample compares.
pub open spec fn spec_pair_count(m: int) -> int {
    m * (m - 1) / 2
}

/// The mean pairwise genetic distance over the first `DIVERSITY_SAMPLE_CAP`
/// genomes, in thousandths: the diversity proxy. Fewer than two genomes
/// give zero.
pub fn calculate_genetic_diversity(genomes: &Vec<Genome>) -> (r: u32)
    requires
        forall|k: int| 0 <= k < genomes@.len() ==> (#[trigger] genomes@[k]).wf(),
    ensures
        genomes@.len() < 2 ==> r == 0,
        genomes@.len() >= 2 ==> ({
            let m = if genomes@.len() < DIVERSITY_SAMPLE_CAP {
                genomes@.len() as int
            } else {
                DIVERSITY_SAMPLE_CAP as int
            };
            r == spec_pairs_distance(genomes@, 0, m) / spec_pair_count(m)
        }),
        r <= SCALE,
{
    if genomes.len() < 2 {
        return 0;
    }
    let m: usize = if genomes.len() < DIVERSITY_SAMPLE_CAP {
        genomes.len()
    } else {
        DIVERSITY_SAMPLE_CAP
    };
    let mut total: u64 = 0;
    let mut comparisons: u64 = 0;
    let mut i: usize = 0;
    while i < m
        invariant
            2 <= m <= DIVERSITY_SAMPLE_CAP,
            m <= genomes@.len(),
            i <= m,
            forall|k: int| 0 <= k < genomes@.len() ==> (#[trigger] genomes@[k]).wf(),
            spec_pairs_distance(genomes@, 0, m as int) == total + spec_pairs_distance(
                genomes@,
                i as int,
                m as int,
            ),
            total <= comparisons * SCALE,
            2 * comparisons == i * (2 * m - i - 1),
            comparisons <= 2500,
        decreases m - i,
    {
        let mut j: usize = i + 1;
        while j < m
            invariant
                2 <= m <= DIVERSITY_SAMPLE_CAP,
                m <= genomes@.len(),
                i < m,
                i + 1 <= j <= m,
                forall|k: int| 0 <= k < genomes@.len() ==> (#[trigger] genomes@[k]).wf(),
                spec_pairs_distance(genomes@, 0, m as int) == total + spec_row_distance(
                    genomes@,
                    i as int,
                    j as int,
                    m as int,
                ) + spec_pairs_distance(genomes@, i as int + 1, m as int),
                total <= comparisons * SCALE,
                2 * comparisons == i * (2 * m - i - 1) + 2 * (j - i - 1),
                comparisons <= 2500,
            decreases m - j,
        {
            let d = genomes[i].distance(&genomes[j]);
            proof {
                assert(total + d <= (comparisons + 1) * SCALE) by (nonlinear_arith)
                    requires
                        total <= comparisons * SCALE,
                        0 <= d <= SCALE,
                ;
                assert(2 * (comparisons + 1) == i * (2 * m - i - 1) + 2 * (j + 1 - i - 1));
                assert(i * (2 * m - i - 1) + 2 * (j + 1 - i - 1) <= 2 * 2500) by (nonlinear_arith)
                    requires
                        0 <= i < m,
                        i + 1 <= j < m,
                        m <= 50,
                ;
            }
            total = total + d as u64;
            comparisons = comparisons + 1;
            j = j + 1;
        }
        proof {
            assert(i * (2 * m - i - 1) + 2 * (m - i - 1) == (i + 1) * (2 * m - (i + 1) - 1))
                by (nonlinear_arith);
        }
        i = i + 1;
    }
    proof {
        assert(2 * comparisons == m * (m - 1)) by (nonlinear_arith)
            requires
                2 * comparisons == m * (2 * m - m - 1),
        ;
        assert(comparisons >= 1) by (nonlinear_arith)
            requires
                2 * comparisons == m * (m - 1),
                m >= 2,
        ;
        lemma_fundamental_div_mod_converse_div(m as int * (m as int - 1), 2, comparisons as int, 0);
        assert(spec_pair_count(m as int) == comparisons);
        lemma_div_is_ordered(total as int, comparisons as int * SCALE, comparisons as int);
        assert(comparisons as int * SCALE == SCALE as int * comparisons) by (nonlinear_arith);
        lemma_div_multiples_vanish(SCALE as int, comparisons as int);
        assert(total / comparisons <= SCALE);
    }
    (total / comparisons) as u32
}

/// The representatives after greedy clustering of the genomes from index
/// `i` on: a genome within the cluster threshold of some representative
/// joins that cluster; any other founds a new one.
pub open spec fn spec_cluster_reps(genomes: Seq<Genome>, i: int, reps: Seq<Genome>) -> Seq<Genome>
    decreases genomes.len() - i,
{
    if i < 0 || i >= genomes.len() {
        reps
    } else {
        let found = exists|k: int|
            0 <= k < reps.len() && spec_distance(genomes[i], #[trigger] reps[k])
                < SPECIES_CLUSTER_THRESHOLD;
        spec_cluster_reps(
            genomes,
            i + 1,
            if found {
                reps
            } else {
                reps.push(genomes[i])
            },
        )
    }
}

/// The approximate species count: the number of clusters that greedy
/// clustering with the fixed distance threshold finds, scanning genomes in
/// order. Order-dependent; not the authoritative species census.
pub fn estimate_species_count(genomes: &Vec<Genome>) -> (r: usize)
    requires
        forall|k: int| 0 <= k < genomes@.len() ==> (#[trigger] genomes@[k]).wf(),
    ensures
        r == spec_cluster_reps(genomes@, 0, Seq::<Genome>::empty()).len(),
{
    let mut reps: Vec<Genome> = Vec::new();
    let n = genomes.len();
    let mut i: usize = 0;
    while i < n
        invariant
            n == genomes@.len(),
            i <= n,
            forall|k: int| 0 <= k < genomes@.len() ==> (#[trigger] genomes@[k]).wf(),
            forall|k: int| 0 <= k < reps@.len() ==> (#[trigger] reps@[k]).wf(),
            spec_cluster_reps(genomes@, 0, Seq::<Genome>::empty()) == spec_cluster_reps(
                genomes@,
                i as int,
                reps@,
            ),
        decreases n - i,
    {
        let g: Genome = genomes[i];
        let mut found = false;
        let rn = reps.len();
        let mut k: usize = 0;
        while k < rn
            invariant
                rn == reps@.len(),
                k <= rn,
                g == genomes@[i as int],
                i < n,
                n == genomes@.len(),
                forall|kk: int| 0 <= kk < genomes@.len() ==> (#[trigger] genomes@[kk]).wf(),
                forall|kk: int| 0 <= kk < reps@.len() ==> (#[trigger] reps@[kk]).wf(),
                found ==> exists|kk: int|
                    0 <= kk < reps@.len() && spec_distance(g, #[trigger] reps@[kk])
                        < SPECIES_CLUSTER_THRESHOLD,
                !found ==> forall|kk: int|
                    0 <= kk < k ==> spec_distance(g, #[trigger] reps@[kk])
                        >= SPECIES_CLUSTER_THRESHOLD,
            decreases rn - k,
        {
            if !found {
                let d = g.distance(&reps[k]);
                if d < SPECIES_CLUSTER_THRESHOLD {
                    found = true;
                }
            }
            k = k + 1;
        }
        if !found {
            reps.push(g);
        }
        i = i + 1;
    }
    reps.len()
}

/// The diversity proxy of a genome list: zero below two genomes, else the
/// mean pairwise distance over the capped sample.
pub open spec fn spec_diversity(genomes: Seq<Genome>) -> int {
    if genomes.len() < 2 {
        0
    } else {
        let m = if genomes.len() < DIVERSITY_SAMPLE_CAP {
            genomes.len() as int
        } else {
            DIVERSITY_SAMPLE_CAP as int
        };
        spec_pairs_distance(genomes, 0, m) / spec_pair_count(m)
    }
}

/// The statistics of a population with at least one living plant, sampled
/// at the given moment.
pub open spec fn spec_snapshot(plants: Seq<Plant>, now: u64) -> StatsSnapshot {
    let count = spec_alive_count(plants);
    StatsSnapshot {
        timestamp: now,
        population: count as usize,
        species_count: spec_cluster_reps(
            spec_alive_genomes(plants),
            0,
            Seq::<Genome>::empty(),
        ).len() as usize,
        avg_energy: trunc_div(
            spec_alive_total(plants, |p: Plant| p.biology.energy as int),
            count,
        ) as i64,
        avg_age: (spec_alive_total(plants, |p: Plant| p.biology.age as int) / count) as u64,
        avg_mass: (spec_alive_total(plants, |p: Plant| p.biology.total_mass as int)
            / count) as u64,
        genetic_diversity: spec_diversity(spec_alive_genomes(plants)) as u32,
        avg_growth_rate: (spec_alive_total(plants, |p: Plant| p.genome.growth_rate.value as int)
            / count) as u64,
        avg_height_gene: (spec_alive_total(plants, |p: Plant| p.genome.max_height.value as int)
            / count) as u64,
        avg_photosynthesis: (spec_alive_total(
            plants,
            |p: Plant| p.genome.photosynthesis_efficiency.value as int,
        ) / count) as u64,
        total_biomass: spec_alive_total(plants, |p: Plant| p.biology.total_mass as int) as u64,
    }
}

/// Collects one snapshot when the sampling interval elapses and at least
/// one plant lives: population count, energy, age and mass averages over
/// the living plants, total biomass, three gene-value averages, the
/// diversity proxy over the living genomes, and the approximate species
/// count. The history keeps at most its fixed size, dropping the oldest.
pub fn collect_statistics_system(
    history: &mut StatisticsHistory,
    plants: &Vec<Plant>,
    now_ms: u64,
    dt: u32,
)
    requires
        old(history).wf(),
        dt <= DT_MAX_MS,
        forall|i: int| 0 <= i < plants@.len() ==> (#[trigger] plants@[i]).wf(),
    ensures
        final(history).wf(),
        final(history).update_timer_ms == (old(history).update_timer_ms + dt) as int
            % STATS_UPDATE_INTERVAL_MS as int,
        old(history).update_timer_ms + dt < STATS_UPDATE_INTERVAL_MS ==> final(history).snapshots@
            == old(history).snapshots@,
        spec_alive_count(plants@) == 0 ==> final(history).snapshots@ == old(history).snapshots@,
        old(history).update_timer_ms + dt >= STATS_UPDATE_INTERVAL_MS && spec_alive_count(plants@)
            > 0 ==> ({
            let appended = old(history).snapshots@.push(spec_snapshot(plants@, now_ms));
            final(history).snapshots@ == (if appended.len() > STATS_HISTORY_SIZE {
                appended.skip(1)
            } else {
                appended
            })
        }),
{
    let acc: u32 = history.update_timer_ms + dt;
    history.update_timer_ms = acc % STATS_UPDATE_INTERVAL_MS;
    if acc < STATS_UPDATE_INTERVAL_MS {
        return ;
    }
    let ghost f_energy = |p: Plant| p.biology.energy as int;
    let ghost f_age = |p: Plant| p.biology.age as int;
    let ghost f_mass = |p: Plant| p.biology.total_mass as int;
    let ghost f_growth = |p: Plant| p.genome.growth_rate.value as int;
    let ghost f_height = |p: Plant| p.genome.max_height.value as int;
    let ghost f_photo = |p: Plant| p.genome.photosynthesis_efficiency.value as int;
    let n = plants.len();
    let mut count: usize = 0;
    let mut total_energy: i64 = 0;
    let mut total_age: i64 = 0;
    let mut total_mass: i64 = 0;
    let mut total_growth: i64 = 0;
    let mut total_height: i64 = 0;
    let mut total_photo: i64 = 0;
    let mut genomes: Vec<Genome> = Vec::new();
    let mut i: usize = 0;
    while i < n
        invariant
            n == plants@.len(),
            i <= n,
            forall|j: int| 0 <= j < n ==> (#[trigger] plants@[j]).wf(),
            count == spec_alive_count(plants@.take(i as int)),
            count <= i,
            total_energy == spec_alive_total(plants@.take(i as int), f_energy),
            total_age == spec_alive_total(plants@.take(i as int), f_age),
            total_mass == spec_alive_total(plants@.take(i as int), f_mass),
            total_growth == spec_alive_total(plants@.take(i as int), f_growth),
            total_height == spec_alive_total(plants@.take(i as int), f_height),
            total_photo == spec_alive_total(plants@.take(i as int), f_photo),
            -STAT_SAT <= total_energy <= STAT_SAT,
            -STAT_SAT <= total_age <= STAT_SAT,
            -STAT_SAT <= total_mass <= STAT_SAT,
            -STAT_SAT <= total_growth <= STAT_SAT,
            -STAT_SAT <= total_height <= STAT_SAT,
            -STAT_SAT <= total_photo <= STAT_SAT,
            genomes@ == spec_alive_genomes(plants@.take(i as int)),
            forall|k: int| 0 <= k < genomes@.len() ==> (#[trigger] genomes@[k]).wf(),
            f_energy == (|p: Plant| p.biology.energy as int),
            f_age == (|p: Plant| p.biology.age as int),
            f_mass == (|p: Plant| p.biology.total_mass as int),
            f_growth == (|p: Plant| p.genome.growth_rate.value as int),
            f_height == (|p: Plant| p.genome.max_height.value as int),
            f_photo == (|p: Plant| p.genome.photosynthesis_efficiency.value as int),
        decreases n - i,
    {
        proof {
            assert(plants@.take(i + 1).drop_last() =~= plants@.take(i as int));
            assert(plants@.take(i + 1).last() == plants@[i as int]);
        }
        if plants[i].biology.is_alive {
            count = count + 1;
            total_energy = stat_add(total_energy, plants[i].biology.energy);
            total_age = stat_add(total_age, plants[i].biology.age as i64);
            total_mass = stat_add(total_mass, plants[i].biology.total_mass as i64);
            total_growth = stat_add(total_growth, plants[i].genome.growth_rate.value as i64);
            total_height = stat_add(total_height, plants[i].genome.max_height.value as i64);
            total_photo = stat_add(
                total_photo,
                plants[i].genome.photosynthesis_efficiency.value as i64,
            );
            genomes.push(plants[i].genome);
        }
        i = i + 1;
    }
    proof {
        assert(plants@.take(n as int) =~= plants@);
    }
    if count == 0 {
        return ;
    }
    let diversity: u32 = calculate_genetic_diversity(&genomes);
    let species: usize = estimate_species_count(&genomes);
    proof {
        lemma_alive_total_nonneg(plants@, f_age);
        lemma_alive_total_nonneg(plants@, f_mass);
        lemma_alive_total_nonneg(plants@, f_growth);
        lemma_alive_total_nonneg(plants@, f_height);
        lemma_alive_total_nonneg(plants@, f_photo);
    }
    let avg_energy: i64 = if total_energy >= 0 {
        ((total_energy as u64) / (count as u64)) as i64
    } else {
        -((((-total_energy) as u64) / (count as u64)) as i64)
    };
    let snap = StatsSnapshot {
        timestamp: now_ms,
        population: count,
        species_count: species,
        avg_energy,
        avg_age: (total_age as u64) / (count as u64),
        avg_mass: (total_mass as u64) / (count as u64),
        genetic_diversity: diversity,
        avg_growth_rate: (total_growth as u64) / (count as u64),
        avg_height_gene: (total_height as u64) / (count as u64),
        avg_photosynthesis: (total_photo as u64) / (count as u64),
        total_biomass: total_mass as u64,
    };
    history.snapshots.push(snap);
    if history.snapshots.len() > STATS_HISTORY_SIZE {
        let _oldest = history.snapshots.remove(0);
        proof {
            assert(history.snapshots@ =~= old(history).snapshots@.push(snap).skip(1));
        }
    }
}

} // verus!
