//! Plant entities: biological state, spatial structure, the growth-interval
//! accumulator, and the saturating fixed-point energy arithmetic every
//! component uses.

use vstd::prelude::*;
use crate::config::{AGE_CAP, ENERGY_CAP, ENERGY_MIN, FLOW_SAT, GROWTH_INTERVAL_MS, STARTING_ENERGY};
use crate::genetics::{GeneticLineage, Genome};
use crate::voxel::{VoxelPos, VoxelType, VoxelWorld};

verus! {

/// Energy after a gain, saturated at the upper machine bound.
pub open spec fn spec_energy_add(e: i64, gain: int) -> i64 {
    if e + gain > ENERGY_CAP {
        ENERGY_CAP
    } else {
        (e + gain) as i64
    }
}

/// Energy after a drain, saturated at the lower machine bound.
pub open spec fn spec_energy_sub(e: i64, drain: int) -> i64 {
    if e - drain < ENERGY_MIN {
        ENERGY_MIN
    } else {
        (e - drain) as i64
    }
}

/// Adds an energy gain, saturating at the upper bound.
pub fn energy_add(e: i64, gain: u64) -> (r: i64)
    requires
        ENERGY_MIN <= e <= ENERGY_CAP,
        gain <= FLOW_SAT,
    ensures
        r == spec_energy_add(e, gain as int),
        ENERGY_MIN <= r <= ENERGY_CAP,
        r >= e,
{
    let g = gain as i64;
    if e > ENERGY_CAP - g {
        ENERGY_CAP
    } else {
        e + g
    }
}

/// Subtracts an energy drain, saturating at the lower bound.
pub fn energy_sub(e: i64, drain: u64) -> (r: i64)
    requires
        ENERGY_MIN <= e <= ENERGY_CAP,
        drain <= FLOW_SAT,
    ensures
        r == spec_energy_sub(e, drain as int),
        ENERGY_MIN <= r <= ENERGY_CAP,
        r <= e,
{
    let d = drain as i64;
    if e < ENERGY_MIN + d {
        ENERGY_MIN
    } else {
        e - d
    }
}

/// Saturating drains compose additively.
pub proof fn lemma_energy_sub_chain(e: i64, a: int, b: int)
    requires
        a >= 0,
        b >= 0,
    ensures
        spec_energy_sub(spec_energy_sub(e, a), b) == spec_energy_sub(e, a + b),
{
}

/// Energy and life state of one plant. Energy is in thousandths of an
/// energy unit, age in milliseconds.
#[derive(Debug, Clone, Copy, PartialEq, Eq, Structural)]
pub struct PlantBiology {
    pub energy: i64,
    pub age: u64,
    pub is_alive: bool,
    pub total_mass: u32,
}

impl PlantBiology {
    /// Energy and age stay within their machine bounds.
    pub open spec fn wf(self) -> bool {
        &&& ENERGY_MIN <= self.energy <= ENERGY_CAP
        &&& self.age <= AGE_CAP
    }
}

impl Default for PlantBiology {
    /// A fresh plant: starting energy, age zero, alive, no recorded mass.
    fn default() -> (r: Self)
        ensures
            r.energy == STARTING_ENERGY,
            r.age == 0,
            r.is_alive,
            r.total_mass == 0,
            r.wf(),
    {
        PlantBiology { energy: STARTING_ENERGY, age: 0, is_alive: true, total_mass: 0 }
    }
}

/// The voxels one plant occupies. `voxel_positions` is the superset holding
/// root, stem, branch, leaf and root voxels; the other two lists index into
/// the same cells.
#[derive(Debug)]
pub struct PlantStructure {
    pub root_position: VoxelPos,
    pub voxel_positions: Vec<VoxelPos>,
    pub leaf_positions: Vec<VoxelPos>,
    pub root_positions: Vec<VoxelPos>,
}

impl PlantStructure {
    /// The position lists stay within the machine bound on plant mass.
    pub open spec fn wf(self) -> bool {
        &&& self.voxel_positions@.len() <= u32::MAX
        &&& self.leaf_positions@.len() <= self.voxel_positions@.len()
        &&& self.root_positions@.len() <= self.voxel_positions@.len()
    }

    /// A seed structure: the root cell is the only occupied voxel and the
    /// only root voxel; there are no leaves yet.
    pub fn new(root: VoxelPos) -> (r: Self)
        ensures
            r.root_position == root,
            r.voxel_positions@ =~= seq![root],
            r.leaf_positions@ =~= Seq::<VoxelPos>::empty(),
            r.root_positions@ =~= seq![root],
            r.wf(),
    {
        let mut voxel_positions: Vec<VoxelPos> = Vec::new();
        voxel_positions.push(root);
        let mut root_positions: Vec<VoxelPos> = Vec::new();
        root_positions.push(root);
        PlantStructure {
            root_position: root,
            voxel_positions,
            leaf_positions: Vec::new(),
            root_positions,
        }
    }
}

/// The per-plant growth interval accumulator: growth is attempted only on
/// the ticks in which the accumulated time crosses the interval.
#[derive(Debug, Clone, Copy, PartialEq, Eq, Structural)]
pub struct GrowthTimer {
    pub elapsed_ms: u32,
}

impl GrowthTimer {
    /// The accumulator stays below the interval.
    pub open spec fn wf(self) -> bool {
        self.elapsed_ms < GROWTH_INTERVAL_MS
    }

    /// Advances the accumulator; reports whether the interval elapsed, and
    /// wraps the remainder.
    pub fn tick(&mut self, dt: u32) -> (fired: bool)
        requires
            old(self).wf(),
            dt <= crate::config::DT_MAX_MS,
        ensures
            final(self).wf(),
            fired == (old(self).elapsed_ms + dt >= GROWTH_INTERVAL_MS),
            final(self).elapsed_ms == (old(self).elapsed_ms + dt) as int % GROWTH_INTERVAL_MS as int,
    {
        let acc: u32 = self.elapsed_ms + dt;
        self.elapsed_ms = acc % GROWTH_INTERVAL_MS;
        acc >= GROWTH_INTERVAL_MS
    }
}

impl Default for GrowthTimer {
    /// A fresh accumulator.
    fn default() -> (r: Self)
        ensures
            r.elapsed_ms == 0,
            r.wf(),
    {
        GrowthTimer { elapsed_ms: 0 }
    }
}

/// One plant entity: identity, genome, biological state, spatial structure,
/// lineage, and growth accumulator.
#[derive(Debug)]
pub struct Plant {
    pub id: u32,
    pub genome: Genome,
    pub biology: PlantBiology,
    pub structure: PlantStructure,
    pub lineage: GeneticLineage,
    pub growth_timer: GrowthTimer,
}

impl Plant {
    pub open spec fn wf(self) -> bool {
        &&& self.genome.wf()
        &&& self.biology.wf()
        &&& self.structure.wf()
        &&& self.growth_timer.wf()
    }

    /// The grid tag this plant writes into every cell it claims.
    pub open spec fn spec_tag(self) -> VoxelType {
        VoxelType::PlantMaterial { plant_id: self.id, species_id: self.lineage.species_id }
    }
}

/// Every cell this plant lists is an in-bounds grid cell of plant material
/// tagged with this plant's identity.
pub open spec fn plant_tags_grid(w: VoxelWorld, p: Plant) -> bool {
    forall|k: int|
        0 <= k < p.structure.voxel_positions@.len() ==> w.spec_in_bounds(
            #[trigger] p.structure.voxel_positions@[k],
        ) && w.spec_at(p.structure.voxel_positions@[k]).voxel_type == p.spec_tag()
}

/// Grid/population consistency: every plant's listed cells carry its own
/// tag, and plant identities are distinct. Together these imply that no two
/// plants claim the same cell.
pub open spec fn population_consistent(w: VoxelWorld, plants: Seq<Plant>) -> bool {
    &&& forall|i: int| 0 <= i < plants.len() ==> plant_tags_grid(w, #[trigger] plants[i])
    &&& forall|i: int, j: int|
        0 <= i < plants.len() && 0 <= j < plants.len() && i != j ==> (#[trigger] plants[i].id)
            != #[trigger] plants[j].id
}

/// A plant's tags survive any grid change that claims only cells that held
/// no plant material.
pub proof fn lemma_tags_preserved(w1: VoxelWorld, w2: VoxelWorld, p: Plant)
    requires
        plant_tags_grid(w1, p),
        w2.same_dims(w1),
        forall|q: VoxelPos|
            w1.spec_in_bounds(q) ==> #[trigger] w2.spec_at(q) == w1.spec_at(q) || !(w1.spec_at(
                q,
            ).voxel_type is PlantMaterial),
    ensures
        plant_tags_grid(w2, p),
{
    assert forall|k: int|
        0 <= k < p.structure.voxel_positions@.len() implies w2.spec_in_bounds(
        #[trigger] p.structure.voxel_positions@[k],
    ) && w2.spec_at(p.structure.voxel_positions@[k]).voxel_type == p.spec_tag() by {
        let pos = p.structure.voxel_positions@[k];
        assert(w1.spec_in_bounds(pos));
        assert(w1.spec_at(pos).voxel_type == p.spec_tag());
    }
}

/// Every plant identity lies below the allocator's next identity.
pub open spec fn ids_below(plants: Seq<Plant>, bound: u32) -> bool {
    forall|i: int| 0 <= i < plants.len() ==> (#[trigger] plants[i]).id < bound
}

/// Every species identity in the population lies below the species
/// allocator, so a freshly allocated species identity belongs to no living
/// plant. Vacuous once the allocator has saturated at its machine bound.
pub open spec fn species_ids_below(plants: Seq<Plant>, bound: u32) -> bool {
    bound == u32::MAX || forall|i: int|
        0 <= i < plants.len() ==> (#[trigger] plants[i]).lineage.species_id < bound
}

/// A plant's tags survive any grid change that rewrites only cells carrying
/// a different tag.
pub proof fn lemma_tags_preserved_foreign(w1: VoxelWorld, w2: VoxelWorld, p: Plant)
    requires
        plant_tags_grid(w1, p),
        w2.same_dims(w1),
        forall|q: VoxelPos|
            w1.spec_in_bounds(q) ==> #[trigger] w2.spec_at(q) == w1.spec_at(q) || w1.spec_at(
                q,
            ).voxel_type != p.spec_tag(),
    ensures
        plant_tags_grid(w2, p),
{
    assert forall|k: int|
        0 <= k < p.structure.voxel_positions@.len() implies w2.spec_in_bounds(
        #[trigger] p.structure.voxel_positions@[k],
    ) && w2.spec_at(p.structure.voxel_positions@[k]).voxel_type == p.spec_tag() by {
        let pos = p.structure.voxel_positions@[k];
        assert(w1.spec_in_bounds(pos));
        assert(w1.spec_at(pos).voxel_type == p.spec_tag());
    }
}

/// A plant's tags survive any grid change that keeps every cell's material.
pub proof fn lemma_tags_preserved_same_types(w1: VoxelWorld, w2: VoxelWorld, p: Plant)
    requires
        plant_tags_grid(w1, p),
        w2.same_dims(w1),
        forall|q: VoxelPos|
            w1.spec_in_bounds(q) ==> (#[trigger] w2.spec_at(q)).voxel_type == w1.spec_at(
                q,
            ).voxel_type,
    ensures
        plant_tags_grid(w2, p),
{
    assert forall|k: int|
        0 <= k < p.structure.voxel_positions@.len() implies w2.spec_in_bounds(
        #[trigger] p.structure.voxel_positions@[k],
    ) && w2.spec_at(p.structure.voxel_positions@[k]).voxel_type == p.spec_tag() by {
        let pos = p.structure.voxel_positions@[k];
        assert(w1.spec_in_bounds(pos));
        assert(w1.spec_at(pos).voxel_type == p.spec_tag());
    }
}

/// Tags depend only on a plant's cell list and identity: they carry over to
/// any plant sharing those.
pub proof fn lemma_tags_same_shape(w: VoxelWorld, p1: Plant, p2: Plant)
    requires
        plant_tags_grid(w, p1),
        p2.structure.voxel_positions@ == p1.structure.voxel_positions@,
        p2.id == p1.id,
        p2.lineage.species_id == p1.lineage.species_id,
    ensures
        plant_tags_grid(w, p2),
{
    assert forall|k: int|
        0 <= k < p2.structure.voxel_positions@.len() implies w.spec_in_bounds(
        #[trigger] p2.structure.voxel_positions@[k],
    ) && w.spec_at(p2.structure.voxel_positions@[k]).voxel_type == p2.spec_tag() by {
        assert(p2.structure.voxel_positions@[k] == p1.structure.voxel_positions@[k]);
        assert(w.spec_at(p1.structure.voxel_positions@[k]).voxel_type == p1.spec_tag());
    }
}

/// One plant's state during a tick only accretes: identity, genome and
/// lineage are fixed, the cell list only extends, age never goes back, and
/// death is one-way.
pub open spec fn plant_evolves(p1: Plant, p2: Plant) -> bool {
    &&& p2.id == p1.id
    &&& p2.genome == p1.genome
    &&& p2.lineage == p1.lineage
    &&& p2.structure.root_position == p1.structure.root_position
    &&& p1.structure.voxel_positions@.is_prefix_of(p2.structure.voxel_positions@)
    &&& p2.biology.age >= p1.biology.age
    &&& (p2.biology.is_alive ==> p1.biology.is_alive)
}

/// Sequence prefixes chain.
pub proof fn lemma_prefix_trans(a: Seq<VoxelPos>, b: Seq<VoxelPos>, c: Seq<VoxelPos>)
    requires
        a.is_prefix_of(b),
        b.is_prefix_of(c),
    ensures
        a.is_prefix_of(c),
{
    assert(a =~= c.subrange(0, a.len() as int)) by {
        assert forall|k: int| 0 <= k < a.len() implies a[k] == c.subrange(0, a.len() as int)[k] by {
            assert(a[k] == b.subrange(0, a.len() as int)[k]);
            assert(b[k] == c.subrange(0, b.len() as int)[k]);
        }
    }
}

/// Law: the accretion relation chains, so whatever holds of one tick's
/// phases holds of the tick.
pub proof fn lemma_plant_evolves_trans(p1: Plant, p2: Plant, p3: Plant)
    requires
        plant_evolves(p1, p2),
        plant_evolves(p2, p3),
    ensures
        plant_evolves(p1, p3),
{
    lemma_prefix_trans(
        p1.structure.voxel_positions@,
        p2.structure.voxel_positions@,
        p3.structure.voxel_positions@,
    );
}

/// Law: a living plant's cell list never shrinks and its age never goes
/// back — accretion spells out the monotone quantities.
pub proof fn lemma_evolution_is_monotone(p1: Plant, p2: Plant)
    requires
        plant_evolves(p1, p2),
    ensures
        p2.structure.voxel_positions@.len() >= p1.structure.voxel_positions@.len(),
        p2.biology.age >= p1.biology.age,
        !p1.biology.is_alive ==> !p2.biology.is_alive,
{
}

/// The accretion relation is reflexive.
pub proof fn lemma_plant_evolves_refl(p: Plant)
    ensures
        plant_evolves(p, p),
{
    assert(p.structure.voxel_positions@ =~= p.structure.voxel_positions@.subrange(
        0,
        p.structure.voxel_positions@.len() as int,
    ));
}

/// The converse consistency direction: every plant-material cell belongs
/// to the listed cells of a plant carrying exactly its tag, so no claimed
/// cell is orphaned.
pub open spec fn grid_covered(w: VoxelWorld, plants: Seq<Plant>) -> bool {
    forall|q: VoxelPos|
        w.spec_in_bounds(q) && (#[trigger] w.spec_at(q)).voxel_type is PlantMaterial
            ==> exists|i: int|
            0 <= i < plants.len() && (#[trigger] plants[i]).spec_tag() == w.spec_at(q).voxel_type
                && plants[i].structure.voxel_positions@.contains(q)
}

/// The species bound carries over to a population of equal lineages.
pub proof fn lemma_species_ids_same_lineage(s1: Seq<Plant>, s2: Seq<Plant>, bound: u32)
    requires
        species_ids_below(s1, bound),
        s2.len() == s1.len(),
        forall|i: int|
            0 <= i < s1.len() ==> (#[trigger] s2[i]).lineage.species_id
                == s1[i].lineage.species_id,
    ensures
        species_ids_below(s2, bound),
{
    if bound != u32::MAX {
        assert forall|i: int|
            0 <= i < s2.len() implies (#[trigger] s2[i]).lineage.species_id < bound by {
            assert(s1[i].lineage.species_id < bound);
        }
    }
}

/// A prefix keeps every element of the shorter list.
pub proof fn lemma_prefix_contains(a: Seq<VoxelPos>, b: Seq<VoxelPos>, q: VoxelPos)
    requires
        a.is_prefix_of(b),
        a.contains(q),
    ensures
        b.contains(q),
{
    let k = choose|k: int| 0 <= k < a.len() && a[k] == q;
    assert(a[k] == b.subrange(0, a.len() as int)[k]);
    assert(b[k] == q);
}

/// Coverage carries over to a grid with the same materials and a
/// population of the same shape (identities, species, and cell lists).
pub proof fn lemma_covered_same_shape(
    w1: VoxelWorld,
    w2: VoxelWorld,
    s1: Seq<Plant>,
    s2: Seq<Plant>,
)
    requires
        grid_covered(w1, s1),
        w2.same_dims(w1),
        forall|q: VoxelPos|
            w1.spec_in_bounds(q) ==> (#[trigger] w2.spec_at(q)).voxel_type == w1.spec_at(
                q,
            ).voxel_type,
        s2.len() == s1.len(),
        forall|i: int|
            0 <= i < s1.len() ==> (#[trigger] s2[i]).id == s1[i].id
                && s2[i].lineage.species_id == s1[i].lineage.species_id
                && s2[i].structure.voxel_positions@ == s1[i].structure.voxel_positions@,
    ensures
        grid_covered(w2, s2),
{
    assert forall|q: VoxelPos|
        w2.spec_in_bounds(q) && (#[trigger] w2.spec_at(q)).voxel_type is PlantMaterial implies exists|i: int|
        0 <= i < s2.len() && (#[trigger] s2[i]).spec_tag() == w2.spec_at(q).voxel_type
            && s2[i].structure.voxel_positions@.contains(q) by {
        assert(w1.spec_at(q).voxel_type is PlantMaterial);
        let i = choose|i: int|
            0 <= i < s1.len() && (#[trigger] s1[i]).spec_tag() == w1.spec_at(q).voxel_type
                && s1[i].structure.voxel_positions@.contains(q);
        assert(s2[i].spec_tag() == s1[i].spec_tag());
        assert(s2[i].structure.voxel_positions@.contains(q));
    }
}

/// Law: under consistency, no two living plants share a claimed cell — a
/// shared cell would have to carry both plants' distinct identities.
pub proof fn lemma_no_shared_cells(w: VoxelWorld, plants: Seq<Plant>, i: int, j: int, k: int, l: int)
    requires
        population_consistent(w, plants),
        0 <= i < plants.len(),
        0 <= j < plants.len(),
        i != j,
        0 <= k < plants[i].structure.voxel_positions@.len(),
        0 <= l < plants[j].structure.voxel_positions@.len(),
    ensures
        plants[i].structure.voxel_positions@[k] != plants[j].structure.voxel_positions@[l],
{
    let p = plants[i].structure.voxel_positions@[k];
    let q = plants[j].structure.voxel_positions@[l];
    assert(w.spec_at(p).voxel_type == plants[i].spec_tag());
    assert(w.spec_at(q).voxel_type == plants[j].spec_tag());
    assert(plants[i].id != plants[j].id);
}

/// Law: a claimed cell has exactly one owner. Existence comes from
/// `grid_covered`; here, two plants listing the same cell must be the same
/// plant.
pub proof fn lemma_cell_owner_unique(
    w: VoxelWorld,
    plants: Seq<Plant>,
    q: VoxelPos,
    i: int,
    j: int,
)
    requires
        population_consistent(w, plants),
        0 <= i < plants.len(),
        0 <= j < plants.len(),
        plants[i].structure.voxel_positions@.contains(q),
        plants[j].structure.voxel_positions@.contains(q),
    ensures
        i == j,
{
    if i != j {
        let ki = choose|k: int|
            0 <= k < plants[i].structure.voxel_positions@.len()
                && plants[i].structure.voxel_positions@[k] == q;
        let kj = choose|k: int|
            0 <= k < plants[j].structure.voxel_positions@.len()
                && plants[j].structure.voxel_positions@[k] == q;
        lemma_no_shared_cells(w, plants, i, j, ki, kj);
    }
}

} // verus!
