//! Reproduction and speciation: energy-gated seeding within a dispersal
//! radius, offspring genomes by mutation, species assignment by genetic
//! distance against the parent, and reclamation of dead plants.

use vstd::prelude::*;
use crate::config::{
    REPRODUCTION_ENERGY_COST, SCALE, SEED_DISPERSAL_RANGE, SEED_SITE_ATTEMPTS,
    SPECIES_DIVERGENCE_THRESHOLD, STARTING_ENERGY,
};
use crate::genetics::{GeneticLineage, Genome};
use crate::plant::{
    energy_sub, grid_covered, ids_below, lemma_covered_same_shape, lemma_tags_preserved_foreign,
    plant_tags_grid, population_consistent, species_ids_below, spec_energy_sub, GrowthTimer, Plant,
    PlantBiology, PlantStructure,
};
use crate::rng::rng_below;
use crate::voxel::{Voxel, VoxelPos, VoxelType, VoxelWorld};

verus! {

/// The decoded reproduction threshold of a genome, in thousandths of an
/// energy unit.
pub open spec fn spec_reproduction_threshold(g: Genome) -> int {
    50_000 + g.reproduction_threshold.value * 450_000 / 1000
}

/// Hands out the next unused species identity; only reproduction advances
/// it.
#[derive(Debug, Clone, Copy, PartialEq, Eq, Structural)]
pub struct SpeciesCounter {
    pub next_id: u32,
}

impl Default for SpeciesCounter {
    fn default() -> (r: Self)
        ensures
            r.next_id == 0,
    {
        SpeciesCounter { next_id: 0 }
    }
}

/// The species of an offspring at the given genetic distance from its
/// parent: past the divergence threshold it founds a new species and the
/// counter advances (to its machine bound at most); otherwise it inherits
/// the parent's species.
pub fn classify_offspring_species(
    parent_species: u32,
    distance: u32,
    counter: &mut SpeciesCounter,
) -> (r: u32)
    ensures
        distance > SPECIES_DIVERGENCE_THRESHOLD ==> r == old(counter).next_id
            && final(counter).next_id == (if old(counter).next_id < u32::MAX {
            old(counter).next_id + 1
        } else {
            old(counter).next_id as int
        }),
        distance <= SPECIES_DIVERGENCE_THRESHOLD ==> r == parent_species
            && *final(counter) == *old(counter),
        final(counter).next_id >= old(counter).next_id,
{
    if distance > SPECIES_DIVERGENCE_THRESHOLD {
        let id = counter.next_id;
        if counter.next_id < u32::MAX {
            counter.next_id = counter.next_id + 1;
        }
        id
    } else {
        parent_species
    }
}

/// A seed site is valid when it is an in-bounds soil cell with an in-bounds
/// air cell directly above it.
pub open spec fn spec_valid_seed(w: VoxelWorld, pos: VoxelPos) -> bool {
    &&& w.spec_in_bounds(pos)
    &&& w.spec_at(pos).voxel_type is Soil
    &&& w.spec_in_bounds(VoxelPos { x: pos.x, y: (pos.y + 1) as i32, z: pos.z })
    &&& w.spec_at(VoxelPos { x: pos.x, y: (pos.y + 1) as i32, z: pos.z }).voxel_type is Air
}

/// True exactly when `pos` is a valid seed site.
pub fn is_valid_seed_position(pos: &VoxelPos, world: &VoxelWorld) -> (r: bool)
    requires
        world.wf(),
    ensures
        r == spec_valid_seed(*world, *pos),
{
    match world.get(pos) {
        Some(v) => {
            if !matches!(v.voxel_type, VoxelType::Soil) {
                return false;
            }
            let above = VoxelPos { x: pos.x, y: pos.y + 1, z: pos.z };
            match world.get(&above) {
                Some(va) => va.voxel_type.is_air(),
                None => false,
            }
        },
        None => false,
    }
}

/// Searches up to the attempt budget of uniformly random positions within
/// the horizontal dispersal radius of `parent_pos` for a valid seed site.
/// Failure costs the attempt; it is not an error.
pub fn find_seed_position(
    parent_pos: &VoxelPos,
    world: &VoxelWorld,
    rng: &mut rand::rngs::ThreadRng,
) -> (r: Option<VoxelPos>)
    requires
        world.wf(),
    ensures
        match r {
            Some(pos) => {
                &&& spec_valid_seed(*world, pos)
                &&& pos.y == parent_pos.y
                &&& parent_pos.x - SEED_DISPERSAL_RANGE <= pos.x <= parent_pos.x
                    + SEED_DISPERSAL_RANGE
                &&& parent_pos.z - SEED_DISPERSAL_RANGE <= pos.z <= parent_pos.z
                    + SEED_DISPERSAL_RANGE
            },
            None => true,
        },
{
    let span: u32 = (2 * SEED_DISPERSAL_RANGE + 1) as u32;
    let mut attempt: u32 = 0;
    while attempt < SEED_SITE_ATTEMPTS
        invariant
            world.wf(),
            span == 2 * SEED_DISPERSAL_RANGE + 1,
        decreases SEED_SITE_ATTEMPTS - attempt,
    {
        let offset_x: i64 = (rng_below(rng, span) as i64) - (SEED_DISPERSAL_RANGE as i64);
        let offset_z: i64 = (rng_below(rng, span) as i64) - (SEED_DISPERSAL_RANGE as i64);
        let cx: i64 = (parent_pos.x as i64) + offset_x;
        let cz: i64 = (parent_pos.z as i64) + offset_z;
        if (i32::MIN as i64) <= cx && cx <= (i32::MAX as i64) && (i32::MIN as i64) <= cz && cz
            <= (i32::MAX as i64) {
            let candidate = VoxelPos { x: cx as i32, y: parent_pos.y, z: cz as i32 };
            if is_valid_seed_position(&candidate, world) {
                return Some(candidate);
            }
        }
        attempt = attempt + 1;
    }
    None
}

/// Spawns a plant at a soil cell: the new entity takes the next plant
/// identity, default biology, a fresh growth accumulator, and a structure
/// holding only the root cell, which is claimed in the grid under the new
/// plant's tag.
pub fn spawn_plant(
    plants: &mut Vec<Plant>,
    world: &mut VoxelWorld,
    next_plant_id: &mut u32,
    root_pos: VoxelPos,
    genome: Genome,
    generation: u32,
    parent_id: Option<u32>,
    species_id: u32,
)
    requires
        old(world).wf(),
        old(world).env_ok(),
        old(world).spec_in_bounds(root_pos),
        old(world).spec_at(root_pos).voxel_type is Soil,
        genome.wf(),
        *old(next_plant_id) < u32::MAX,
        population_consistent(*old(world), old(plants)@),
        grid_covered(*old(world), old(plants)@),
        ids_below(old(plants)@, *old(next_plant_id)),
        forall|i: int| 0 <= i < old(plants)@.len() ==> (#[trigger] old(plants)@[i]).wf(),
    ensures
        final(world).wf(),
        final(world).env_ok(),
        final(world).same_dims(*old(world)),
        *final(next_plant_id) == *old(next_plant_id) + 1,
        final(plants)@.len() == old(plants)@.len() + 1,
        forall|i: int| 0 <= i < old(plants)@.len() ==> #[trigger] final(plants)@[i] == old(plants)@[i],
        population_consistent(*final(world), final(plants)@),
        grid_covered(*final(world), final(plants)@),
        ids_below(final(plants)@, *final(next_plant_id)),
        forall|i: int| 0 <= i < final(plants)@.len() ==> (#[trigger] final(plants)@[i]).wf(),
        ({
            let p = final(plants)@.last();
            &&& p.id == *old(next_plant_id)
            &&& p.genome == genome
            &&& p.biology.energy == STARTING_ENERGY
            &&& p.biology.age == 0
            &&& p.biology.is_alive
            &&& p.biology.total_mass == 0
            &&& p.structure.root_position == root_pos
            &&& p.structure.voxel_positions@ =~= seq![root_pos]
            &&& p.structure.root_positions@ =~= seq![root_pos]
            &&& p.structure.leaf_positions@ =~= Seq::<VoxelPos>::empty()
            &&& p.growth_timer.elapsed_ms == 0
            &&& p.lineage == (GeneticLineage { generation, parent_id, species_id })
        }),
        forall|q: VoxelPos|
            old(world).spec_in_bounds(q) && q != root_pos ==> #[trigger] final(world).spec_at(q)
                == old(world).spec_at(q),
        final(world).spec_at(root_pos).voxel_type == (VoxelType::PlantMaterial {
            plant_id: *old(next_plant_id),
            species_id,
        }),
        final(world).spec_at(root_pos).environment == old(world).spec_at(root_pos).environment,
{
    let id: u32 = *next_plant_id;
    *next_plant_id = id + 1;
    let plant = Plant {
        id,
        genome,
        biology: PlantBiology::default(),
        structure: PlantStructure::new(root_pos),
        lineage: GeneticLineage { generation, parent_id, species_id },
        growth_timer: GrowthTimer::default(),
    };
    let cell: Voxel = match world.get(&root_pos) {
        Some(c) => *c,
        None => unreached(),
    };
    let ghost wpre = *world;
    world.set_voxel(
        &root_pos,
        Voxel {
            voxel_type: VoxelType::PlantMaterial { plant_id: id, species_id },
            environment: cell.environment,
        },
    );
    let ghost plants0 = plants@;
    plants.push(plant);
    proof {
        wpre.lemma_index_of(root_pos);
        assert forall|j: int|
            0 <= j < world.voxels@.len() implies (
        #[trigger] world.voxels@[j]).environment.in_range() by {
            if j != wpre.spec_index_of(root_pos) {
                assert(world.voxels@[j] == wpre.voxels@[j]);
            }
        }
        assert forall|i: int| 0 <= i < plants@.len() implies plant_tags_grid(
            *world,
            #[trigger] plants@[i],
        ) by {
            if i < plants0.len() {
                assert(plants@[i] == plants0[i]);
                assert(plant_tags_grid(wpre, plants0[i]));
                lemma_tags_preserved_foreign(wpre, *world, plants0[i]);
            } else {
                assert(plants@[i] == plant);
                assert(plant.structure.voxel_positions@ =~= seq![root_pos]);
            }
        }
        assert forall|q: VoxelPos|
            world.spec_in_bounds(q) && (#[trigger] world.spec_at(
                q,
            )).voxel_type is PlantMaterial implies exists|i: int|
            0 <= i < plants@.len() && (#[trigger] plants@[i]).spec_tag() == world.spec_at(
                q,
            ).voxel_type && plants@[i].structure.voxel_positions@.contains(q) by {
            if q == root_pos {
                let i = plants0.len() as int;
                assert(plants@[i] == plant);
                assert(plant.structure.voxel_positions@.contains(q)) by {
                    assert(plant.structure.voxel_positions@[0] == root_pos);
                }
                assert(plants@[i].spec_tag() == world.spec_at(q).voxel_type);
            } else {
                assert(world.spec_at(q) == wpre.spec_at(q));
                let i = choose|i: int|
                    0 <= i < plants0.len() && (#[trigger] plants0[i]).spec_tag() == wpre.spec_at(
                        q,
                    ).voxel_type && plants0[i].structure.voxel_positions@.contains(q);
                assert(plants@[i] == plants0[i]);
            }
        }
    }
}

/// One offspring waiting to be instantiated after the scan.
struct Seed {
    pos: VoxelPos,
    genome: Genome,
    generation: u32,
    parent_id: Option<u32>,
    species_id: u32,
}

/// The reproduction pass. Phase one scans the living population: a plant
/// whose energy reaches its genome's threshold pays the fixed cost, looks
/// for a seed site, derives an offspring genome by mutation and classifies
/// its species by genetic distance. Phase two instantiates the collected
/// offspring, re-validating each site against the live grid so that no two
/// seeds claim one cell.
pub fn reproduction_system(
    plants: &mut Vec<Plant>,
    world: &mut VoxelWorld,
    species_counter: &mut SpeciesCounter,
    next_plant_id: &mut u32,
    rng: &mut rand::rngs::ThreadRng,
)
    requires
        forall|i: int| 0 <= i < old(plants)@.len() ==> (#[trigger] old(plants)@[i]).wf(),
        old(world).wf(),
        old(world).env_ok(),
        population_consistent(*old(world), old(plants)@),
        grid_covered(*old(world), old(plants)@),
        ids_below(old(plants)@, *old(next_plant_id)),
        species_ids_below(old(plants)@, old(species_counter).next_id),
    ensures
        final(plants)@.len() >= old(plants)@.len(),
        forall|i: int| 0 <= i < final(plants)@.len() ==> (#[trigger] final(plants)@[i]).wf(),
        final(world).wf(),
        final(world).env_ok(),
        final(world).same_dims(*old(world)),
        population_consistent(*final(world), final(plants)@),
        grid_covered(*final(world), final(plants)@),
        ids_below(final(plants)@, *final(next_plant_id)),
        species_ids_below(final(plants)@, final(species_counter).next_id),
        *final(next_plant_id) >= *old(next_plant_id),
        final(species_counter).next_id >= old(species_counter).next_id,
        forall|i: int|
            0 <= i < old(plants)@.len() ==> {
                let p1 = old(plants)@[i];
                let p2 = #[trigger] final(plants)@[i];
                &&& p2.id == p1.id
                &&& p2.genome == p1.genome
                &&& p2.lineage == p1.lineage
                &&& p2.structure == p1.structure
                &&& p2.growth_timer == p1.growth_timer
                &&& p2.biology.is_alive == p1.biology.is_alive
                &&& p2.biology.age == p1.biology.age
                &&& p2.biology.total_mass == p1.biology.total_mass
                &&& p2.biology.energy == (if p1.biology.is_alive && p1.biology.energy
                    >= spec_reproduction_threshold(p1.genome) {
                    spec_energy_sub(p1.biology.energy, REPRODUCTION_ENERGY_COST as int)
                } else {
                    p1.biology.energy
                })
            },
        forall|i: int|
            0 <= i < old(plants)@.len() && !old(plants)@[i].biology.is_alive
                ==> #[trigger] final(plants)@[i] == old(plants)@[i],
        forall|i: int|
            old(plants)@.len() <= i < final(plants)@.len() ==> {
                let p = #[trigger] final(plants)@[i];
                &&& p.biology.is_alive
                &&& p.biology.energy == STARTING_ENERGY
                &&& p.biology.age == 0
                &&& p.biology.total_mass == 0
                &&& p.growth_timer.elapsed_ms == 0
                &&& p.id >= *old(next_plant_id)
                &&& (p.lineage.parent_id matches Some(pid) && (exists|j: int|
                    0 <= j < old(plants)@.len() && (#[trigger] old(plants)@[j]).id == pid && old(
                        plants,
                    )@[j].biology.is_alive && (p.lineage.species_id == old(
                        plants,
                    )@[j].lineage.species_id || (old(species_counter).next_id
                        <= p.lineage.species_id && (p.lineage.species_id
                        < final(species_counter).next_id || final(species_counter).next_id
                        == u32::MAX))) && p.lineage.generation == (if old(
                        plants,
                    )@[j].lineage.generation < u32::MAX {
                        old(plants)@[j].lineage.generation + 1
                    } else {
                        old(plants)@[j].lineage.generation as int
                    })))
            },
        forall|q: VoxelPos|
            old(world).spec_in_bounds(q) ==> #[trigger] final(world).spec_at(q) == old(
                world,
            ).spec_at(q) || (old(world).spec_at(q).voxel_type is Soil && final(world).spec_at(
                q,
            ).voxel_type is PlantMaterial && final(world).spec_at(q).environment == old(
                world,
            ).spec_at(q).environment),
{
    let mut seeds: Vec<Seed> = Vec::new();
    let n = plants.len();
    let mut i: usize = 0;
    while i < n
        invariant
            n == old(plants)@.len(),
            plants@.len() == n,
            i <= n,
            world.wf(),
            world.env_ok(),
            *world == *old(world),
            population_consistent(*world, plants@),
            grid_covered(*world, plants@),
            ids_below(plants@, *next_plant_id),
            *next_plant_id == *old(next_plant_id),
            species_counter.next_id >= old(species_counter).next_id,
            species_ids_below(plants@, species_counter.next_id),
            forall|j: int| 0 <= j < n ==> (#[trigger] plants@[j]).wf(),
            forall|j: int| i <= j < n ==> #[trigger] plants@[j] == old(plants)@[j],
            forall|j: int|
                0 <= j < n ==> {
                    let p1 = old(plants)@[j];
                    let p2 = #[trigger] plants@[j];
                    &&& p2.id == p1.id
                    &&& p2.genome == p1.genome
                    &&& p2.lineage == p1.lineage
                    &&& p2.structure == p1.structure
                    &&& p2.growth_timer == p1.growth_timer
                    &&& p2.biology.is_alive == p1.biology.is_alive
                    &&& p2.biology.age == p1.biology.age
                    &&& p2.biology.total_mass == p1.biology.total_mass
                    &&& (j < i ==> p2.biology.energy == (if p1.biology.is_alive
                        && p1.biology.energy >= spec_reproduction_threshold(p1.genome) {
                        spec_energy_sub(p1.biology.energy, REPRODUCTION_ENERGY_COST as int)
                    } else {
                        p1.biology.energy
                    }))
                },
            forall|j: int|
                0 <= j < n && !old(plants)@[j].biology.is_alive ==> #[trigger] plants@[j] == old(
                    plants,
                )@[j],
            forall|k: int|
                0 <= k < seeds@.len() ==> {
                    let sd = #[trigger] seeds@[k];
                    &&& sd.genome.wf()
                    &&& (sd.parent_id matches Some(pid) && (exists|j: int|
                        0 <= j < n && (#[trigger] old(plants)@[j]).id == pid && old(
                            plants,
                        )@[j].biology.is_alive && (sd.species_id == old(
                            plants,
                        )@[j].lineage.species_id || (old(species_counter).next_id <= sd.species_id
                            && (sd.species_id < species_counter.next_id || species_counter.next_id
                            == u32::MAX))) && sd.generation == (if old(
                            plants,
                        )@[j].lineage.generation < u32::MAX {
                            old(plants)@[j].lineage.generation + 1
                        } else {
                            old(plants)@[j].lineage.generation as int
                        })))
                },
        decreases n - i,
    {
        let ghost plants_pre = plants@;
        let alive = plants[i].biology.is_alive;
        let threshold: i64 = plants[i].genome.get_reproduction_threshold();
        if alive && plants[i].biology.energy >= threshold {
            let parent_genome: Genome = plants[i].genome;
            let parent_species: u32 = plants[i].lineage.species_id;
            let parent_generation: u32 = plants[i].lineage.generation;
            let parent_plant_id: u32 = plants[i].id;
            let root: VoxelPos = plants[i].structure.root_position;
            {
                let p = &mut plants[i];
                p.biology.energy = energy_sub(p.biology.energy, REPRODUCTION_ENERGY_COST as u64);
            }
            proof {
                assert forall|j: int| 0 <= j < plants@.len() implies plant_tags_grid(
                    *world,
                    #[trigger] plants@[j],
                ) by {
                    if j == i {
                        assert(plants@[j].structure == plants_pre[j].structure);
                        assert(plants@[j].spec_tag() == plants_pre[j].spec_tag());
                        assert(plant_tags_grid(*world, plants_pre[j]));
                    } else {
                        assert(plants@[j] == plants_pre[j]);
                    }
                }
                lemma_covered_same_shape(*world, *world, plants_pre, plants@);
            }
            match find_seed_position(&root, world, rng) {
                Some(seed_pos) => {
                    let offspring_genome = parent_genome.reproduce(rng);
                    let genetic_distance = parent_genome.distance(&offspring_genome);
                    let offspring_species = classify_offspring_species(
                        parent_species,
                        genetic_distance,
                        species_counter,
                    );
                    let generation: u32 = if parent_generation < u32::MAX {
                        parent_generation + 1
                    } else {
                        parent_generation
                    };
                    seeds.push(
                        Seed {
                            pos: seed_pos,
                            genome: offspring_genome,
                            generation,
                            parent_id: Some(parent_plant_id),
                            species_id: offspring_species,
                        },
                    );
                },
                None => {},
            }
        }
        i = i + 1;
    }
    let ghost counter1 = *species_counter;
    let m = seeds.len();
    let mut k: usize = 0;
    while k < m
        invariant
            m == seeds@.len(),
            k <= m,
            n == old(plants)@.len(),
            plants@.len() >= n,
            *species_counter == counter1,
            species_ids_below(plants@, species_counter.next_id),
            species_ids_below(old(plants)@, old(species_counter).next_id),
            world.wf(),
            world.env_ok(),
            world.same_dims(*old(world)),
            population_consistent(*world, plants@),
            grid_covered(*world, plants@),
            ids_below(plants@, *next_plant_id),
            *next_plant_id >= *old(next_plant_id),
            species_counter.next_id >= old(species_counter).next_id,
            forall|j: int| 0 <= j < plants@.len() ==> (#[trigger] plants@[j]).wf(),
            forall|j: int|
                0 <= j < seeds@.len() ==> {
                    let sd = #[trigger] seeds@[j];
                    &&& sd.genome.wf()
                    &&& (sd.parent_id matches Some(pid) && (exists|jj: int|
                        0 <= jj < n && (#[trigger] old(plants)@[jj]).id == pid && old(
                            plants,
                        )@[jj].biology.is_alive && (sd.species_id == old(
                            plants,
                        )@[jj].lineage.species_id || (old(species_counter).next_id <= sd.species_id
                            && (sd.species_id < species_counter.next_id || species_counter.next_id
                            == u32::MAX))) && sd.generation == (if old(
                            plants,
                        )@[jj].lineage.generation < u32::MAX {
                            old(plants)@[jj].lineage.generation + 1
                        } else {
                            old(plants)@[jj].lineage.generation as int
                        })))
                },
            forall|j: int|
                0 <= j < n ==> {
                    let p1 = old(plants)@[j];
                    let p2 = #[trigger] plants@[j];
                    &&& p2.id == p1.id
                    &&& p2.genome == p1.genome
                    &&& p2.lineage == p1.lineage
                    &&& p2.structure == p1.structure
                    &&& p2.growth_timer == p1.growth_timer
                    &&& p2.biology.is_alive == p1.biology.is_alive
                    &&& p2.biology.age == p1.biology.age
                    &&& p2.biology.total_mass == p1.biology.total_mass
                    &&& p2.biology.energy == (if p1.biology.is_alive && p1.biology.energy
                        >= spec_reproduction_threshold(p1.genome) {
                        spec_energy_sub(p1.biology.energy, REPRODUCTION_ENERGY_COST as int)
                    } else {
                        p1.biology.energy
                    })
                },
            forall|j: int|
                0 <= j < n && !old(plants)@[j].biology.is_alive ==> #[trigger] plants@[j] == old(
                    plants,
                )@[j],
            forall|j: int|
                n <= j < plants@.len() ==> {
                    let p = #[trigger] plants@[j];
                    &&& p.biology.is_alive
                    &&& p.biology.energy == STARTING_ENERGY
                    &&& p.biology.age == 0
                    &&& p.biology.total_mass == 0
                    &&& p.growth_timer.elapsed_ms == 0
                    &&& p.id >= *old(next_plant_id)
                    &&& (p.lineage.parent_id matches Some(pid) && (exists|jj: int|
                        0 <= jj < n && (#[trigger] old(plants)@[jj]).id == pid && old(
                            plants,
                        )@[jj].biology.is_alive && (p.lineage.species_id == old(
                            plants,
                        )@[jj].lineage.species_id || (old(species_counter).next_id
                            <= p.lineage.species_id && (p.lineage.species_id
                            < species_counter.next_id || species_counter.next_id == u32::MAX)))
                            && p.lineage.generation == (if old(
                            plants,
                        )@[jj].lineage.generation < u32::MAX {
                            old(plants)@[jj].lineage.generation + 1
                        } else {
                            old(plants)@[jj].lineage.generation as int
                        })))
                },
            forall|q: VoxelPos|
                old(world).spec_in_bounds(q) ==> #[trigger] world.spec_at(q) == old(world).spec_at(
                    q,
                ) || (old(world).spec_at(q).voxel_type is Soil && world.spec_at(
                    q,
                ).voxel_type is PlantMaterial && world.spec_at(q).environment == old(
                    world,
                ).spec_at(q).environment),
        decreases m - k,
    {
        let ghost wmid = *world;
        let ghost plants_mid = plants@;
        let pos: VoxelPos = seeds[k].pos;
        if is_valid_seed_position(&pos, world) && *next_plant_id < u32::MAX {
            let genome: Genome = seeds[k].genome;
            let generation: u32 = seeds[k].generation;
            let parent_id: Option<u32> = seeds[k].parent_id;
            let species_id: u32 = seeds[k].species_id;
            spawn_plant(plants, world, next_plant_id, pos, genome, generation, parent_id, species_id);
            proof {
                assert(species_ids_below(plants@, species_counter.next_id)) by {
                    if species_counter.next_id != u32::MAX {
                        assert forall|j2: int|
                            0 <= j2 < plants@.len() implies (
                        #[trigger] plants@[j2]).lineage.species_id < species_counter.next_id by {
                            if j2 < plants_mid.len() {
                                assert(plants@[j2] == plants_mid[j2]);
                            } else {
                                assert(plants@[j2] == plants@.last());
                                assert(plants@[j2].lineage.species_id == species_id);
                                assert(species_id == seeds@[k as int].species_id);
                                let sd = seeds@[k as int];
                                let jj = choose|jj: int|
                                    0 <= jj < n && (#[trigger] old(plants)@[jj]).id
                                        == sd.parent_id->Some_0 && old(
                                        plants,
                                    )@[jj].biology.is_alive && (sd.species_id == old(
                                        plants,
                                    )@[jj].lineage.species_id || (old(
                                        species_counter,
                                    ).next_id <= sd.species_id && (sd.species_id
                                        < species_counter.next_id || species_counter.next_id
                                        == u32::MAX))) && sd.generation == (if old(
                                        plants,
                                    )@[jj].lineage.generation < u32::MAX {
                                        old(plants)@[jj].lineage.generation + 1
                                    } else {
                                        old(plants)@[jj].lineage.generation as int
                                    });
                                if sd.species_id == old(plants)@[jj].lineage.species_id {
                                    assert(old(species_counter).next_id != u32::MAX);
                                    assert(old(plants)@[jj].lineage.species_id < old(
                                        species_counter,
                                    ).next_id);
                                }
                            }
                        }
                    }
                }
            }
            proof {
                assert forall|q: VoxelPos|
                    old(world).spec_in_bounds(q) implies #[trigger] world.spec_at(q) == old(
                    world,
                ).spec_at(q) || (old(world).spec_at(q).voxel_type is Soil && world.spec_at(
                    q,
                ).voxel_type is PlantMaterial && world.spec_at(q).environment == old(
                    world,
                ).spec_at(q).environment) by {
                    if q != pos {
                        assert(world.spec_at(q) == wmid.spec_at(q));
                    } else {
                        assert(wmid.spec_at(q).voxel_type is Soil);
                    }
                }
            }
        }
        k = k + 1;
    }
}

/// Removes every dead plant: its cells decompose back to soil, keeping
/// their stored environment, and the entity leaves the population. Living
/// plants and their cells are untouched.
pub fn cleanup_dead_plants_system(plants: &mut Vec<Plant>, world: &mut VoxelWorld)
    requires
        forall|i: int| 0 <= i < old(plants)@.len() ==> (#[trigger] old(plants)@[i]).wf(),
        old(world).wf(),
        old(world).env_ok(),
        population_consistent(*old(world), old(plants)@),
        grid_covered(*old(world), old(plants)@),
    ensures
        final(plants)@ == old(plants)@.filter(|p: Plant| p.biology.is_alive),
        forall|i: int| 0 <= i < final(plants)@.len() ==> (#[trigger] final(plants)@[i]).wf(),
        forall|i: int|
            0 <= i < final(plants)@.len() ==> (#[trigger] final(plants)@[i]).biology.is_alive,
        forall|j: int|
            0 <= j < final(plants)@.len() ==> old(plants)@.contains(#[trigger] final(plants)@[j]),
        final(world).wf(),
        final(world).env_ok(),
        final(world).same_dims(*old(world)),
        population_consistent(*final(world), final(plants)@),
        grid_covered(*final(world), final(plants)@),
        forall|q: VoxelPos|
            old(world).spec_in_bounds(q) ==> #[trigger] final(world).spec_at(q) == old(
                world,
            ).spec_at(q) || (old(world).spec_at(q).voxel_type is PlantMaterial
                && final(world).spec_at(q).voxel_type is Soil
                && final(world).spec_at(q).environment == old(world).spec_at(q).environment),
{
    broadcast use Seq::<Plant>::lemma_filter_push;

    let ghost plants0 = old(plants)@;
    let ghost alive_pred = |p: Plant| p.biology.is_alive;
    let n = plants.len();
    let mut survivors: Vec<Plant> = Vec::new();
    let mut i: usize = 0;
    proof {
        assert(plants0.take(0).filter(alive_pred) =~= Seq::<Plant>::empty()) by {
            plants0.take(0).filter_lemma(alive_pred);
        }
    }
    while i < n
        invariant
            n == plants0.len(),
            i <= n,
            plants@ == plants0.skip(i as int),
            world.wf(),
            world.env_ok(),
            world.same_dims(*old(world)),
            survivors@ == plants0.take(i as int).filter(alive_pred),
            alive_pred == (|p: Plant| p.biology.is_alive),
            forall|j: int| 0 <= j < n ==> (#[trigger] plants0[j]).wf(),
            population_consistent(*old(world), plants0),
            forall|q: VoxelPos|
                old(world).spec_in_bounds(q) ==> #[trigger] world.spec_at(q) == old(world).spec_at(
                    q,
                ) || (old(world).spec_at(q).voxel_type is PlantMaterial && world.spec_at(
                    q,
                ).voxel_type is Soil && world.spec_at(q).environment == old(world).spec_at(
                    q,
                ).environment),
            forall|j: int, q: VoxelPos|
                #![trigger plants0[j].spec_tag(), world.spec_at(q)]
                0 <= j < plants0.len() && plants0[j].biology.is_alive && old(world).spec_in_bounds(
                    q,
                ) && old(world).spec_at(q).voxel_type == plants0[j].spec_tag()
                    ==> world.spec_at(q) == old(world).spec_at(q),
            forall|q: VoxelPos|
                #![trigger world.spec_at(q)]
                old(world).spec_in_bounds(q) && world.spec_at(q).voxel_type is PlantMaterial
                    ==> exists|j: int|
                    0 <= j < plants0.len() && (plants0[j].biology.is_alive || j >= i) && (
                    #[trigger] plants0[j]).spec_tag() == world.spec_at(q).voxel_type
                        && plants0[j].structure.voxel_positions@.contains(q),
        decreases n - i,
    {
        let p: Plant = plants.remove(0);
        proof {
            assert(p == plants0[i as int]);
            assert(plants@ =~= plants0.skip(i + 1));
            assert(plants0.take(i + 1).drop_last() =~= plants0.take(i as int));
        }
        if p.biology.is_alive {
            survivors.push(p);
            proof {
                assert(plants0.take(i + 1) =~= plants0.take(i as int).push(plants0[i as int]));
                plants0.take(i as int).lemma_filter_push(plants0[i as int], alive_pred);
                assert forall|q: VoxelPos|
                    old(world).spec_in_bounds(q) && (#[trigger] world.spec_at(
                        q,
                    )).voxel_type is PlantMaterial implies exists|j: int|
                    0 <= j < plants0.len() && (plants0[j].biology.is_alive || j >= i + 1) && (
                    #[trigger] plants0[j]).spec_tag() == world.spec_at(q).voxel_type
                        && plants0[j].structure.voxel_positions@.contains(q) by {
                    let j = choose|j: int|
                        0 <= j < plants0.len() && (plants0[j].biology.is_alive || j >= i as int)
                            && (#[trigger] plants0[j]).spec_tag() == world.spec_at(q).voxel_type
                            && plants0[j].structure.voxel_positions@.contains(q);
                    if !(plants0[j].biology.is_alive || j >= i + 1) {
                        assert(j == i as int);
                        assert(plants0[j].biology.is_alive);
                    }
                }
            }
        } else {
            // Decompose this plant's cells back to soil.
            let ghost dead = plants0[i as int];
            let cells_len = p.structure.voxel_positions.len();
            let mut c: usize = 0;
            while c < cells_len
                invariant
                    n == plants0.len(),
                    0 <= i < n,
                    p == plants0[i as int],
                    dead == plants0[i as int],
                    !dead.biology.is_alive,
                    cells_len == dead.structure.voxel_positions@.len(),
                    c <= cells_len,
                    world.wf(),
                    world.env_ok(),
                    world.same_dims(*old(world)),
                    forall|k: int|
                        0 <= k < c ==> world.spec_at(
                            #[trigger] dead.structure.voxel_positions@[k],
                        ).voxel_type is Soil,
                    forall|q: VoxelPos|
                        #![trigger world.spec_at(q)]
                        old(world).spec_in_bounds(q) && world.spec_at(
                            q,
                        ).voxel_type is PlantMaterial ==> exists|j: int|
                            0 <= j < plants0.len() && (plants0[j].biology.is_alive || j >= i) && (
                            #[trigger] plants0[j]).spec_tag() == world.spec_at(q).voxel_type
                                && plants0[j].structure.voxel_positions@.contains(q),
                    forall|j: int| 0 <= j < n ==> (#[trigger] plants0[j]).wf(),
                    population_consistent(*old(world), plants0),
                    forall|q: VoxelPos|
                        old(world).spec_in_bounds(q) ==> #[trigger] world.spec_at(q) == old(
                            world,
                        ).spec_at(q) || (old(world).spec_at(
                            q,
                        ).voxel_type is PlantMaterial && world.spec_at(q).voxel_type is Soil
                            && world.spec_at(q).environment == old(world).spec_at(q).environment),
                    forall|j: int, q: VoxelPos|
                        #![trigger plants0[j].spec_tag(), world.spec_at(q)]
                        0 <= j < plants0.len() && plants0[j].biology.is_alive && old(
                            world,
                        ).spec_in_bounds(q) && old(world).spec_at(q).voxel_type
                            == plants0[j].spec_tag() ==> world.spec_at(q) == old(
                            world,
                        ).spec_at(q),
                decreases cells_len - c,
            {
                let pos: VoxelPos = p.structure.voxel_positions[c];
                proof {
                    assert(plant_tags_grid(*old(world), dead));
                    assert(old(world).spec_in_bounds(pos));
                }
                let cell: Voxel = match world.get(&pos) {
                    Some(v) => *v,
                    None => unreached(),
                };
                let ghost wpre = *world;
                world.set_voxel(
                    &pos,
                    Voxel { voxel_type: VoxelType::Soil, environment: cell.environment },
                );
                proof {
                    wpre.lemma_index_of(pos);
                    assert forall|j: int|
                        0 <= j < world.voxels@.len() implies (
                    #[trigger] world.voxels@[j]).environment.in_range() by {
                        if j != wpre.spec_index_of(pos) {
                            assert(world.voxels@[j] == wpre.voxels@[j]);
                        }
                    }
                    assert(old(world).spec_at(pos).voxel_type == dead.spec_tag());
                    assert forall|j: int, q: VoxelPos|
                        #![trigger plants0[j].spec_tag(), world.spec_at(q)]
                        0 <= j < plants0.len() && plants0[j].biology.is_alive && old(
                            world,
                        ).spec_in_bounds(q) && old(world).spec_at(q).voxel_type
                            == plants0[j].spec_tag() implies world.spec_at(q) == old(
                        world,
                    ).spec_at(q) by {
                        if q == pos {
                            assert(plants0[j].spec_tag() != dead.spec_tag());
                            assert(false);
                        } else {
                            assert(world.spec_at(q) == wpre.spec_at(q));
                        }
                    }
                    assert forall|k: int|
                        0 <= k < c + 1 implies world.spec_at(
                        #[trigger] dead.structure.voxel_positions@[k],
                    ).voxel_type is Soil by {
                        let qk = dead.structure.voxel_positions@[k];
                        if qk != pos {
                            assert(world.spec_at(qk) == wpre.spec_at(qk));
                        }
                    }
                    assert forall|q: VoxelPos|
                        old(world).spec_in_bounds(q) && (#[trigger] world.spec_at(
                            q,
                        )).voxel_type is PlantMaterial implies exists|j: int|
                        0 <= j < plants0.len() && (plants0[j].biology.is_alive || j >= i as int)
                            && (#[trigger] plants0[j]).spec_tag() == world.spec_at(q).voxel_type
                            && plants0[j].structure.voxel_positions@.contains(q) by {
                        assert(q != pos);
                        assert(world.spec_at(q) == wpre.spec_at(q));
                    }
                }
                c = c + 1;
            }
            proof {
                assert(plants0.take(i + 1) =~= plants0.take(i as int).push(plants0[i as int]));
                plants0.take(i as int).lemma_filter_push(plants0[i as int], alive_pred);
                assert forall|q: VoxelPos|
                    old(world).spec_in_bounds(q) && (#[trigger] world.spec_at(
                        q,
                    )).voxel_type is PlantMaterial implies exists|j: int|
                    0 <= j < plants0.len() && (plants0[j].biology.is_alive || j >= i + 1) && (
                    #[trigger] plants0[j]).spec_tag() == world.spec_at(q).voxel_type
                        && plants0[j].structure.voxel_positions@.contains(q) by {
                    let j = choose|j: int|
                        0 <= j < plants0.len() && (plants0[j].biology.is_alive || j >= i as int)
                            && (#[trigger] plants0[j]).spec_tag() == world.spec_at(q).voxel_type
                            && plants0[j].structure.voxel_positions@.contains(q);
                    if !(plants0[j].biology.is_alive || j >= i + 1) {
                        // The witness would be the plant just reclaimed, but
                        // all of its cells are soil now.
                        assert(j == i as int);
                        let k = choose|k: int|
                            0 <= k < dead.structure.voxel_positions@.len()
                                && dead.structure.voxel_positions@[k] == q;
                        assert(world.spec_at(q).voxel_type is Soil);
                        assert(false);
                    }
                }
            }
        }
        i = i + 1;
    }
    proof {
        assert(plants0.take(n as int) =~= plants0);
    }
    *plants = survivors;
    proof {
        assert forall|j: int| 0 <= j < plants@.len() implies plant_tags_grid(
            *world,
            #[trigger] plants@[j],
        ) && (#[trigger] plants@[j]).wf() && plants@[j].biology.is_alive && (exists|i: int|
            0 <= i < plants0.len() && plants@[j] == #[trigger] plants0[i]) by {
            let p = plants@[j];
            plants0.lemma_filter_pred(alive_pred, j);
            assert(plants0.filter(alive_pred).contains(p));
            plants0.lemma_filter_contains_rev(alive_pred, p);
            assert(plants0.contains(p));
            let jj = choose|jj: int| 0 <= jj < plants0.len() && plants0[jj] == p;
            assert(0 <= jj < plants0.len() && plants@[j] == plants0[jj]);
            assert(p.biology.is_alive);
            assert(plant_tags_grid(*old(world), p));
            assert forall|kk: int|
                0 <= kk < p.structure.voxel_positions@.len() implies world.spec_in_bounds(
                #[trigger] p.structure.voxel_positions@[kk],
            ) && world.spec_at(p.structure.voxel_positions@[kk]).voxel_type == p.spec_tag() by {
                let q = p.structure.voxel_positions@[kk];
                assert(old(world).spec_at(q).voxel_type == p.spec_tag());
                assert(world.spec_at(q) == old(world).spec_at(q));
            }
        }
        assert forall|a: int, b: int|
            0 <= a < plants@.len() && 0 <= b < plants@.len() && a != b implies (
        #[trigger] plants@[a].id) != #[trigger] plants@[b].id by {
            lemma_filter_distinct_ids(plants0, alive_pred, a, b);
        }
        assert forall|j: int| 0 <= j < plants@.len() implies old(plants)@.contains(
            #[trigger] plants@[j],
        ) by {
            let p = plants@[j];
            assert(plants0.filter(alive_pred).contains(p));
            plants0.lemma_filter_contains_rev(alive_pred, p);
        }
        assert forall|q: VoxelPos|
            world.spec_in_bounds(q) && (#[trigger] world.spec_at(
                q,
            )).voxel_type is PlantMaterial implies exists|jj: int|
            0 <= jj < plants@.len() && (#[trigger] plants@[jj]).spec_tag() == world.spec_at(
                q,
            ).voxel_type && plants@[jj].structure.voxel_positions@.contains(q) by {
            let j = choose|j: int|
                0 <= j < plants0.len() && (plants0[j].biology.is_alive || j >= n as int) && (
                #[trigger] plants0[j]).spec_tag() == world.spec_at(q).voxel_type
                    && plants0[j].structure.voxel_positions@.contains(q);
            assert(plants0[j].biology.is_alive);
            plants0.lemma_filter_contains(alive_pred, j);
            assert(plants@.contains(plants0[j]));
            let jj = choose|jj: int| 0 <= jj < plants@.len() && plants@[jj] == plants0[j];
            assert(plants@[jj].spec_tag() == world.spec_at(q).voxel_type);
        }
    }
}

/// Filtering a population with pairwise-distinct identities keeps the
/// identities at distinct positions distinct.
proof fn lemma_filter_distinct_ids(
    plants: Seq<Plant>,
    pred: spec_fn(Plant) -> bool,
    a: int,
    b: int,
)
    requires
        forall|i: int, j: int|
            0 <= i < plants.len() && 0 <= j < plants.len() && i != j ==> (#[trigger] plants[i].id)
                != #[trigger] plants[j].id,
        0 <= a < plants.filter(pred).len(),
        0 <= b < plants.filter(pred).len(),
        a != b,
    ensures
        plants.filter(pred)[a].id != plants.filter(pred)[b].id,
    decreases plants.len(),
{
    broadcast use Seq::<Plant>::lemma_filter_push;

    if plants.len() == 0 {
        plants.filter_lemma(pred);
    } else {
        let rest = plants.drop_last();
        let last = plants.last();
        assert(rest.push(last) =~= plants);
        assert(plants.filter(pred) == if pred(last) {
            rest.filter(pred).push(last)
        } else {
            rest.filter(pred)
        });
        let fr = rest.filter(pred);
        if pred(last) {
            let fl = fr.len() as int;
            if a < fl && b < fl {
                lemma_filter_distinct_ids(rest, pred, a, b);
            } else {
                // One of the two is the pushed last element; the other lies
                // in the filtered prefix and equals some earlier plant.
                let c = if a < fl {
                    a
                } else {
                    b
                };
                assert(fr.contains(fr[c]));
                rest.lemma_filter_contains_rev(pred, fr[c]);
                assert(rest.contains(fr[c]));
                let jj = choose|jj: int| 0 <= jj < rest.len() && rest[jj] == fr[c];
                assert(plants[jj] == fr[c]);
                assert(plants[jj].id != last.id);
            }
        } else {
            lemma_filter_distinct_ids(rest, pred, a, b);
        }
    }
}

} // verus!
