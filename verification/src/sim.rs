//! The simulation context: the grid, the plant population, the clocks, the
//! identity allocators, the statistics history and the pause gate, advanced
//! tick by tick in the fixed component order.

use vstd::prelude::*;
use crate::biology::{
    aging_system, maintenance_cost_system, photosynthesis_system, resource_absorption_system,
};
use crate::config::DT_MAX_MS;
use crate::environment::{
    regenerate_resources_system, update_day_night_system, update_light_system,
    update_year_cycle_system, DayNightCycle, YearCycle,
};
use crate::genetics::Genome;
use crate::growth::plant_growth_system;
use crate::config::{STARTING_ENERGY, STATS_UPDATE_INTERVAL_MS};
use crate::plant::{
    grid_covered, ids_below, lemma_covered_same_shape, lemma_plant_evolves_refl,
    lemma_plant_evolves_trans, lemma_species_ids_same_lineage, lemma_tags_preserved_same_types,
    lemma_tags_same_shape, plant_evolves, plant_tags_grid, population_consistent,
    species_ids_below, Plant,
};
use crate::reproduction::{
    cleanup_dead_plants_system, reproduction_system, spawn_plant, SpeciesCounter,
};
use crate::rng::rng_below;
use crate::stats::{collect_statistics_system, StatisticsHistory};
use crate::voxel::{VoxelPos, VoxelType, VoxelWorld};

verus! {

/// The whole simulation state.
pub struct Simulation {
    pub world: VoxelWorld,
    pub plants: Vec<Plant>,
    pub species_counter: SpeciesCounter,
    pub next_plant_id: u32,
    pub day_night: DayNightCycle,
    pub year: YearCycle,
    pub history: StatisticsHistory,
    pub elapsed_ms: u64,
    pub paused: bool,
}

impl Simulation {
    /// The simulation invariant: a well-formed grid with in-range
    /// environment scalars, well-formed plants whose claimed cells carry
    /// their own tags, no orphaned plant-material cell, pairwise-distinct
    /// plant identities below the allocator, and well-formed clocks and
    /// history.
    pub open spec fn wf(self) -> bool {
        &&& self.world.wf()
        &&& self.world.env_ok()
        &&& forall|i: int| 0 <= i < self.plants@.len() ==> (#[trigger] self.plants@[i]).wf()
        &&& population_consistent(self.world, self.plants@)
        &&& grid_covered(self.world, self.plants@)
        &&& ids_below(self.plants@, self.next_plant_id)
        &&& species_ids_below(self.plants@, self.species_counter.next_id)
        &&& self.day_night.wf()
        &&& self.year.wf()
        &&& self.history.wf()
    }

    /// An empty simulation over a fresh grid of the given dimensions.
    pub fn new(width: usize, height: usize, depth: usize) -> (r: Self)
        requires
            width * height * depth <= u32::MAX,
            width * depth <= u32::MAX,
            width <= i32::MAX,
            height <= i32::MAX,
            depth <= i32::MAX,
        ensures
            r.wf(),
            r.plants@.len() == 0,
            r.next_plant_id == 0,
            r.species_counter.next_id == 0,
            r.elapsed_ms == 0,
            !r.paused,
            r.world.width == width && r.world.height == height && r.world.depth == depth,
    {
        let world = VoxelWorld::new(width, height, depth);
        proof {
            assert forall|q: VoxelPos|
                world.spec_in_bounds(q) implies !((#[trigger] world.spec_at(
                q,
            )).voxel_type is PlantMaterial) by {
                assert(world.spec_at(q) == crate::voxel::initial_cell(q.y < height as int / 2));
            }
        }
        Simulation {
            world,
            plants: Vec::new(),
            species_counter: SpeciesCounter::default(),
            next_plant_id: 0,
            day_night: DayNightCycle::default(),
            year: YearCycle::default(),
            history: StatisticsHistory::default(),
            elapsed_ms: 0,
            paused: false,
        }
    }

    /// Startup seeding: places up to `count` plants with fresh random
    /// genomes and sequential species identities at random positions of the
    /// soil-surface layer; a miss (a cell that is not soil, or was claimed
    /// by an earlier seed of this call) forfeits that seed. The species
    /// allocator is advanced past the seeded identities first, so they stay
    /// fresh for later offspring.
    pub fn seed_initial_plants(&mut self, count: u32, rng: &mut rand::rngs::ThreadRng)
        requires
            old(self).wf(),
        ensures
            final(self).wf(),
            old(self).plants@.len() <= final(self).plants@.len() <= old(self).plants@.len()
                + count,
            final(self).paused == old(self).paused,
            final(self).species_counter.next_id >= count,
            final(self).species_counter.next_id >= old(self).species_counter.next_id,
            final(self).world.same_dims(old(self).world),
            forall|i: int|
                0 <= i < old(self).plants@.len() ==> #[trigger] final(self).plants@[i] == old(
                    self,
                ).plants@[i],
            forall|i: int|
                old(self).plants@.len() <= i < final(self).plants@.len() ==> {
                    let p = #[trigger] final(self).plants@[i];
                    &&& p.biology.is_alive
                    &&& p.biology.energy == STARTING_ENERGY
                    &&& p.biology.age == 0
                    &&& p.biology.total_mass == 0
                    &&& p.growth_timer.elapsed_ms == 0
                    &&& p.lineage.generation == 0
                    &&& p.lineage.parent_id is None
                    &&& p.lineage.species_id < count
                    &&& p.structure.root_position.y == old(self).world.height as int / 2 - 1
                    &&& p.structure.voxel_positions@ =~= seq![p.structure.root_position]
                    &&& p.structure.root_positions@ =~= seq![p.structure.root_position]
                    &&& p.structure.leaf_positions@ =~= Seq::<VoxelPos>::empty()
                    &&& old(self).world.spec_at(p.structure.root_position).voxel_type is Soil
                },
            forall|q: VoxelPos|
                old(self).world.spec_in_bounds(q) ==> #[trigger] final(self).world.spec_at(q)
                    == old(self).world.spec_at(q) || (old(self).world.spec_at(
                    q,
                ).voxel_type is Soil && final(self).world.spec_at(q).voxel_type is PlantMaterial
                    && final(self).world.spec_at(q).environment == old(self).world.spec_at(
                    q,
                ).environment),
    {
        if self.species_counter.next_id < count {
            self.species_counter.next_id = count;
        }
        let ghost c0 = self.species_counter;
        let ghost n0 = self.plants@.len() as int;
        let surface: usize = self.world.height / 2;
        let mut s: u32 = 0;
        while s < count
            invariant
                self.wf(),
                s <= count,
                surface == old(self).world.height as int / 2,
                self.world.same_dims(old(self).world),
                self.species_counter == c0,
                c0.next_id >= count,
                n0 == old(self).plants@.len(),
                n0 <= self.plants@.len() <= n0 + s,
                self.paused == old(self).paused,
                self.day_night == old(self).day_night,
                self.year == old(self).year,
                self.history == old(self).history,
                forall|i: int|
                    0 <= i < n0 ==> #[trigger] self.plants@[i] == old(self).plants@[i],
                forall|i: int|
                    n0 <= i < self.plants@.len() ==> {
                        let p = #[trigger] self.plants@[i];
                        &&& p.biology.is_alive
                        &&& p.biology.energy == STARTING_ENERGY
                        &&& p.biology.age == 0
                        &&& p.biology.total_mass == 0
                        &&& p.growth_timer.elapsed_ms == 0
                        &&& p.lineage.generation == 0
                        &&& p.lineage.parent_id is None
                        &&& p.lineage.species_id < count
                        &&& p.structure.root_position.y == old(self).world.height as int / 2 - 1
                        &&& p.structure.voxel_positions@ =~= seq![p.structure.root_position]
                        &&& p.structure.root_positions@ =~= seq![p.structure.root_position]
                        &&& p.structure.leaf_positions@ =~= Seq::<VoxelPos>::empty()
                        &&& old(self).world.spec_at(p.structure.root_position).voxel_type is Soil
                    },
                forall|q: VoxelPos|
                    old(self).world.spec_in_bounds(q) ==> #[trigger] self.world.spec_at(q) == old(
                        self,
                    ).world.spec_at(q) || (old(self).world.spec_at(q).voxel_type is Soil
                        && self.world.spec_at(q).voxel_type is PlantMaterial
                        && self.world.spec_at(q).environment == old(self).world.spec_at(
                        q,
                    ).environment),
            decreases count - s,
        {
            if surface >= 1 && self.world.width > 0 && self.world.depth > 0
                && self.next_plant_id < u32::MAX {
                let x = rng_below(rng, self.world.width as u32);
                let z = rng_below(rng, self.world.depth as u32);
                let pos = VoxelPos { x: x as i32, y: (surface - 1) as i32, z: z as i32 };
                let is_soil: bool = match self.world.get(&pos) {
                    Some(v) => matches!(v.voxel_type, VoxelType::Soil),
                    None => false,
                };
                if is_soil {
                    let ghost wmid = self.world;
                    let ghost plants_mid = self.plants@;
                    let genome = Genome::random(rng);
                    spawn_plant(
                        &mut self.plants,
                        &mut self.world,
                        &mut self.next_plant_id,
                        pos,
                        genome,
                        0,
                        None,
                        s,
                    );
                    proof {
                        assert(old(self).world.spec_at(pos).voxel_type is Soil);
                        assert(species_ids_below(self.plants@, self.species_counter.next_id)) by {
                            if self.species_counter.next_id != u32::MAX {
                                assert forall|j2: int|
                                    0 <= j2 < self.plants@.len() implies (
                                #[trigger] self.plants@[j2]).lineage.species_id
                                    < self.species_counter.next_id by {
                                    if j2 < plants_mid.len() {
                                        assert(self.plants@[j2] == plants_mid[j2]);
                                    } else {
                                        assert(self.plants@[j2] == self.plants@.last());
                                    }
                                }
                            }
                        }
                        assert forall|q: VoxelPos|
                            old(self).world.spec_in_bounds(q) implies #[trigger] self.world.spec_at(
                            q,
                        ) == old(self).world.spec_at(q) || (old(self).world.spec_at(
                            q,
                        ).voxel_type is Soil && self.world.spec_at(q).voxel_type is PlantMaterial
                            && self.world.spec_at(q).environment == old(self).world.spec_at(
                            q,
                        ).environment) by {
                            if q != pos {
                                assert(self.world.spec_at(q) == wmid.spec_at(q));
                            } else {
                                assert(wmid.spec_at(q).voxel_type is Soil);
                            }
                        }
                    }
                }
            }
            s = s + 1;
        }
    }

    /// One simulation tick in the fixed order: environment (clocks, light,
    /// regeneration), metabolism (photosynthesis, absorption, maintenance,
    /// aging), growth, reproduction, cleanup of the dead, statistics. A
    /// paused simulation is left exactly as it is. Every surviving plant is
    /// alive and either accreted from a plant of the previous tick — same
    /// identity, genome and lineage, a cell list that only grew, an age
    /// that never went back, death one-way — or is a newborn carrying a
    /// fresh identity.
    pub fn tick(&mut self, rng: &mut rand::rngs::ThreadRng, dt: u32)
        requires
            old(self).wf(),
            dt <= DT_MAX_MS,
        ensures
            final(self).wf(),
            old(self).paused ==> *final(self) == *old(self),
            final(self).paused == old(self).paused,
            !old(self).paused ==> ({
                let dn = old(self).day_night;
                let yr = old(self).year;
                &&& final(self).day_night.day_length_ms == dn.day_length_ms
                &&& final(self).day_night.time_of_day_ms == (dn.time_of_day_ms + dt) as int
                    % dn.day_length_ms as int
                &&& final(self).year.year_length_ms == yr.year_length_ms
                &&& final(self).year.time_of_year_ms == (yr.time_of_year_ms + dt) as int
                    % yr.year_length_ms as int
                &&& final(self).elapsed_ms == (if old(self).elapsed_ms <= u64::MAX - dt {
                    old(self).elapsed_ms + dt
                } else {
                    u64::MAX as int
                })
                &&& final(self).history.update_timer_ms == (old(self).history.update_timer_ms
                    + dt) as int % STATS_UPDATE_INTERVAL_MS as int
            }),
            !old(self).paused ==> forall|j: int|
                0 <= j < final(self).plants@.len() ==> {
                    let p = #[trigger] final(self).plants@[j];
                    &&& p.biology.is_alive
                    &&& ((exists|i: int|
                        0 <= i < old(self).plants@.len() && plant_evolves(
                            #[trigger] old(self).plants@[i],
                            p,
                        )) || p.id >= old(self).next_plant_id)
                },
    {
        if self.paused {
            return ;
        }
        let ghost s0 = self.plants@;
        let ghost n0 = self.plants@.len() as int;
        let ghost next0 = self.next_plant_id;

        // Environment cycle.
        update_day_night_system(&mut self.day_night, dt);
        update_year_cycle_system(&mut self.year, dt);
        let ghost w_pre_light = self.world;
        update_light_system(&mut self.world);
        proof {
            assert forall|i: int| 0 <= i < self.plants@.len() implies plant_tags_grid(
                self.world,
                #[trigger] self.plants@[i],
            ) by {
                lemma_tags_preserved_same_types(w_pre_light, self.world, self.plants@[i]);
            }
            lemma_covered_same_shape(w_pre_light, self.world, self.plants@, self.plants@);
        }
        let ghost w_pre_regen = self.world;
        regenerate_resources_system(&mut self.world);
        proof {
            assert forall|i: int| 0 <= i < self.plants@.len() implies plant_tags_grid(
                self.world,
                #[trigger] self.plants@[i],
            ) by {
                lemma_tags_preserved_same_types(w_pre_regen, self.world, self.plants@[i]);
            }
            lemma_covered_same_shape(w_pre_regen, self.world, self.plants@, self.plants@);
            assert forall|i: int| 0 <= i < n0 implies plant_evolves(
                s0[i],
                #[trigger] self.plants@[i],
            ) by {
                lemma_plant_evolves_refl(s0[i]);
            }
        }

        // Metabolism.
        let ghost s_pre_photo = self.plants@;
        photosynthesis_system(&mut self.plants, &self.world, dt);
        proof {
            self.lemma_after_shape_phase(s0, s_pre_photo, self.world);
        }
        let ghost s_pre_absorb = self.plants@;
        let ghost w_pre_absorb = self.world;
        resource_absorption_system(&mut self.plants, &mut self.world, dt);
        proof {
            assert forall|i: int| 0 <= i < self.plants@.len() implies plant_tags_grid(
                self.world,
                #[trigger] self.plants@[i],
            ) by {
                lemma_tags_same_shape(w_pre_absorb, s_pre_absorb[i], self.plants@[i]);
                lemma_tags_preserved_same_types(w_pre_absorb, self.world, self.plants@[i]);
            }
            lemma_covered_same_shape(w_pre_absorb, self.world, s_pre_absorb, self.plants@);
            assert forall|i: int| 0 <= i < n0 implies plant_evolves(
                s0[i],
                #[trigger] self.plants@[i],
            ) by {
                lemma_plant_evolves_refl(s_pre_absorb[i]);
                lemma_plant_evolves_trans(s0[i], s_pre_absorb[i], self.plants@[i]);
            }
        }
        let ghost s_pre_maint = self.plants@;
        maintenance_cost_system(&mut self.plants, dt);
        proof {
            self.lemma_after_shape_phase(s0, s_pre_maint, self.world);
        }
        let ghost s_pre_age = self.plants@;
        aging_system(&mut self.plants, dt);
        proof {
            self.lemma_after_shape_phase(s0, s_pre_age, self.world);
        }

        // Growth.
        let ghost s_pre_growth = self.plants@;
        plant_growth_system(&mut self.plants, &mut self.world, rng, dt);
        proof {
            assert forall|i: int| 0 <= i < n0 implies plant_evolves(
                s0[i],
                #[trigger] self.plants@[i],
            ) by {
                lemma_plant_evolves_trans(s0[i], s_pre_growth[i], self.plants@[i]);
            }
        }

        // Reproduction and speciation.
        let ghost s_pre_repro = self.plants@;
        reproduction_system(
            &mut self.plants,
            &mut self.world,
            &mut self.species_counter,
            &mut self.next_plant_id,
            rng,
        );
        proof {
            assert forall|i: int| 0 <= i < n0 implies plant_evolves(
                s0[i],
                #[trigger] self.plants@[i],
            ) by {
                lemma_plant_evolves_refl(s_pre_repro[i]);
                lemma_plant_evolves_trans(s0[i], s_pre_repro[i], self.plants@[i]);
            }
            assert forall|i: int|
                n0 <= i < self.plants@.len() implies (#[trigger] self.plants@[i]).id >= next0 by {}
        }

        // Cleanup of dead plants.
        let ghost s_pre_cleanup = self.plants@;
        cleanup_dead_plants_system(&mut self.plants, &mut self.world);
        proof {
            assert forall|j: int| 0 <= j < self.plants@.len() implies {
                let p = #[trigger] self.plants@[j];
                &&& p.biology.is_alive
                &&& ((exists|i: int|
                    0 <= i < s0.len() && plant_evolves(#[trigger] s0[i], p)) || p.id >= next0)
            } by {
                let p = self.plants@[j];
                assert(s_pre_cleanup.contains(p));
                let k = choose|k: int| 0 <= k < s_pre_cleanup.len() && s_pre_cleanup[k] == p;
                if k < n0 {
                    assert(plant_evolves(s0[k], p));
                }
            }
            assert forall|i: int|
                0 <= i < self.plants@.len() implies (#[trigger] self.plants@[i]).id
                    < self.next_plant_id by {
                let p = self.plants@[i];
                assert(s_pre_cleanup.contains(p));
                let k = choose|k: int| 0 <= k < s_pre_cleanup.len() && s_pre_cleanup[k] == p;
            }
        }

        // Statistics.
        self.elapsed_ms = if self.elapsed_ms <= u64::MAX - (dt as u64) {
            self.elapsed_ms + (dt as u64)
        } else {
            u64::MAX
        };
        collect_statistics_system(&mut self.history, &self.plants, self.elapsed_ms, dt);
    }

    /// After a phase that leaves the grid and every plant's cell list,
    /// identity and lineage as they were, the tags and the accretion
    /// relation carry over.
    proof fn lemma_after_shape_phase(self, s0: Seq<Plant>, s_pre: Seq<Plant>, w: VoxelWorld)
        requires
            self.plants@.len() == s_pre.len(),
            s_pre.len() >= s0.len(),
            forall|i: int| 0 <= i < s_pre.len() ==> plant_tags_grid(w, #[trigger] s_pre[i]),
            forall|i: int|
                0 <= i < s_pre.len() ==> {
                    let p1 = s_pre[i];
                    let p2 = #[trigger] self.plants@[i];
                    &&& p2.id == p1.id
                    &&& p2.genome == p1.genome
                    &&& p2.lineage == p1.lineage
                    &&& p2.structure == p1.structure
                    &&& p2.biology.age >= p1.biology.age
                    &&& (p2.biology.is_alive ==> p1.biology.is_alive)
                },
            forall|i: int| 0 <= i < s0.len() ==> plant_evolves(#[trigger] s0[i], s_pre[i]),
            grid_covered(w, s_pre),
        ensures
            forall|i: int|
                0 <= i < s_pre.len() ==> plant_tags_grid(w, #[trigger] self.plants@[i]),
            forall|i: int| 0 <= i < s0.len() ==> plant_evolves(#[trigger] s0[i], self.plants@[i]),
            grid_covered(w, self.plants@),
    {
        assert forall|i: int| 0 <= i < s_pre.len() implies plant_tags_grid(
            w,
            #[trigger] self.plants@[i],
        ) by {
            lemma_tags_same_shape(w, s_pre[i], self.plants@[i]);
        }
        assert forall|i: int| 0 <= i < s0.len() implies plant_evolves(
            #[trigger] s0[i],
            self.plants@[i],
        ) by {
            lemma_plant_evolves_refl(s_pre[i]);
            lemma_plant_evolves_trans(s0[i], s_pre[i], self.plants@[i]);
        }
        lemma_covered_same_shape(w, w, s_pre, self.plants@);
    }
}

} // verus!
