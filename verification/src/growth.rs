//! The growth engine: interval-gated growth attempts that claim air cells
//! upward or sideways, optionally sprout leaves, and push roots down into
//! soil, paying a fixed energy cost per claimed cell.

use vstd::prelude::*;
use crate::config::{BASE_GROWTH_COST, DT_MAX_MS, GROWTH_INTERVAL_MS, ROOT_GROWTH_CHANCE, SCALE};
use crate::genetics::Genome;
use crate::plant::{
    energy_sub, grid_covered, lemma_prefix_contains, plant_tags_grid, population_consistent,
    spec_energy_sub, Plant,
};
use crate::rng::rng_below;
use crate::voxel::{Voxel, VoxelPos, VoxelType, VoxelWorld};

verus! {

/// The decoded leaf probability of a genome, in thousandths.
pub open spec fn spec_leaf_density(g: Genome) -> int {
    100 + g.leaf_density.value * 900 / 1000
}

/// The decoded branching probability of a genome, in thousandths.
pub open spec fn spec_branching_frequency(g: Genome) -> int {
    10 + g.branching_frequency.value * 290 / 1000
}

/// The decoded maximum height of a genome, in voxels.
pub open spec fn spec_max_height(g: Genome) -> int {
    5 + g.max_height.value * 45 / 1000
}

/// The decoded maximum root depth of a genome, in voxels.
pub open spec fn spec_root_depth(g: Genome) -> int {
    1 + g.root_depth.value * 19 / 1000
}

/// The neighbour cell a leaf attempt with the given direction choice aims
/// at: one of the five offsets around `pos` (up and the four horizontals,
/// never down).
pub open spec fn spec_leaf_target(pos: VoxelPos, dir: int) -> VoxelPos {
    if dir == 0 {
        VoxelPos { x: (pos.x + 1) as i32, y: pos.y, z: pos.z }
    } else if dir == 1 {
        VoxelPos { x: (pos.x - 1) as i32, y: pos.y, z: pos.z }
    } else if dir == 2 {
        VoxelPos { x: pos.x, y: (pos.y + 1) as i32, z: pos.z }
    } else if dir == 3 {
        VoxelPos { x: pos.x, y: pos.y, z: (pos.z + 1) as i32 }
    } else {
        VoxelPos { x: pos.x, y: pos.y, z: (pos.z - 1) as i32 }
    }
}

/// The horizontal neighbour a branch attempt with the given direction
/// choice aims at.
pub open spec fn spec_branch_target(pos: VoxelPos, dir: int) -> VoxelPos {
    if dir == 0 {
        VoxelPos { x: (pos.x + 1) as i32, y: pos.y, z: pos.z }
    } else if dir == 1 {
        VoxelPos { x: (pos.x - 1) as i32, y: pos.y, z: pos.z }
    } else if dir == 2 {
        VoxelPos { x: pos.x, y: pos.y, z: (pos.z + 1) as i32 }
    } else {
        VoxelPos { x: pos.x, y: pos.y, z: (pos.z - 1) as i32 }
    }
}

/// Whether a plant may claim one more cell without breaking the machine
/// bound on its cell list.
pub open spec fn spec_can_extend(p: Plant) -> bool {
    p.structure.voxel_positions@.len() < u32::MAX
}

/// A growth step's grid frame: every cell is either untouched, or was free
/// of plant material and now carries the given tag with its environment
/// kept.
pub open spec fn growth_frame(w1: VoxelWorld, w2: VoxelWorld, tag: VoxelType) -> bool {
    &&& w2.same_dims(w1)
    &&& w2.voxels@.len() == w1.voxels@.len()
    &&& forall|q: VoxelPos|
        w1.spec_in_bounds(q) ==> #[trigger] w2.spec_at(q) == w1.spec_at(q) || (!(w1.spec_at(
            q,
        ).voxel_type is PlantMaterial) && w2.spec_at(q).voxel_type == tag && w2.spec_at(
            q,
        ).environment == w1.spec_at(q).environment)
}

/// A population growth pass's grid frame: every cell is either untouched,
/// or was free of plant material and is now plant material with its
/// environment kept.
pub open spec fn claims_only_frame(w1: VoxelWorld, w2: VoxelWorld) -> bool {
    &&& w2.same_dims(w1)
    &&& w2.voxels@.len() == w1.voxels@.len()
    &&& forall|q: VoxelPos|
        w1.spec_in_bounds(q) ==> #[trigger] w2.spec_at(q) == w1.spec_at(q) || (!(w1.spec_at(
            q,
        ).voxel_type is PlantMaterial) && w2.spec_at(q).voxel_type is PlantMaterial && w2.spec_at(
            q,
        ).environment == w1.spec_at(q).environment)
}

/// Growth frames compose.
pub proof fn lemma_growth_frame_trans(w1: VoxelWorld, w2: VoxelWorld, w3: VoxelWorld, tag: VoxelType)
    requires
        growth_frame(w1, w2, tag),
        growth_frame(w2, w3, tag),
    ensures
        growth_frame(w1, w3, tag),
{
    assert forall|q: VoxelPos| w1.spec_in_bounds(q) implies #[trigger] w3.spec_at(q) == w1.spec_at(
        q,
    ) || (!(w1.spec_at(q).voxel_type is PlantMaterial) && w3.spec_at(q).voxel_type == tag
        && w3.spec_at(q).environment == w1.spec_at(q).environment) by {
        assert(w2.spec_in_bounds(q));
        assert(w2.spec_at(q) == w1.spec_at(q) || (!(w1.spec_at(q).voxel_type is PlantMaterial)
            && w2.spec_at(q).voxel_type == tag && w2.spec_at(q).environment == w1.spec_at(
            q,
        ).environment));
    }
}

/// Claims-only frames compose.
pub proof fn lemma_claims_only_trans(w1: VoxelWorld, w2: VoxelWorld, w3: VoxelWorld)
    requires
        claims_only_frame(w1, w2),
        claims_only_frame(w2, w3),
    ensures
        claims_only_frame(w1, w3),
{
    assert forall|q: VoxelPos| w1.spec_in_bounds(q) implies #[trigger] w3.spec_at(q) == w1.spec_at(
        q,
    ) || (!(w1.spec_at(q).voxel_type is PlantMaterial) && w3.spec_at(
        q,
    ).voxel_type is PlantMaterial && w3.spec_at(q).environment == w1.spec_at(q).environment) by {
        assert(w2.spec_in_bounds(q));
        assert(w2.spec_at(q) == w1.spec_at(q) || (!(w1.spec_at(q).voxel_type is PlantMaterial)
            && w2.spec_at(q).voxel_type is PlantMaterial && w2.spec_at(q).environment == w1.spec_at(
            q,
        ).environment));
    }
}

/// True exactly when `pos` is an in-bounds air cell.
pub fn can_grow_at(pos: &VoxelPos, world: &VoxelWorld) -> (r: bool)
    requires
        world.wf(),
    ensures
        r == (world.spec_in_bounds(*pos) && world.spec_at(*pos).voxel_type is Air),
{
    match world.get(pos) {
        Some(v) => v.voxel_type.is_air(),
        None => false,
    }
}

/// True exactly when `pos` is an in-bounds air or soil cell: roots may grow
/// into soil.
pub fn can_grow_root_at(pos: &VoxelPos, world: &VoxelWorld) -> (r: bool)
    requires
        world.wf(),
    ensures
        r == (world.spec_in_bounds(*pos) && (world.spec_at(*pos).voxel_type is Air || world.spec_at(
            *pos,
        ).voxel_type is Soil)),
{
    match world.get(pos) {
        Some(v) => matches!(v.voxel_type, VoxelType::Air | VoxelType::Soil),
        None => false,
    }
}

/// Claims one free cell for the plant: deducts the growth cost, appends the
/// position to the plant's voxel list, refreshes its recorded mass, and
/// tags the grid cell with the plant's identity, keeping the cell's
/// environment.
pub fn grow_voxel(plant: &mut Plant, world: &mut VoxelWorld, pos: VoxelPos)
    requires
        old(plant).wf(),
        old(world).wf(),
        old(world).env_ok(),
        old(world).spec_in_bounds(pos),
        !(old(world).spec_at(pos).voxel_type is PlantMaterial),
        old(plant).structure.voxel_positions@.len() < u32::MAX,
        plant_tags_grid(*old(world), *old(plant)),
    ensures
        final(plant).wf(),
        final(world).wf(),
        final(world).env_ok(),
        plant_tags_grid(*final(world), *final(plant)),
        growth_frame(*old(world), *final(world), old(plant).spec_tag()),
        final(world).spec_at(pos).voxel_type == old(plant).spec_tag(),
        final(plant).id == old(plant).id,
        final(plant).genome == old(plant).genome,
        final(plant).lineage == old(plant).lineage,
        final(plant).growth_timer == old(plant).growth_timer,
        final(plant).biology.is_alive == old(plant).biology.is_alive,
        final(plant).biology.age == old(plant).biology.age,
        final(plant).biology.energy == spec_energy_sub(
            old(plant).biology.energy,
            BASE_GROWTH_COST as int,
        ),
        final(plant).structure.root_position == old(plant).structure.root_position,
        final(plant).structure.voxel_positions@ == old(plant).structure.voxel_positions@.push(pos),
        final(plant).structure.leaf_positions@ == old(plant).structure.leaf_positions@,
        final(plant).structure.root_positions@ == old(plant).structure.root_positions@,
        final(plant).biology.total_mass == final(plant).structure.voxel_positions@.len(),
        forall|q: VoxelPos|
            old(world).spec_in_bounds(q) && final(world).spec_at(q) != old(world).spec_at(q)
                ==> final(plant).structure.voxel_positions@.contains(q),
        forall|q: VoxelPos|
            old(world).spec_in_bounds(q) && q != pos ==> #[trigger] final(world).spec_at(q) == old(
                world,
            ).spec_at(q),
{
    plant.biology.energy = energy_sub(plant.biology.energy, 10_000);
    plant.structure.voxel_positions.push(pos);
    plant.biology.total_mass = plant.structure.voxel_positions.len() as u32;
    let cell: Voxel = match world.get(&pos) {
        Some(c) => *c,
        None => unreached(),
    };
    let ghost wpre = *world;
    world.set_voxel(
        &pos,
        Voxel {
            voxel_type: VoxelType::PlantMaterial {
                plant_id: plant.id,
                species_id: plant.lineage.species_id,
            },
            environment: cell.environment,
        },
    );
    proof {
        wpre.lemma_index_of(pos);
        assert forall|j: int|
            0 <= j < world.voxels@.len() implies (
        #[trigger] world.voxels@[j]).environment.in_range() by {
            if j != wpre.spec_index_of(pos) {
                assert(world.voxels@[j] == wpre.voxels@[j]);
            }
        }
        assert forall|k: int|
            0 <= k < plant.structure.voxel_positions@.len() implies world.spec_in_bounds(
            #[trigger] plant.structure.voxel_positions@[k],
        ) && world.spec_at(plant.structure.voxel_positions@[k]).voxel_type
            == plant.spec_tag() by {
            let q = plant.structure.voxel_positions@[k];
            if k < old(plant).structure.voxel_positions@.len() {
                assert(q == old(plant).structure.voxel_positions@[k]);
                assert(wpre.spec_at(q).voxel_type == old(plant).spec_tag());
                if q != pos {
                    assert(world.spec_at(q) == wpre.spec_at(q));
                }
            } else {
                assert(q == pos);
            }
        }
        assert forall|q: VoxelPos|
            wpre.spec_in_bounds(q) && world.spec_at(q) != wpre.spec_at(
                q,
            ) implies plant.structure.voxel_positions@.contains(q) by {
            if q != pos {
                assert(world.spec_at(q) == wpre.spec_at(q));
            } else {
                assert(plant.structure.voxel_positions@.last() == pos);
            }
        }
    }
}

/// Tries to sprout a leaf next to `pos`: the chosen one of five neighbour
/// offsets is claimed if it is an in-bounds air cell, and then also joins
/// the leaf list.
pub fn add_leaf(plant: &mut Plant, world: &mut VoxelWorld, pos: VoxelPos, dir: u32)
    requires
        old(plant).wf(),
        old(world).wf(),
        old(world).env_ok(),
        old(world).spec_in_bounds(pos),
        dir < 5,
        plant_tags_grid(*old(world), *old(plant)),
    ensures
        final(plant).wf(),
        final(world).wf(),
        final(world).env_ok(),
        plant_tags_grid(*final(world), *final(plant)),
        growth_frame(*old(world), *final(world), old(plant).spec_tag()),
        final(plant).id == old(plant).id,
        final(plant).genome == old(plant).genome,
        final(plant).lineage == old(plant).lineage,
        final(plant).growth_timer == old(plant).growth_timer,
        final(plant).biology.is_alive == old(plant).biology.is_alive,
        final(plant).biology.age == old(plant).biology.age,
        final(plant).structure.root_position == old(plant).structure.root_position,
        final(plant).structure.root_positions@ == old(plant).structure.root_positions@,
        forall|q: VoxelPos|
            old(world).spec_in_bounds(q) && final(world).spec_at(q) != old(world).spec_at(q)
                ==> final(plant).structure.voxel_positions@.contains(q),
        ({
            let target = spec_leaf_target(pos, dir as int);
            let succeeds = old(world).spec_in_bounds(target) && old(world).spec_at(
                target,
            ).voxel_type is Air && spec_can_extend(*old(plant)) && old(
                plant,
            ).structure.leaf_positions@.len() < u32::MAX;
            if succeeds {
                &&& final(world).spec_at(target).voxel_type == old(plant).spec_tag()
                &&& final(plant).structure.voxel_positions@ == old(
                    plant,
                ).structure.voxel_positions@.push(target)
                &&& final(plant).structure.leaf_positions@ == old(
                    plant,
                ).structure.leaf_positions@.push(target)
                &&& final(plant).biology.energy == spec_energy_sub(
                    old(plant).biology.energy,
                    BASE_GROWTH_COST as int,
                )
                &&& final(plant).biology.total_mass
                    == final(plant).structure.voxel_positions@.len()
            } else {
                &&& *final(plant) == *old(plant)
                &&& *final(world) == *old(world)
            }
        }),
{
    let leaf_pos: VoxelPos = if dir == 0 {
        VoxelPos { x: pos.x + 1, y: pos.y, z: pos.z }
    } else if dir == 1 {
        VoxelPos { x: pos.x - 1, y: pos.y, z: pos.z }
    } else if dir == 2 {
        VoxelPos { x: pos.x, y: pos.y + 1, z: pos.z }
    } else if dir == 3 {
        VoxelPos { x: pos.x, y: pos.y, z: pos.z + 1 }
    } else {
        VoxelPos { x: pos.x, y: pos.y, z: pos.z - 1 }
    };
    if can_grow_at(&leaf_pos, world) && plant.structure.voxel_positions.len() < (u32::MAX as usize)
        && plant.structure.leaf_positions.len() < (u32::MAX as usize) {
        grow_voxel(plant, world, leaf_pos);
        plant.structure.leaf_positions.push(leaf_pos);
    }
}

/// Tries to grow straight up from `from_pos`: the cell above is claimed if
/// it is air, and a roll below the genome's leaf density then tries to
/// sprout a leaf beside the new cell.
pub fn try_grow_upward(
    plant: &mut Plant,
    world: &mut VoxelWorld,
    from_pos: VoxelPos,
    leaf_roll: u32,
    leaf_dir: u32,
)
    requires
        old(plant).wf(),
        old(world).wf(),
        old(world).env_ok(),
        old(world).spec_in_bounds(from_pos),
        leaf_dir < 5,
        plant_tags_grid(*old(world), *old(plant)),
    ensures
        final(plant).wf(),
        final(world).wf(),
        final(world).env_ok(),
        plant_tags_grid(*final(world), *final(plant)),
        growth_frame(*old(world), *final(world), old(plant).spec_tag()),
        final(plant).id == old(plant).id,
        final(plant).genome == old(plant).genome,
        final(plant).lineage == old(plant).lineage,
        final(plant).growth_timer == old(plant).growth_timer,
        final(plant).biology.is_alive == old(plant).biology.is_alive,
        final(plant).biology.age == old(plant).biology.age,
        final(plant).biology.energy <= old(plant).biology.energy,
        final(plant).structure.root_position == old(plant).structure.root_position,
        old(plant).structure.voxel_positions@.is_prefix_of(
            final(plant).structure.voxel_positions@,
        ),
        old(plant).structure.leaf_positions@.is_prefix_of(final(plant).structure.leaf_positions@),
        final(plant).structure.root_positions@ == old(plant).structure.root_positions@,
        forall|q: VoxelPos|
            old(world).spec_in_bounds(q) && final(world).spec_at(q) != old(world).spec_at(q)
                ==> final(plant).structure.voxel_positions@.contains(q),
        ({
            let target = VoxelPos { x: from_pos.x, y: (from_pos.y + 1) as i32, z: from_pos.z };
            let trunk = old(world).spec_in_bounds(target) && old(world).spec_at(
                target,
            ).voxel_type is Air && spec_can_extend(*old(plant));
            if trunk {
                let leaf_target = spec_leaf_target(target, leaf_dir as int);
                let leaf = leaf_roll < spec_leaf_density(old(plant).genome) && old(
                    world,
                ).spec_in_bounds(leaf_target) && old(world).spec_at(
                    leaf_target,
                ).voxel_type is Air && old(plant).structure.voxel_positions@.len() + 1 < u32::MAX
                    && old(plant).structure.leaf_positions@.len() < u32::MAX;
                &&& final(world).spec_at(target).voxel_type == old(plant).spec_tag()
                &&& final(plant).biology.total_mass
                    == final(plant).structure.voxel_positions@.len()
                &&& (if leaf {
                    &&& final(plant).structure.voxel_positions@ == old(
                        plant,
                    ).structure.voxel_positions@.push(target).push(leaf_target)
                    &&& final(plant).structure.leaf_positions@ == old(
                        plant,
                    ).structure.leaf_positions@.push(leaf_target)
                    &&& final(world).spec_at(leaf_target).voxel_type == old(plant).spec_tag()
                    &&& final(plant).biology.energy == spec_energy_sub(
                        old(plant).biology.energy,
                        2 * BASE_GROWTH_COST as int,
                    )
                } else {
                    &&& final(plant).structure.voxel_positions@ == old(
                        plant,
                    ).structure.voxel_positions@.push(target)
                    &&& final(plant).structure.leaf_positions@ == old(
                        plant,
                    ).structure.leaf_positions@
                    &&& final(plant).biology.energy == spec_energy_sub(
                        old(plant).biology.energy,
                        BASE_GROWTH_COST as int,
                    )
                })
            } else {
                &&& *final(plant) == *old(plant)
                &&& *final(world) == *old(world)
            }
        }),
{
    let new_pos = VoxelPos { x: from_pos.x, y: from_pos.y + 1, z: from_pos.z };
    if can_grow_at(&new_pos, world) && plant.structure.voxel_positions.len() < (
    u32::MAX as usize) {
        let ghost w1 = *world;
        grow_voxel(plant, world, new_pos);
        let ghost w2 = *world;
        if leaf_roll < plant.genome.get_leaf_density() {
            let ghost list2 = plant.structure.voxel_positions@;
            add_leaf(plant, world, new_pos, leaf_dir);
            proof {
                lemma_growth_frame_trans(w1, w2, *world, old(plant).spec_tag());
                assert forall|q: VoxelPos|
                    w1.spec_in_bounds(q) && world.spec_at(q) != w1.spec_at(
                        q,
                    ) implies plant.structure.voxel_positions@.contains(q) by {
                    if w2.spec_at(q) != w1.spec_at(q) {
                        lemma_prefix_contains(
                            list2,
                            plant.structure.voxel_positions@,
                            q,
                        );
                    }
                }
            }
        }
    }
}

/// Tries to grow a branch sideways from `from_pos` in the chosen one of the
/// four horizontal directions; branches sprout leaves half again as often
/// as upward growth.
pub fn try_grow_branch(
    plant: &mut Plant,
    world: &mut VoxelWorld,
    from_pos: VoxelPos,
    dir: u32,
    leaf_roll: u32,
    leaf_dir: u32,
)
    requires
        old(plant).wf(),
        old(world).wf(),
        old(world).env_ok(),
        old(world).spec_in_bounds(from_pos),
        dir < 4,
        leaf_dir < 5,
        plant_tags_grid(*old(world), *old(plant)),
    ensures
        final(plant).wf(),
        final(world).wf(),
        final(world).env_ok(),
        plant_tags_grid(*final(world), *final(plant)),
        growth_frame(*old(world), *final(world), old(plant).spec_tag()),
        final(plant).id == old(plant).id,
        final(plant).genome == old(plant).genome,
        final(plant).lineage == old(plant).lineage,
        final(plant).growth_timer == old(plant).growth_timer,
        final(plant).biology.is_alive == old(plant).biology.is_alive,
        final(plant).biology.age == old(plant).biology.age,
        final(plant).biology.energy <= old(plant).biology.energy,
        final(plant).structure.root_position == old(plant).structure.root_position,
        old(plant).structure.voxel_positions@.is_prefix_of(
            final(plant).structure.voxel_positions@,
        ),
        old(plant).structure.leaf_positions@.is_prefix_of(final(plant).structure.leaf_positions@),
        final(plant).structure.root_positions@ == old(plant).structure.root_positions@,
        forall|q: VoxelPos|
            old(world).spec_in_bounds(q) && final(world).spec_at(q) != old(world).spec_at(q)
                ==> final(plant).structure.voxel_positions@.contains(q),
        ({
            let target = spec_branch_target(from_pos, dir as int);
            let trunk = old(world).spec_in_bounds(target) && old(world).spec_at(
                target,
            ).voxel_type is Air && spec_can_extend(*old(plant));
            if trunk {
                let leaf_target = spec_leaf_target(target, leaf_dir as int);
                let leaf = leaf_roll < spec_leaf_density(old(plant).genome) * 3 / 2 && old(
                    world,
                ).spec_in_bounds(leaf_target) && old(world).spec_at(
                    leaf_target,
                ).voxel_type is Air && old(plant).structure.voxel_positions@.len() + 1 < u32::MAX
                    && old(plant).structure.leaf_positions@.len() < u32::MAX;
                &&& final(world).spec_at(target).voxel_type == old(plant).spec_tag()
                &&& final(plant).biology.total_mass
                    == final(plant).structure.voxel_positions@.len()
                &&& (if leaf {
                    &&& final(plant).structure.voxel_positions@ == old(
                        plant,
                    ).structure.voxel_positions@.push(target).push(leaf_target)
                    &&& final(plant).structure.leaf_positions@ == old(
                        plant,
                    ).structure.leaf_positions@.push(leaf_target)
                    &&& final(world).spec_at(leaf_target).voxel_type == old(plant).spec_tag()
                    &&& final(plant).biology.energy == spec_energy_sub(
                        old(plant).biology.energy,
                        2 * BASE_GROWTH_COST as int,
                    )
                } else {
                    &&& final(plant).structure.voxel_positions@ == old(
                        plant,
                    ).structure.voxel_positions@.push(target)
                    &&& final(plant).structure.leaf_positions@ == old(
                        plant,
                    ).structure.leaf_positions@
                    &&& final(plant).biology.energy == spec_energy_sub(
                        old(plant).biology.energy,
                        BASE_GROWTH_COST as int,
                    )
                })
            } else {
                &&& *final(plant) == *old(plant)
                &&& *final(world) == *old(world)
            }
        }),
{
    let new_pos: VoxelPos = if dir == 0 {
        VoxelPos { x: from_pos.x + 1, y: from_pos.y, z: from_pos.z }
    } else if dir == 1 {
        VoxelPos { x: from_pos.x - 1, y: from_pos.y, z: from_pos.z }
    } else if dir == 2 {
        VoxelPos { x: from_pos.x, y: from_pos.y, z: from_pos.z + 1 }
    } else {
        VoxelPos { x: from_pos.x, y: from_pos.y, z: from_pos.z - 1 }
    };
    if can_grow_at(&new_pos, world) && plant.structure.voxel_positions.len() < (
    u32::MAX as usize) {
        let ghost w1 = *world;
        grow_voxel(plant, world, new_pos);
        let ghost w2 = *world;
        let leaf_chance: u32 = plant.genome.get_leaf_density() * 3 / 2;
        if leaf_roll < leaf_chance {
            let ghost list2 = plant.structure.voxel_positions@;
            add_leaf(plant, world, new_pos, leaf_dir);
            proof {
                lemma_growth_frame_trans(w1, w2, *world, old(plant).spec_tag());
                assert forall|q: VoxelPos|
                    w1.spec_in_bounds(q) && world.spec_at(q) != w1.spec_at(
                        q,
                    ) implies plant.structure.voxel_positions@.contains(q) by {
                    if w2.spec_at(q) != w1.spec_at(q) {
                        lemma_prefix_contains(
                            list2,
                            plant.structure.voxel_positions@,
                            q,
                        );
                    }
                }
            }
        }
    }
}

/// The deepest root voxel: the first listed position (from `i` on) of
/// minimal height, starting from `best`.
pub open spec fn spec_deepest_from(roots: Seq<VoxelPos>, i: int, best: VoxelPos) -> VoxelPos
    decreases roots.len() - i,
{
    if i < 0 || i >= roots.len() {
        best
    } else {
        spec_deepest_from(
            roots,
            i + 1,
            if roots[i].y < best.y {
                roots[i]
            } else {
                best
            },
        )
    }
}

/// Tries one root-growth step: if the deepest root has not yet reached the
/// genome's depth limit below the plant's root position, the cell directly
/// below it is claimed if it is air or soil — roots may displace soil — and
/// joins the root list.
pub fn try_grow_root(plant: &mut Plant, world: &mut VoxelWorld)
    requires
        old(plant).wf(),
        old(world).wf(),
        old(world).env_ok(),
        plant_tags_grid(*old(world), *old(plant)),
    ensures
        final(plant).wf(),
        final(world).wf(),
        final(world).env_ok(),
        plant_tags_grid(*final(world), *final(plant)),
        growth_frame(*old(world), *final(world), old(plant).spec_tag()),
        final(plant).id == old(plant).id,
        final(plant).genome == old(plant).genome,
        final(plant).lineage == old(plant).lineage,
        final(plant).growth_timer == old(plant).growth_timer,
        final(plant).biology.is_alive == old(plant).biology.is_alive,
        final(plant).biology.age == old(plant).biology.age,
        final(plant).biology.energy <= old(plant).biology.energy,
        final(plant).structure.root_position == old(plant).structure.root_position,
        old(plant).structure.voxel_positions@.is_prefix_of(
            final(plant).structure.voxel_positions@,
        ),
        final(plant).structure.leaf_positions@ == old(plant).structure.leaf_positions@,
        old(plant).structure.root_positions@.is_prefix_of(final(plant).structure.root_positions@),
        forall|q: VoxelPos|
            old(world).spec_in_bounds(q) && final(world).spec_at(q) != old(world).spec_at(q)
                ==> final(plant).structure.voxel_positions@.contains(q),
        ({
            let deepest = spec_deepest_from(
                old(plant).structure.root_positions@,
                0,
                old(plant).structure.root_position,
            );
            let limit = old(plant).structure.root_position.y - spec_root_depth(old(plant).genome);
            let target = VoxelPos { x: deepest.x, y: (deepest.y - 1) as i32, z: deepest.z };
            let succeeds = deepest.y > limit && deepest.y != i32::MIN && old(
                world,
            ).spec_in_bounds(target) && (old(world).spec_at(target).voxel_type is Air || old(
                world,
            ).spec_at(target).voxel_type is Soil) && spec_can_extend(*old(plant)) && old(
                plant,
            ).structure.root_positions@.len() < u32::MAX;
            if succeeds {
                &&& final(world).spec_at(target).voxel_type == old(plant).spec_tag()
                &&& final(plant).structure.voxel_positions@ == old(
                    plant,
                ).structure.voxel_positions@.push(target)
                &&& final(plant).structure.root_positions@ == old(
                    plant,
                ).structure.root_positions@.push(target)
                &&& final(plant).biology.energy == spec_energy_sub(
                    old(plant).biology.energy,
                    BASE_GROWTH_COST as int,
                )
                &&& final(plant).biology.total_mass
                    == final(plant).structure.voxel_positions@.len()
            } else {
                &&& *final(plant) == *old(plant)
                &&& *final(world) == *old(world)
            }
        }),
{
    let ghost roots = plant.structure.root_positions@;
    let mut deepest: VoxelPos = plant.structure.root_position;
    let n = plant.structure.root_positions.len();
    let mut i: usize = 0;
    while i < n
        invariant
            *plant == *old(plant),
            roots == plant.structure.root_positions@,
            n == roots.len(),
            i <= n,
            spec_deepest_from(roots, 0, plant.structure.root_position) == spec_deepest_from(
                roots,
                i as int,
                deepest,
            ),
        decreases n - i,
    {
        let p: VoxelPos = plant.structure.root_positions[i];
        if p.y < deepest.y {
            deepest = p;
        }
        i = i + 1;
    }
    proof {
        assert(deepest == spec_deepest_from(roots, 0, plant.structure.root_position));
    }
    let max_depth: i64 = (plant.structure.root_position.y as i64) - (
    plant.genome.get_root_depth() as i64);
    if (deepest.y as i64) <= max_depth {
        return ;
    }
    if deepest.y == i32::MIN {
        return ;
    }
    let new_pos = VoxelPos { x: deepest.x, y: deepest.y - 1, z: deepest.z };
    if can_grow_root_at(&new_pos, world) && plant.structure.voxel_positions.len() < (
    u32::MAX as usize) && plant.structure.root_positions.len() < (u32::MAX as usize) {
        grow_voxel(plant, world, new_pos);
        plant.structure.root_positions.push(new_pos);
    }
}

/// The highest occupied voxel of the plant: a listed position whose height
/// no other listed position exceeds.
pub fn highest_position(plant: &Plant) -> (r: VoxelPos)
    requires
        plant.structure.voxel_positions@.len() >= 1,
    ensures
        exists|k: int|
            0 <= k < plant.structure.voxel_positions@.len()
                && r == plant.structure.voxel_positions@[k],
        forall|k: int|
            0 <= k < plant.structure.voxel_positions@.len() ==> (
            #[trigger] plant.structure.voxel_positions@[k]).y <= r.y,
{
    let mut best: VoxelPos = plant.structure.voxel_positions[0];
    let n = plant.structure.voxel_positions.len();
    let mut i: usize = 1;
    while i < n
        invariant
            n == plant.structure.voxel_positions@.len(),
            1 <= i <= n,
            exists|k: int| 0 <= k < n && best == plant.structure.voxel_positions@[k],
            forall|k: int|
                0 <= k < i ==> (#[trigger] plant.structure.voxel_positions@[k]).y <= best.y,
        decreases n - i,
    {
        let p: VoxelPos = plant.structure.voxel_positions[i];
        if p.y > best.y {
            best = p;
        }
        i = i + 1;
    }
    best
}

/// One plant's growth tick: the interval accumulator advances, and when it
/// fires, an eligible plant — alive, holding at least the growth cost, and
/// below its genome's height limit — attempts a branch or upward growth and
/// possibly a root step, each claim re-validated against the live grid.
pub fn grow_plant(plant: &mut Plant, world: &mut VoxelWorld, rng: &mut rand::rngs::ThreadRng, dt: u32)
    requires
        old(plant).wf(),
        old(world).wf(),
        old(world).env_ok(),
        dt <= DT_MAX_MS,
        plant_tags_grid(*old(world), *old(plant)),
    ensures
        final(plant).wf(),
        final(world).wf(),
        final(world).env_ok(),
        plant_tags_grid(*final(world), *final(plant)),
        growth_frame(*old(world), *final(world), old(plant).spec_tag()),
        final(plant).id == old(plant).id,
        final(plant).genome == old(plant).genome,
        final(plant).lineage == old(plant).lineage,
        final(plant).biology.is_alive == old(plant).biology.is_alive,
        final(plant).biology.age == old(plant).biology.age,
        final(plant).biology.energy <= old(plant).biology.energy,
        final(plant).structure.root_position == old(plant).structure.root_position,
        old(plant).structure.voxel_positions@.is_prefix_of(
            final(plant).structure.voxel_positions@,
        ),
        old(plant).structure.leaf_positions@.is_prefix_of(final(plant).structure.leaf_positions@),
        old(plant).structure.root_positions@.is_prefix_of(final(plant).structure.root_positions@),
        forall|q: VoxelPos|
            old(world).spec_in_bounds(q) && final(world).spec_at(q) != old(world).spec_at(q)
                ==> final(plant).structure.voxel_positions@.contains(q),
        !old(plant).biology.is_alive ==> *final(plant) == *old(plant) && *final(world) == *old(
            world,
        ),
        old(plant).biology.is_alive ==> final(plant).growth_timer.elapsed_ms == (old(
            plant,
        ).growth_timer.elapsed_ms + dt) as int % GROWTH_INTERVAL_MS as int,
        old(plant).biology.is_alive && (old(plant).growth_timer.elapsed_ms + dt
            < GROWTH_INTERVAL_MS || old(plant).biology.energy < BASE_GROWTH_COST || old(
            plant,
        ).structure.voxel_positions@.len() == 0 || (exists|k: int|
            0 <= k < old(plant).structure.voxel_positions@.len() && (
            #[trigger] old(plant).structure.voxel_positions@[k]).y >= old(
                plant,
            ).structure.root_position.y + spec_max_height(old(plant).genome))) ==> ({
            let p1 = *old(plant);
            let p2 = *final(plant);
            &&& *final(world) == *old(world)
            &&& p2.biology == p1.biology
            &&& p2.structure.voxel_positions@ == p1.structure.voxel_positions@
            &&& p2.structure.leaf_positions@ == p1.structure.leaf_positions@
            &&& p2.structure.root_positions@ == p1.structure.root_positions@
        }),
        old(plant).biology.is_alive ==> ({
            let claimed = final(plant).structure.voxel_positions@.len() - old(
                plant,
            ).structure.voxel_positions@.len();
            &&& claimed <= 3
            &&& final(plant).biology.energy == spec_energy_sub(
                old(plant).biology.energy,
                claimed * (BASE_GROWTH_COST as int),
            )
            &&& (claimed > 0 ==> final(plant).biology.total_mass
                == final(plant).structure.voxel_positions@.len())
        }),
{
    if !plant.biology.is_alive {
        return ;
    }
    let fired = plant.growth_timer.tick(dt);
    if !fired {
        return ;
    }
    if plant.biology.energy < BASE_GROWTH_COST {
        return ;
    }
    if plant.structure.voxel_positions.len() == 0 {
        return ;
    }
    let highest = highest_position(plant);
    let max_height: i32 = plant.genome.get_max_height();
    if (highest.y as i64) >= (plant.structure.root_position.y as i64) + (max_height as i64) {
        return ;
    }
    let ghost w0 = *world;
    let ghost tag = plant.spec_tag();
    let branch_roll = rng_below(rng, SCALE);
    if branch_roll < plant.genome.get_branching_frequency() {
        let len32: u32 = if plant.structure.voxel_positions.len() >= (u32::MAX as usize) {
            u32::MAX
        } else {
            plant.structure.voxel_positions.len() as u32
        };
        let idx = rng_below(rng, len32);
        let from_pos: VoxelPos = plant.structure.voxel_positions[idx as usize];
        let dir = rng_below(rng, 4);
        let leaf_roll = rng_below(rng, SCALE);
        let leaf_dir = rng_below(rng, 5);
        try_grow_branch(plant, world, from_pos, dir, leaf_roll, leaf_dir);
    } else {
        let leaf_roll = rng_below(rng, SCALE);
        let leaf_dir = rng_below(rng, 5);
        try_grow_upward(plant, world, highest, leaf_roll, leaf_dir);
    }
    let ghost w1 = *world;
    let ghost list1 = plant.structure.voxel_positions@;
    let ghost e0 = old(plant).biology.energy;
    let ghost len0 = old(plant).structure.voxel_positions@.len() as int;
    let root_roll = rng_below(rng, SCALE);
    if root_roll < ROOT_GROWTH_CHANCE {
        try_grow_root(plant, world);
        proof {
            lemma_growth_frame_trans(w0, w1, *world, tag);
            assert forall|q: VoxelPos|
                w0.spec_in_bounds(q) && world.spec_at(q) != w0.spec_at(
                    q,
                ) implies plant.structure.voxel_positions@.contains(q) by {
                if w1.spec_at(q) != w0.spec_at(q) {
                    lemma_prefix_contains(
                        list1,
                        plant.structure.voxel_positions@,
                        q,
                    );
                }
            }
        }
    }
    proof {
        let d1 = (list1.len() - len0) * (BASE_GROWTH_COST as int);
        let d2 = (plant.structure.voxel_positions@.len() - list1.len()) * (
        BASE_GROWTH_COST as int);
        crate::plant::lemma_energy_sub_chain(e0, d1, d2);
    }
}

/// The growth pass over the whole population, in vector order: claims by
/// one plant are immediately visible to the checks of those after it, so no
/// two plants claim the same cell.
pub fn plant_growth_system(
    plants: &mut Vec<Plant>,
    world: &mut VoxelWorld,
    rng: &mut rand::rngs::ThreadRng,
    dt: u32,
)
    requires
        forall|i: int| 0 <= i < old(plants)@.len() ==> (#[trigger] old(plants)@[i]).wf(),
        old(world).wf(),
        old(world).env_ok(),
        dt <= DT_MAX_MS,
        population_consistent(*old(world), old(plants)@),
        grid_covered(*old(world), old(plants)@),
    ensures
        final(plants)@.len() == old(plants)@.len(),
        forall|i: int| 0 <= i < old(plants)@.len() ==> (#[trigger] final(plants)@[i]).wf(),
        final(world).wf(),
        final(world).env_ok(),
        population_consistent(*final(world), final(plants)@),
        grid_covered(*final(world), final(plants)@),
        claims_only_frame(*old(world), *final(world)),
        forall|i: int|
            0 <= i < old(plants)@.len() ==> {
                let p1 = old(plants)@[i];
                let p2 = #[trigger] final(plants)@[i];
                &&& p2.id == p1.id
                &&& p2.genome == p1.genome
                &&& p2.lineage == p1.lineage
                &&& p2.biology.is_alive == p1.biology.is_alive
                &&& p2.biology.age == p1.biology.age
                &&& p2.biology.energy <= p1.biology.energy
                &&& p2.structure.root_position == p1.structure.root_position
                &&& p1.structure.voxel_positions@.is_prefix_of(p2.structure.voxel_positions@)
                &&& p1.structure.leaf_positions@.is_prefix_of(p2.structure.leaf_positions@)
                &&& p1.structure.root_positions@.is_prefix_of(p2.structure.root_positions@)
            },
        forall|i: int|
            0 <= i < old(plants)@.len() && old(plants)@[i].biology.is_alive ==> {
                let p1 = old(plants)@[i];
                let p2 = #[trigger] final(plants)@[i];
                let claimed = p2.structure.voxel_positions@.len()
                    - p1.structure.voxel_positions@.len();
                &&& p2.growth_timer.elapsed_ms == (p1.growth_timer.elapsed_ms + dt) as int
                    % GROWTH_INTERVAL_MS as int
                &&& claimed <= 3
                &&& p2.biology.energy == spec_energy_sub(
                    p1.biology.energy,
                    claimed * (BASE_GROWTH_COST as int),
                )
                &&& (claimed > 0 ==> p2.biology.total_mass
                    == p2.structure.voxel_positions@.len())
                &&& ((p1.growth_timer.elapsed_ms + dt < GROWTH_INTERVAL_MS
                    || p1.biology.energy < BASE_GROWTH_COST
                    || p1.structure.voxel_positions@.len() == 0 || (exists|k: int|
                    0 <= k < p1.structure.voxel_positions@.len() && (
                    #[trigger] p1.structure.voxel_positions@[k]).y
                        >= p1.structure.root_position.y + spec_max_height(p1.genome))) ==> p2.biology == p1.biology
                    && p2.structure.voxel_positions@ == p1.structure.voxel_positions@
                    && p2.structure.leaf_positions@ == p1.structure.leaf_positions@
                    && p2.structure.root_positions@ == p1.structure.root_positions@)
            },
        forall|i: int|
            0 <= i < old(plants)@.len() && !old(plants)@[i].biology.is_alive
                ==> #[trigger] final(plants)@[i] == old(plants)@[i],
{
    let n = plants.len();
    let mut i: usize = 0;
    while i < n
        invariant
            n == old(plants)@.len(),
            plants@.len() == n,
            i <= n,
            world.wf(),
            world.env_ok(),
            dt <= DT_MAX_MS,
            claims_only_frame(*old(world), *world),
            population_consistent(*world, plants@),
            grid_covered(*world, plants@),
            forall|j: int| 0 <= j < n ==> (#[trigger] plants@[j]).wf(),
            forall|j: int| i <= j < n ==> #[trigger] plants@[j] == old(plants)@[j],
            forall|j: int|
                0 <= j < n ==> {
                    let p1 = old(plants)@[j];
                    let p2 = #[trigger] plants@[j];
                    &&& p2.id == p1.id
                    &&& p2.genome == p1.genome
                    &&& p2.lineage == p1.lineage
                    &&& p2.biology.is_alive == p1.biology.is_alive
                    &&& p2.biology.age == p1.biology.age
                    &&& p2.biology.energy <= p1.biology.energy
                    &&& p2.structure.root_position == p1.structure.root_position
                    &&& p1.structure.voxel_positions@.is_prefix_of(p2.structure.voxel_positions@)
                    &&& p1.structure.leaf_positions@.is_prefix_of(p2.structure.leaf_positions@)
                    &&& p1.structure.root_positions@.is_prefix_of(p2.structure.root_positions@)
                },
            forall|j: int|
                0 <= j < i && old(plants)@[j].biology.is_alive ==> {
                    let p1 = old(plants)@[j];
                    let p2 = #[trigger] plants@[j];
                    let claimed = p2.structure.voxel_positions@.len()
                        - p1.structure.voxel_positions@.len();
                    &&& p2.growth_timer.elapsed_ms == (p1.growth_timer.elapsed_ms + dt) as int
                        % GROWTH_INTERVAL_MS as int
                    &&& claimed <= 3
                    &&& p2.biology.energy == spec_energy_sub(
                        p1.biology.energy,
                        claimed * (BASE_GROWTH_COST as int),
                    )
                    &&& (claimed > 0 ==> p2.biology.total_mass
                        == p2.structure.voxel_positions@.len())
                    &&& ((p1.growth_timer.elapsed_ms + dt < GROWTH_INTERVAL_MS
                        || p1.biology.energy < BASE_GROWTH_COST
                        || p1.structure.voxel_positions@.len() == 0 || (exists|k: int|
                        0 <= k < p1.structure.voxel_positions@.len() && (
                        #[trigger] p1.structure.voxel_positions@[k]).y
                            >= p1.structure.root_position.y + spec_max_height(p1.genome))) ==> p2.biology == p1.biology
                        && p2.structure.voxel_positions@ == p1.structure.voxel_positions@
                        && p2.structure.leaf_positions@ == p1.structure.leaf_positions@
                        && p2.structure.root_positions@ == p1.structure.root_positions@)
                },
            forall|j: int|
                0 <= j < n && !old(plants)@[j].biology.is_alive ==> #[trigger] plants@[j] == old(
                    plants,
                )@[j],
        decreases n - i,
    {
        let ghost wmid = *world;
        let ghost plants_mid = plants@;
        grow_plant(&mut plants[i], world, rng, dt);
        proof {
            let tag = plants_mid[i as int].spec_tag();
            assert(growth_frame(wmid, *world, tag));
            assert forall|q: VoxelPos| wmid.spec_in_bounds(q) implies #[trigger] world.spec_at(q)
                == wmid.spec_at(q) || (!(wmid.spec_at(q).voxel_type is PlantMaterial)
                && world.spec_at(q).voxel_type is PlantMaterial && world.spec_at(q).environment
                == wmid.spec_at(q).environment) by {
                assert(world.spec_at(q) == wmid.spec_at(q) || (!(wmid.spec_at(
                    q,
                ).voxel_type is PlantMaterial) && world.spec_at(q).voxel_type == tag
                    && world.spec_at(q).environment == wmid.spec_at(q).environment));
            }
            lemma_claims_only_trans(*old(world), wmid, *world);
            assert forall|j: int| 0 <= j < n implies plant_tags_grid(
                *world,
                #[trigger] plants@[j],
            ) by {
                if j != i {
                    assert(plants@[j] == plants_mid[j]);
                    assert(plant_tags_grid(wmid, plants_mid[j]));
                    crate::plant::lemma_tags_preserved(wmid, *world, plants_mid[j]);
                }
            }
            assert forall|q: VoxelPos|
                world.spec_in_bounds(q) && (#[trigger] world.spec_at(
                    q,
                )).voxel_type is PlantMaterial implies exists|j: int|
                0 <= j < plants@.len() && (#[trigger] plants@[j]).spec_tag() == world.spec_at(
                    q,
                ).voxel_type && plants@[j].structure.voxel_positions@.contains(q) by {
                if world.spec_at(q) != wmid.spec_at(q) {
                    // A fresh claim of the plant just processed.
                    assert(plants@[i as int].structure.voxel_positions@.contains(q));
                    assert(world.spec_at(q).voxel_type == plants_mid[i as int].spec_tag());
                    assert(plants@[i as int].spec_tag() == plants_mid[i as int].spec_tag());
                } else {
                    // A cell already covered before this plant's turn.
                    assert(wmid.spec_at(q).voxel_type is PlantMaterial);
                    let j = choose|j: int|
                        0 <= j < plants_mid.len() && (#[trigger] plants_mid[j]).spec_tag()
                            == wmid.spec_at(q).voxel_type
                            && plants_mid[j].structure.voxel_positions@.contains(q);
                    if j == i {
                        lemma_prefix_contains(
                            plants_mid[j].structure.voxel_positions@,
                            plants@[j].structure.voxel_positions@,
                            q,
                        );
                        assert(plants@[j].spec_tag() == plants_mid[j].spec_tag());
                    } else {
                        assert(plants@[j] == plants_mid[j]);
                    }
                }
            }
        }
        i = i + 1;
    }
}

} // verus!
