//! The metabolic engine: photosynthesis over leaf light, resource
//! absorption through roots, maintenance drain with a height surcharge, the
//! death transition, and aging.

use vstd::prelude::*;
use crate::config::{
    ABSORPTION_TO_ENERGY, AGE_CAP, BASE_MAINTENANCE_COST, DT_MAX_MS, FLOW_SAT,
    PHOTOSYNTHESIS_EFFICIENCY, ROOT_ABSORPTION_RATE, SOIL_NUTRIENT_MAX, SOIL_WATER_MAX,
    SUNLIGHT_MAX, TRANSPORT_COST,
};
use crate::genetics::Genome;
use crate::plant::{energy_add, energy_sub, spec_energy_add, spec_energy_sub, Plant, PlantBiology};
use crate::voxel::{Voxel, VoxelEnvironment, VoxelPos, VoxelWorld};

verus! {

use vstd::arithmetic::div_mod::lemma_div_is_ordered;

/// Caps a per-tick energy flow at its saturation bound.
pub open spec fn cap_flow(v: int) -> int {
    if v > FLOW_SAT {
        FLOW_SAT as int
    } else {
        v
    }
}

/// The plant with its biological state replaced and all else unchanged.
pub open spec fn with_biology(p: Plant, b: PlantBiology) -> Plant {
    Plant {
        id: p.id,
        genome: p.genome,
        biology: b,
        structure: p.structure,
        lineage: p.lineage,
        growth_timer: p.growth_timer,
    }
}

/// The plant with only its energy replaced.
pub open spec fn with_energy(p: Plant, e: i64) -> Plant {
    with_biology(
        p,
        PlantBiology {
            energy: e,
            age: p.biology.age,
            is_alive: p.biology.is_alive,
            total_mass: p.biology.total_mass,
        },
    )
}

/// Adds two energy flows, saturating at the flow bound.
fn flow_add(a: u64, b: u64) -> (r: u64)
    requires
        a <= FLOW_SAT,
        b <= FLOW_SAT,
    ensures
        r == cap_flow(a + b),
        r <= FLOW_SAT,
{
    if a + b > FLOW_SAT {
        FLOW_SAT
    } else {
        a + b
    }
}

/// The decoded photosynthesis efficiency of a genome, in thousandths.
pub open spec fn spec_photo_efficiency(g: Genome) -> int {
    300 + g.photosynthesis_efficiency.value * 1200 / 1000
}

/// Energy gained from one leaf receiving the given light over `dt`
/// milliseconds, in thousandths of an energy unit.
pub open spec fn spec_photo_gain_at(light: int, eff: int, dt: int) -> int {
    ((light * PHOTOSYNTHESIS_EFFICIENCY / 1000) * eff / 1000) * dt / 1000
}

/// Total photosynthesis gain over a leaf list: each in-bounds leaf
/// contributes the gain of its cell's light level; the running sum
/// saturates at the flow bound.
pub open spec fn spec_photo_sum(w: VoxelWorld, leaves: Seq<VoxelPos>, eff: int, dt: int) -> int
    decreases leaves.len(),
{
    if leaves.len() == 0 {
        0
    } else {
        let rest = spec_photo_sum(w, leaves.drop_last(), eff, dt);
        let p = leaves.last();
        if w.spec_in_bounds(p) {
            cap_flow(
                rest + spec_photo_gain_at(
                    w.spec_at(p).environment.light_level as int,
                    eff,
                    dt,
                ),
            )
        } else {
            rest
        }
    }
}

/// Energy gained from one leaf: exactly the fixed-point formula.
fn photo_gain_at(light: u32, eff: u32, dt: u32) -> (r: u64)
    requires
        light <= SUNLIGHT_MAX,
        eff <= 1500,
        dt <= DT_MAX_MS,
    ensures
        r == spec_photo_gain_at(light as int, eff as int, dt as int),
        r <= 300_000_000,
{
    proof {
        assert(light * PHOTOSYNTHESIS_EFFICIENCY <= 50_000_000) by (nonlinear_arith)
            requires
                light <= 100_000,
                PHOTOSYNTHESIS_EFFICIENCY == 500,
        ;
    }
    let a: u64 = (light as u64) * (PHOTOSYNTHESIS_EFFICIENCY as u64) / 1000;
    proof {
        lemma_div_is_ordered(light * PHOTOSYNTHESIS_EFFICIENCY, 50_000_000, 1000);
        assert(a <= 50_000);
        assert(a * eff <= 75_000_000) by (nonlinear_arith)
            requires
                a <= 50_000,
                eff <= 1500,
        ;
    }
    let b: u64 = a * (eff as u64) / 1000;
    proof {
        lemma_div_is_ordered(a * eff, 75_000_000, 1000);
        assert(b <= 75_000);
        assert(b * dt <= 270_000_000_000) by (nonlinear_arith)
            requires
                b <= 75_000,
                dt <= DT_MAX_MS,
        ;
    }
    let c: u64 = b * (dt as u64) / 1000;
    proof {
        lemma_div_is_ordered(b * dt, 270_000_000_000, 1000);
    }
    c
}

/// Photosynthesis for one plant: a living plant gains the summed leaf
/// contribution; a dead plant is untouched.
pub fn photosynthesize_plant(plant: &mut Plant, world: &VoxelWorld, dt: u32)
    requires
        old(plant).wf(),
        world.wf(),
        world.env_ok(),
        dt <= DT_MAX_MS,
    ensures
        final(plant).wf(),
        !old(plant).biology.is_alive ==> *final(plant) == *old(plant),
        old(plant).biology.is_alive ==> *final(plant) == with_energy(
            *old(plant),
            spec_energy_add(
                old(plant).biology.energy,
                spec_photo_sum(
                    *world,
                    old(plant).structure.leaf_positions@,
                    spec_photo_efficiency(old(plant).genome),
                    dt as int,
                ),
            ),
        ),
{
    if !plant.biology.is_alive {
        return ;
    }
    let eff: u32 = plant.genome.get_photosynthesis_efficiency();
    let ghost leaves = plant.structure.leaf_positions@;
    let mut acc: u64 = 0;
    let n = plant.structure.leaf_positions.len();
    let mut i: usize = 0;
    while i < n
        invariant
            *plant == *old(plant),
            plant.wf(),
            world.wf(),
            world.env_ok(),
            dt <= DT_MAX_MS,
            eff == spec_photo_efficiency(plant.genome),
            eff <= 1500,
            leaves == plant.structure.leaf_positions@,
            n == leaves.len(),
            i <= n,
            acc == spec_photo_sum(*world, leaves.take(i as int), eff as int, dt as int),
            acc <= FLOW_SAT,
        decreases n - i,
    {
        let p: VoxelPos = plant.structure.leaf_positions[i];
        match world.get(&p) {
            Some(v) => {
                proof {
                    world.lemma_index_of(p);
                }
                let g = photo_gain_at(v.environment.light_level, eff, dt);
                acc = flow_add(acc, g);
            },
            None => {},
        }
        proof {
            assert(leaves.take(i + 1).drop_last() =~= leaves.take(i as int));
            assert(leaves.take(i + 1).last() == leaves[i as int]);
        }
        i = i + 1;
    }
    proof {
        assert(leaves.take(n as int) =~= leaves);
    }
    plant.biology.energy = energy_add(plant.biology.energy, acc);
}

/// Photosynthesis for the whole population.
pub fn photosynthesis_system(plants: &mut Vec<Plant>, world: &VoxelWorld, dt: u32)
    requires
        forall|i: int| 0 <= i < old(plants)@.len() ==> (#[trigger] old(plants)@[i]).wf(),
        world.wf(),
        world.env_ok(),
        dt <= DT_MAX_MS,
    ensures
        final(plants)@.len() == old(plants)@.len(),
        forall|i: int| 0 <= i < old(plants)@.len() ==> (#[trigger] final(plants)@[i]).wf(),
        forall|i: int|
            0 <= i < old(plants)@.len() && !old(plants)@[i].biology.is_alive
                ==> #[trigger] final(plants)@[i] == old(plants)@[i],
        forall|i: int|
            0 <= i < old(plants)@.len() && old(plants)@[i].biology.is_alive
                ==> #[trigger] final(plants)@[i] == with_energy(
                old(plants)@[i],
                spec_energy_add(
                    old(plants)@[i].biology.energy,
                    spec_photo_sum(
                        *world,
                        old(plants)@[i].structure.leaf_positions@,
                        spec_photo_efficiency(old(plants)@[i].genome),
                        dt as int,
                    ),
                ),
            ),
{
    let n = plants.len();
    let mut i: usize = 0;
    while i < n
        invariant
            n == old(plants)@.len(),
            plants@.len() == n,
            i <= n,
            world.wf(),
            world.env_ok(),
            dt <= DT_MAX_MS,
            forall|j: int| 0 <= j < n ==> (#[trigger] old(plants)@[j]).wf(),
            forall|j: int| i <= j < n ==> #[trigger] plants@[j] == old(plants)@[j],
            forall|j: int| 0 <= j < i ==> (#[trigger] plants@[j]).wf(),
            forall|j: int|
                0 <= j < i && !old(plants)@[j].biology.is_alive ==> #[trigger] plants@[j] == old(
                    plants,
                )@[j],
            forall|j: int|
                0 <= j < i && old(plants)@[j].biology.is_alive ==> #[trigger] plants@[j]
                    == with_energy(
                    old(plants)@[j],
                    spec_energy_add(
                        old(plants)@[j].biology.energy,
                        spec_photo_sum(
                            *world,
                            old(plants)@[j].structure.leaf_positions@,
                            spec_photo_efficiency(old(plants)@[j].genome),
                            dt as int,
                        ),
                    ),
                ),
        decreases n - i,
    {
        photosynthesize_plant(&mut plants[i], world, dt);
        i = i + 1;
    }
}

/// Resources absorbed from a cell holding `avail`: the per-tick rate, or
/// whatever is left.
pub open spec fn spec_absorb_rate(dt: int) -> int {
    ROOT_ABSORPTION_RATE * dt / 1000
}

pub open spec fn spec_absorbed(avail: u32, dt: int) -> int {
    if spec_absorb_rate(dt) < avail {
        spec_absorb_rate(dt)
    } else {
        avail as int
    }
}

/// One root's absorption: the cell under the root loses up to the rate of
/// nutrients and water; the results are the new cells and the two amounts.
/// `geo` supplies the grid geometry.
pub open spec fn spec_absorb_step(geo: VoxelWorld, cells: Seq<Voxel>, p: VoxelPos, dt: int) -> (
    Seq<Voxel>,
    int,
    int,
) {
    if geo.spec_in_bounds(p) && 0 <= geo.spec_index_of(p) < cells.len() {
        let idx = geo.spec_index_of(p);
        let cell = cells[idx];
        let n_abs = spec_absorbed(cell.environment.nutrients, dt);
        let w_abs = spec_absorbed(cell.environment.water, dt);
        let cell2 = Voxel {
            voxel_type: cell.voxel_type,
            environment: VoxelEnvironment {
                light_level: cell.environment.light_level,
                nutrients: (cell.environment.nutrients - n_abs) as u32,
                water: (cell.environment.water - w_abs) as u32,
            },
        };
        (cells.update(idx, cell2), n_abs, w_abs)
    } else {
        (cells, 0, 0)
    }
}

/// Absorption over the roots from index `i` on, in list order: the final
/// cells and the summed nutrient and water amounts.
pub open spec fn spec_absorb_from(
    geo: VoxelWorld,
    cells: Seq<Voxel>,
    roots: Seq<VoxelPos>,
    dt: int,
    i: int,
) -> (Seq<Voxel>, int, int)
    decreases roots.len() - i,
{
    if i < 0 || i >= roots.len() {
        (cells, 0, 0)
    } else {
        let step = spec_absorb_step(geo, cells, roots[i], dt);
        let rest = spec_absorb_from(geo, step.0, roots, dt, i + 1);
        (rest.0, step.1 + rest.1, step.2 + rest.2)
    }
}

/// Frame of the absorption fold: cell count, materials and light are
/// untouched, stores only shrink and stay in range, and the absorbed
/// amounts are nonnegative and bounded by the store maxima per root.
pub proof fn lemma_absorb_from_frame(
    geo: VoxelWorld,
    cells: Seq<Voxel>,
    roots: Seq<VoxelPos>,
    dt: int,
    i: int,
)
    requires
        forall|j: int| 0 <= j < cells.len() ==> (#[trigger] cells[j]).environment.in_range(),
        dt >= 0,
        0 <= i <= roots.len(),
    ensures
        ({
            let r = spec_absorb_from(geo, cells, roots, dt, i);
            &&& r.0.len() == cells.len()
            &&& forall|j: int|
                0 <= j < cells.len() ==> (#[trigger] r.0[j]).voxel_type == cells[j].voxel_type
                    && r.0[j].environment.light_level == cells[j].environment.light_level
                    && r.0[j].environment.nutrients <= cells[j].environment.nutrients
                    && r.0[j].environment.water <= cells[j].environment.water
            &&& forall|j: int| 0 <= j < cells.len() ==> (#[trigger] r.0[j]).environment.in_range()
            &&& 0 <= r.1 <= (roots.len() - i) * SOIL_NUTRIENT_MAX
            &&& 0 <= r.2 <= (roots.len() - i) * SOIL_WATER_MAX
        }),
    decreases roots.len() - i,
{
    if i >= roots.len() {
    } else {
        let step = spec_absorb_step(geo, cells, roots[i], dt);
        assert(spec_absorb_rate(dt) >= 0) by (nonlinear_arith)
            requires
                dt >= 0,
        ;
        lemma_absorb_from_frame(geo, step.0, roots, dt, i + 1);
        let r = spec_absorb_from(geo, cells, roots, dt, i);
        assert((roots.len() - i - 1) * SOIL_NUTRIENT_MAX + SOIL_NUTRIENT_MAX == (roots.len() - i)
            * SOIL_NUTRIENT_MAX) by (nonlinear_arith);
        assert((roots.len() - i - 1) * SOIL_WATER_MAX + SOIL_WATER_MAX == (roots.len() - i)
            * SOIL_WATER_MAX) by (nonlinear_arith);
    }
}

/// The absorption fold reads its world argument only for the grid
/// geometry: any grid of the same dimensions gives the same result.
pub proof fn lemma_absorb_from_geo(
    g1: VoxelWorld,
    g2: VoxelWorld,
    cells: Seq<Voxel>,
    roots: Seq<VoxelPos>,
    dt: int,
    i: int,
)
    requires
        g1.same_dims(g2),
    ensures
        spec_absorb_from(g1, cells, roots, dt, i) == spec_absorb_from(g2, cells, roots, dt, i),
    decreases roots.len() - i,
{
    if 0 <= i < roots.len() {
        let p = roots[i];
        assert(g1.spec_in_bounds(p) == g2.spec_in_bounds(p));
        assert(g1.spec_index_of(p) == g2.spec_index_of(p));
        let step1 = spec_absorb_step(g1, cells, p, dt);
        let step2 = spec_absorb_step(g2, cells, p, dt);
        assert(step1 == step2);
        lemma_absorb_from_geo(g1, g2, step1.0, roots, dt, i + 1);
    }
}

/// Absorption over the whole population from index `i` on, in vector
/// order: each living plant's roots drain the shared grid left by the
/// plants before it, and its energy takes a tenth of what it absorbed.
pub open spec fn spec_absorb_pass(
    geo: VoxelWorld,
    cells: Seq<Voxel>,
    plants: Seq<Plant>,
    dt: int,
    i: int,
) -> (Seq<Voxel>, Seq<Plant>)
    decreases plants.len() - i,
{
    if i < 0 || i >= plants.len() {
        (cells, plants)
    } else {
        let p = plants[i];
        if p.biology.is_alive {
            let r = spec_absorb_from(geo, cells, p.structure.root_positions@, dt, 0);
            let p2 = with_energy(
                p,
                spec_energy_add(p.biology.energy, (r.1 + r.2) * ABSORPTION_TO_ENERGY / 1000),
            );
            spec_absorb_pass(geo, r.0, plants.update(i, p2), dt, i + 1)
        } else {
            spec_absorb_pass(geo, cells, plants, dt, i + 1)
        }
    }
}

/// Resource absorption for one plant: each root in list order drains up to
/// the per-tick rate of nutrients and water from its cell; a tenth of the
/// absorbed total becomes energy. A dead plant touches nothing.
pub fn absorb_plant(plant: &mut Plant, world: &mut VoxelWorld, dt: u32)
    requires
        old(plant).wf(),
        old(world).wf(),
        old(world).env_ok(),
        dt <= DT_MAX_MS,
    ensures
        final(plant).wf(),
        final(world).wf(),
        final(world).env_ok(),
        final(world).same_dims(*old(world)),
        forall|p: VoxelPos|
            old(world).spec_in_bounds(p) ==> (#[trigger] final(world).spec_at(p)).voxel_type
                == old(world).spec_at(p).voxel_type && final(world).spec_at(
                p,
            ).environment.light_level == old(world).spec_at(p).environment.light_level,
        !old(plant).biology.is_alive ==> *final(plant) == *old(plant) && *final(world) == *old(
            world,
        ),
        old(plant).biology.is_alive ==> ({
            let r = spec_absorb_from(
                *old(world),
                old(world).voxels@,
                old(plant).structure.root_positions@,
                dt as int,
                0,
            );
            &&& final(world).voxels@ == r.0
            &&& *final(plant) == with_energy(
                *old(plant),
                spec_energy_add(
                    old(plant).biology.energy,
                    (r.1 + r.2) * ABSORPTION_TO_ENERGY / 1000,
                ),
            )
        }),
{
    if !plant.biology.is_alive {
        return ;
    }
    let ghost geo = *old(world);
    let ghost cells0 = old(world).voxels@;
    let ghost roots = plant.structure.root_positions@;
    let rate: u32 = ((ROOT_ABSORPTION_RATE as u64) * (dt as u64) / 1000) as u32;
    let n = plant.structure.root_positions.len();
    let mut n_acc: u64 = 0;
    let mut w_acc: u64 = 0;
    let mut i: usize = 0;
    proof {
        assert(spec_absorb_rate(dt as int) == rate);
    }
    while i < n
        invariant
            *plant == *old(plant),
            plant.wf(),
            world.wf(),
            world.env_ok(),
            world.same_dims(geo),
            geo.wf(),
            dt <= DT_MAX_MS,
            rate == spec_absorb_rate(dt as int),
            roots == plant.structure.root_positions@,
            n == roots.len(),
            n <= u32::MAX,
            i <= n,
            n_acc <= i * SOIL_NUTRIENT_MAX,
            w_acc <= i * SOIL_WATER_MAX,
            world.voxels@.len() == cells0.len(),
            forall|p: VoxelPos|
                geo.spec_in_bounds(p) ==> (#[trigger] world.spec_at(p)).voxel_type == geo.spec_at(
                    p,
                ).voxel_type && world.spec_at(p).environment.light_level == geo.spec_at(
                    p,
                ).environment.light_level,
            spec_absorb_from(geo, cells0, roots, dt as int, 0).0 == spec_absorb_from(
                geo,
                world.voxels@,
                roots,
                dt as int,
                i as int,
            ).0,
            spec_absorb_from(geo, cells0, roots, dt as int, 0).1 == n_acc + spec_absorb_from(
                geo,
                world.voxels@,
                roots,
                dt as int,
                i as int,
            ).1,
            spec_absorb_from(geo, cells0, roots, dt as int, 0).2 == w_acc + spec_absorb_from(
                geo,
                world.voxels@,
                roots,
                dt as int,
                i as int,
            ).2,
        decreases n - i,
    {
        let p: VoxelPos = plant.structure.root_positions[i];
        let ghost wpre = *world;
        proof {
            assert(spec_absorb_from(geo, wpre.voxels@, roots, dt as int, i as int)
                == spec_absorb_from(geo, wpre.voxels@, roots, dt as int, i as int));
        }
        match world.get(&p) {
            Some(cell_ref) => {
                let cell: Voxel = *cell_ref;
                let n_abs: u32 = if rate < cell.environment.nutrients {
                    rate
                } else {
                    cell.environment.nutrients
                };
                let w_abs: u32 = if rate < cell.environment.water {
                    rate
                } else {
                    cell.environment.water
                };
                world.set_voxel(
                    &p,
                    Voxel {
                        voxel_type: cell.voxel_type,
                        environment: VoxelEnvironment {
                            light_level: cell.environment.light_level,
                            nutrients: cell.environment.nutrients - n_abs,
                            water: cell.environment.water - w_abs,
                        },
                    },
                );
                n_acc = n_acc + n_abs as u64;
                w_acc = w_acc + w_abs as u64;
                proof {
                    wpre.lemma_index_of(p);
                    assert forall|j: int|
                        0 <= j < world.voxels@.len() implies (
                    #[trigger] world.voxels@[j]).environment.in_range() by {
                        if j != wpre.spec_index_of(p) {
                            assert(world.voxels@[j] == wpre.voxels@[j]);
                        }
                    }
                    let step = spec_absorb_step(geo, wpre.voxels@, p, dt as int);
                    assert(geo.spec_index_of(p) == wpre.spec_index_of(p));
                    assert(world.voxels@ == step.0);
                    assert(step.1 == n_abs && step.2 == w_abs);
                }
            },
            None => {
                proof {
                    let step = spec_absorb_step(geo, wpre.voxels@, p, dt as int);
                    assert(!geo.spec_in_bounds(p));
                    assert(world.voxels@ == step.0 && step.1 == 0 && step.2 == 0);
                }
            },
        }
        proof {
            assert((i + 1) * SOIL_NUTRIENT_MAX == i * SOIL_NUTRIENT_MAX + SOIL_NUTRIENT_MAX)
                by (nonlinear_arith);
            assert((i + 1) * SOIL_WATER_MAX == i * SOIL_WATER_MAX + SOIL_WATER_MAX)
                by (nonlinear_arith);
            assert(i * SOIL_NUTRIENT_MAX <= 0xffff_ffffu64 * SOIL_NUTRIENT_MAX)
                by (nonlinear_arith)
                requires
                    0 <= i <= u32::MAX,
            ;
            assert(i * SOIL_WATER_MAX <= 0xffff_ffffu64 * SOIL_WATER_MAX) by (nonlinear_arith)
                requires
                    0 <= i <= u32::MAX,
            ;
        }
        i = i + 1;
    }
    proof {
        assert(n_acc <= n * SOIL_NUTRIENT_MAX);
        assert(n * SOIL_NUTRIENT_MAX <= 0xffff_ffffu64 * SOIL_NUTRIENT_MAX) by (nonlinear_arith)
            requires
                0 <= n <= u32::MAX,
        ;
        assert(n * SOIL_WATER_MAX <= 0xffff_ffffu64 * SOIL_WATER_MAX) by (nonlinear_arith)
            requires
                0 <= n <= u32::MAX,
        ;
    }
    let gain: u64 = (n_acc + w_acc) * (ABSORPTION_TO_ENERGY as u64) / 1000;
    proof {
        let r = spec_absorb_from(geo, cells0, roots, dt as int, 0);
        assert(r.1 == n_acc && r.2 == w_acc);
        assert(gain == (r.1 + r.2) * ABSORPTION_TO_ENERGY / 1000);
    }
    plant.biology.energy = energy_add(plant.biology.energy, gain);
}

/// Resource absorption for the whole population, in vector order: a root
/// drains what earlier plants left in shared cells.
pub fn resource_absorption_system(plants: &mut Vec<Plant>, world: &mut VoxelWorld, dt: u32)
    requires
        forall|i: int| 0 <= i < old(plants)@.len() ==> (#[trigger] old(plants)@[i]).wf(),
        old(world).wf(),
        old(world).env_ok(),
        dt <= DT_MAX_MS,
    ensures
        final(plants)@.len() == old(plants)@.len(),
        forall|i: int| 0 <= i < old(plants)@.len() ==> (#[trigger] final(plants)@[i]).wf(),
        final(world).wf(),
        final(world).env_ok(),
        final(world).same_dims(*old(world)),
        forall|p: VoxelPos|
            old(world).spec_in_bounds(p) ==> (#[trigger] final(world).spec_at(p)).voxel_type
                == old(world).spec_at(p).voxel_type && final(world).spec_at(
                p,
            ).environment.light_level == old(world).spec_at(p).environment.light_level,
        forall|i: int|
            0 <= i < old(plants)@.len() && !old(plants)@[i].biology.is_alive
                ==> #[trigger] final(plants)@[i] == old(plants)@[i],
        forall|i: int|
            0 <= i < old(plants)@.len() && old(plants)@[i].biology.is_alive ==> (
            #[trigger] final(plants)@[i]).biology.energy >= old(plants)@[i].biology.energy
                && final(plants)@[i] == with_energy(
                old(plants)@[i],
                final(plants)@[i].biology.energy,
            ),
        ({
            let r = spec_absorb_pass(
                *old(world),
                old(world).voxels@,
                old(plants)@,
                dt as int,
                0,
            );
            final(world).voxels@ == r.0 && final(plants)@ == r.1
        }),
{
    let ghost geo = *old(world);
    let ghost cells0 = old(world).voxels@;
    let ghost plants0 = old(plants)@;
    let n = plants.len();
    let mut i: usize = 0;
    while i < n
        invariant
            n == old(plants)@.len(),
            plants@.len() == n,
            i <= n,
            world.wf(),
            world.env_ok(),
            world.same_dims(*old(world)),
            dt <= DT_MAX_MS,
            forall|j: int| 0 <= j < n ==> (#[trigger] old(plants)@[j]).wf(),
            forall|j: int| i <= j < n ==> #[trigger] plants@[j] == old(plants)@[j],
            forall|j: int| 0 <= j < i ==> (#[trigger] plants@[j]).wf(),
            forall|p: VoxelPos|
                old(world).spec_in_bounds(p) ==> (#[trigger] world.spec_at(p)).voxel_type == old(
                    world,
                ).spec_at(p).voxel_type && world.spec_at(p).environment.light_level == old(
                    world,
                ).spec_at(p).environment.light_level,
            geo == *old(world),
            cells0 == old(world).voxels@,
            plants0 == old(plants)@,
            spec_absorb_pass(geo, cells0, plants0, dt as int, 0) == spec_absorb_pass(
                geo,
                world.voxels@,
                plants@,
                dt as int,
                i as int,
            ),
            forall|j: int|
                0 <= j < i && !old(plants)@[j].biology.is_alive ==> #[trigger] plants@[j] == old(
                    plants,
                )@[j],
            forall|j: int|
                0 <= j < i && old(plants)@[j].biology.is_alive ==> (
                #[trigger] plants@[j]).biology.energy >= old(plants)@[j].biology.energy
                    && plants@[j] == with_energy(old(plants)@[j], plants@[j].biology.energy),
        decreases n - i,
    {
        let ghost wmid = *world;
        let ghost pmid = plants@[i as int];
        let ghost plants_mid = plants@;
        proof {
            if pmid.biology.is_alive {
                lemma_absorb_from_frame(
                    wmid,
                    wmid.voxels@,
                    pmid.structure.root_positions@,
                    dt as int,
                    0,
                );
            }
        }
        absorb_plant(&mut plants[i], world, dt);
        proof {
            if pmid.biology.is_alive {
                lemma_absorb_from_geo(
                    wmid,
                    geo,
                    wmid.voxels@,
                    pmid.structure.root_positions@,
                    dt as int,
                    0,
                );
                let r = spec_absorb_from(
                    geo,
                    wmid.voxels@,
                    pmid.structure.root_positions@,
                    dt as int,
                    0,
                );
                let p2 = with_energy(
                    pmid,
                    spec_energy_add(
                        pmid.biology.energy,
                        (r.1 + r.2) * ABSORPTION_TO_ENERGY / 1000,
                    ),
                );
                assert(world.voxels@ == r.0);
                assert(plants@ =~= plants_mid.update(i as int, p2));
            } else {
                assert(plants@ =~= plants_mid);
                assert(*world == wmid);
            }
        }
        i = i + 1;
    }
}

/// The base maintenance drain: cost per voxel per second over the plant's
/// cell count.
pub open spec fn spec_base_maintenance(count: int, dt: int) -> int {
    count * BASE_MAINTENANCE_COST * dt / 1000
}

/// The transport surcharge of one voxel: proportional to its height above
/// the root.
pub open spec fn spec_transport_term(y: int, root_y: int, dt: int) -> int {
    if y > root_y {
        (y - root_y) * TRANSPORT_COST * dt / 1000
    } else {
        0
    }
}

/// The transport surcharge over a voxel list, saturating at the flow bound.
pub open spec fn spec_transport_sum(positions: Seq<VoxelPos>, root_y: int, dt: int) -> int
    decreases positions.len(),
{
    if positions.len() == 0 {
        0
    } else {
        cap_flow(
            spec_transport_sum(positions.drop_last(), root_y, dt) + spec_transport_term(
                positions.last().y as int,
                root_y,
                dt,
            ),
        )
    }
}

/// The full maintenance drain of a plant: base cost plus transport
/// surcharge, saturating at the flow bound.
pub open spec fn spec_maintenance_drain(positions: Seq<VoxelPos>, root_y: int, dt: int) -> int {
    cap_flow(
        spec_base_maintenance(positions.len() as int, dt) + spec_transport_sum(
            positions,
            root_y,
            dt,
        ),
    )
}

/// Maintenance for one plant: the drain comes off its energy, and a plant
/// left with no energy dies. Age and structure are untouched; a dead plant
/// is untouched entirely.
pub fn maintain_plant(plant: &mut Plant, dt: u32)
    requires
        old(plant).wf(),
        dt <= DT_MAX_MS,
    ensures
        final(plant).wf(),
        !old(plant).biology.is_alive ==> *final(plant) == *old(plant),
        old(plant).biology.is_alive ==> ({
            let e2 = spec_energy_sub(
                old(plant).biology.energy,
                spec_maintenance_drain(
                    old(plant).structure.voxel_positions@,
                    old(plant).structure.root_position.y as int,
                    dt as int,
                ),
            );
            *final(plant) == with_biology(
                *old(plant),
                PlantBiology {
                    energy: e2,
                    age: old(plant).biology.age,
                    is_alive: e2 > 0,
                    total_mass: old(plant).biology.total_mass,
                },
            )
        }),
{
    if !plant.biology.is_alive {
        return ;
    }
    let count = plant.structure.voxel_positions.len();
    proof {
        assert(count * BASE_MAINTENANCE_COST <= 0xffff_ffffu64 * BASE_MAINTENANCE_COST)
            by (nonlinear_arith)
            requires
                0 <= count <= u32::MAX,
        ;
        assert(count * BASE_MAINTENANCE_COST * dt <= 0xffff_ffffu64 * BASE_MAINTENANCE_COST
            * DT_MAX_MS) by (nonlinear_arith)
            requires
                0 <= count * BASE_MAINTENANCE_COST <= 0xffff_ffffu64 * BASE_MAINTENANCE_COST,
                0 <= dt <= DT_MAX_MS,
        ;
    }
    let base: u64 = (count as u64) * (BASE_MAINTENANCE_COST as u64) * (dt as u64) / 1000;
    let ghost positions = plant.structure.voxel_positions@;
    let root_y: i32 = plant.structure.root_position.y;
    let mut transport: u64 = 0;
    let mut i: usize = 0;
    while i < count
        invariant
            *plant == *old(plant),
            plant.wf(),
            dt <= DT_MAX_MS,
            positions == plant.structure.voxel_positions@,
            count == positions.len(),
            root_y == plant.structure.root_position.y,
            i <= count,
            transport == spec_transport_sum(positions.take(i as int), root_y as int, dt as int),
            transport <= FLOW_SAT,
        decreases count - i,
    {
        let p: VoxelPos = plant.structure.voxel_positions[i];
        let h: i64 = (p.y as i64) - (root_y as i64);
        let term: u64 = if h > 0 {
            proof {
                assert((h as u64) * TRANSPORT_COST * dt <= 0xffff_ffffu64 * TRANSPORT_COST
                    * DT_MAX_MS) by (nonlinear_arith)
                    requires
                        0 < h <= u32::MAX,
                        0 <= dt <= DT_MAX_MS,
                ;
            }
            (h as u64) * (TRANSPORT_COST as u64) * (dt as u64) / 1000
        } else {
            0
        };
        proof {
            assert(term == spec_transport_term(p.y as int, root_y as int, dt as int));
            assert(term <= FLOW_SAT);
            assert(positions.take(i + 1).drop_last() =~= positions.take(i as int));
            assert(positions.take(i + 1).last() == positions[i as int]);
        }
        transport = flow_add(transport, term);
        i = i + 1;
    }
    proof {
        assert(positions.take(count as int) =~= positions);
        assert(base == spec_base_maintenance(count as int, dt as int));
        assert(base <= 0xffff_ffffu64 * BASE_MAINTENANCE_COST * DT_MAX_MS / 1000);
    }
    let drain: u64 = if base > FLOW_SAT - transport {
        FLOW_SAT
    } else {
        base + transport
    };
    proof {
        assert(drain == cap_flow(base + transport));
        assert(drain == spec_maintenance_drain(positions, root_y as int, dt as int));
    }
    let e2 = energy_sub(plant.biology.energy, drain);
    plant.biology.energy = e2;
    if e2 <= 0 {
        plant.biology.is_alive = false;
    }
}

/// Maintenance for the whole population.
pub fn maintenance_cost_system(plants: &mut Vec<Plant>, dt: u32)
    requires
        forall|i: int| 0 <= i < old(plants)@.len() ==> (#[trigger] old(plants)@[i]).wf(),
        dt <= DT_MAX_MS,
    ensures
        final(plants)@.len() == old(plants)@.len(),
        forall|i: int| 0 <= i < old(plants)@.len() ==> (#[trigger] final(plants)@[i]).wf(),
        forall|i: int|
            0 <= i < old(plants)@.len() && !old(plants)@[i].biology.is_alive
                ==> #[trigger] final(plants)@[i] == old(plants)@[i],
        forall|i: int|
            0 <= i < old(plants)@.len() && old(plants)@[i].biology.is_alive ==> ({
                let e2 = spec_energy_sub(
                    old(plants)@[i].biology.energy,
                    spec_maintenance_drain(
                        old(plants)@[i].structure.voxel_positions@,
                        old(plants)@[i].structure.root_position.y as int,
                        dt as int,
                    ),
                );
                #[trigger] final(plants)@[i] == with_biology(
                    old(plants)@[i],
                    PlantBiology {
                        energy: e2,
                        age: old(plants)@[i].biology.age,
                        is_alive: e2 > 0,
                        total_mass: old(plants)@[i].biology.total_mass,
                    },
                )
            }),
{
    let n = plants.len();
    let mut i: usize = 0;
    while i < n
        invariant
            n == old(plants)@.len(),
            plants@.len() == n,
            i <= n,
            dt <= DT_MAX_MS,
            forall|j: int| 0 <= j < n ==> (#[trigger] old(plants)@[j]).wf(),
            forall|j: int| i <= j < n ==> #[trigger] plants@[j] == old(plants)@[j],
            forall|j: int| 0 <= j < i ==> (#[trigger] plants@[j]).wf(),
            forall|j: int|
                0 <= j < i && !old(plants)@[j].biology.is_alive ==> #[trigger] plants@[j] == old(
                    plants,
                )@[j],
            forall|j: int|
                0 <= j < i && old(plants)@[j].biology.is_alive ==> ({
                    let e2 = spec_energy_sub(
                        old(plants)@[j].biology.energy,
                        spec_maintenance_drain(
                            old(plants)@[j].structure.voxel_positions@,
                            old(plants)@[j].structure.root_position.y as int,
                            dt as int,
                        ),
                    );
                    #[trigger] plants@[j] == with_biology(
                        old(plants)@[j],
                        PlantBiology {
                            energy: e2,
                            age: old(plants)@[j].biology.age,
                            is_alive: e2 > 0,
                            total_mass: old(plants)@[j].biology.total_mass,
                        },
                    )
                }),
        decreases n - i,
    {
        maintain_plant(&mut plants[i], dt);
        i = i + 1;
    }
}

/// Age after one tick, saturating at the machine bound.
pub open spec fn spec_age_add(age: u64, dt: int) -> u64 {
    if age + dt > AGE_CAP {
        AGE_CAP
    } else {
        (age + dt) as u64
    }
}

/// Aging for one plant: a living plant's age advances by `dt`; a dead
/// plant's age is frozen.
pub fn age_plant(plant: &mut Plant, dt: u32)
    requires
        old(plant).wf(),
        dt <= DT_MAX_MS,
    ensures
        final(plant).wf(),
        !old(plant).biology.is_alive ==> *final(plant) == *old(plant),
        old(plant).biology.is_alive ==> *final(plant) == with_biology(
            *old(plant),
            PlantBiology {
                energy: old(plant).biology.energy,
                age: spec_age_add(old(plant).biology.age, dt as int),
                is_alive: old(plant).biology.is_alive,
                total_mass: old(plant).biology.total_mass,
            },
        ),
        final(plant).biology.age >= old(plant).biology.age,
{
    if plant.biology.is_alive {
        let age = plant.biology.age;
        plant.biology.age = if age > AGE_CAP - (dt as u64) {
            AGE_CAP
        } else {
            age + (dt as u64)
        };
    }
}

/// Aging for the whole population.
pub fn aging_system(plants: &mut Vec<Plant>, dt: u32)
    requires
        forall|i: int| 0 <= i < old(plants)@.len() ==> (#[trigger] old(plants)@[i]).wf(),
        dt <= DT_MAX_MS,
    ensures
        final(plants)@.len() == old(plants)@.len(),
        forall|i: int| 0 <= i < old(plants)@.len() ==> (#[trigger] final(plants)@[i]).wf(),
        forall|i: int|
            0 <= i < old(plants)@.len() && !old(plants)@[i].biology.is_alive
                ==> #[trigger] final(plants)@[i] == old(plants)@[i],
        forall|i: int|
            0 <= i < old(plants)@.len() && old(plants)@[i].biology.is_alive
                ==> #[trigger] final(plants)@[i] == with_biology(
                old(plants)@[i],
                PlantBiology {
                    energy: old(plants)@[i].biology.energy,
                    age: spec_age_add(old(plants)@[i].biology.age, dt as int),
                    is_alive: old(plants)@[i].biology.is_alive,
                    total_mass: old(plants)@[i].biology.total_mass,
                },
            ),
{
    let n = plants.len();
    let mut i: usize = 0;
    while i < n
        invariant
            n == old(plants)@.len(),
            plants@.len() == n,
            i <= n,
            dt <= DT_MAX_MS,
            forall|j: int| 0 <= j < n ==> (#[trigger] old(plants)@[j]).wf(),
            forall|j: int| i <= j < n ==> #[trigger] plants@[j] == old(plants)@[j],
            forall|j: int| 0 <= j < i ==> (#[trigger] plants@[j]).wf(),
            forall|j: int|
                0 <= j < i && !old(plants)@[j].biology.is_alive ==> #[trigger] plants@[j] == old(
                    plants,
                )@[j],
            forall|j: int|
                0 <= j < i && old(plants)@[j].biology.is_alive ==> #[trigger] plants@[j]
                    == with_biology(
                    old(plants)@[j],
                    PlantBiology {
                        energy: old(plants)@[j].biology.energy,
                        age: spec_age_add(old(plants)@[j].biology.age, dt as int),
                        is_alive: old(plants)@[j].biology.is_alive,
                        total_mass: old(plants)@[j].biology.total_mass,
                    },
                ),
        decreases n - i,
    {
        age_plant(&mut plants[i], dt);
        i = i + 1;
    }
}

} // verus!
