//! The environment cycle: downward light propagation with material
//! attenuation, soil resource regeneration, and the day/night and seasonal
//! clocks.

use vstd::prelude::*;
use crate::config::{
    DAY_LENGTH_MS, DT_MAX_MS, NUTRIENT_REGEN_RATE, PLANT_LIGHT_TRANSMISSION,
    SOIL_LIGHT_TRANSMISSION, SOIL_NUTRIENT_MAX, SOIL_WATER_MAX, SUNLIGHT_MAX, WATER_REGEN_RATE,
    YEAR_LENGTH_MS,
};
use crate::voxel::{Voxel, VoxelEnvironment, VoxelPos, VoxelType, VoxelWorld};

verus! {

/// Thousandths of incoming light a cell of the given material lets through:
/// air is transparent, plant material passes 60%, soil passes 10%.
pub open spec fn spec_transmission(t: VoxelType) -> int {
    match t {
        VoxelType::Air => 1000,
        VoxelType::Soil => SOIL_LIGHT_TRANSMISSION as int,
        VoxelType::PlantMaterial { .. } => PLANT_LIGHT_TRANSMISSION as int,
    }
}

/// The light arriving at height `y` of column `(x, z)`: full sunlight above
/// the top layer, attenuated on the way down by the material of every cell
/// above `y`. A pure function of the column's materials.
pub open spec fn spec_column_light(w: VoxelWorld, x: int, z: int, y: int) -> int
    decreases w.height - y,
{
    if y >= w.height - 1 {
        SUNLIGHT_MAX as int
    } else {
        let above = VoxelPos { x: x as i32, y: (y + 1) as i32, z: z as i32 };
        spec_column_light(w, x, z, y + 1) * spec_transmission(w.spec_at(above).voxel_type) / 1000
    }
}

/// The cell at `p` after a light update over the materials of `w`: the same
/// material and stores, with the light level the column model assigns.
pub open spec fn lit_cell(w: VoxelWorld, p: VoxelPos) -> Voxel {
    Voxel {
        voxel_type: w.spec_at(p).voxel_type,
        environment: VoxelEnvironment {
            light_level: spec_column_light(w, p.x as int, p.z as int, p.y as int) as u32,
            nutrients: w.spec_at(p).environment.nutrients,
            water: w.spec_at(p).environment.water,
        },
    }
}

/// Column light stays inside the closed sunlight range.
pub proof fn lemma_column_light_bounds(w: VoxelWorld, x: int, z: int, y: int)
    ensures
        0 <= spec_column_light(w, x, z, y) <= SUNLIGHT_MAX,
    decreases w.height - y,
{
    if y >= w.height - 1 {
    } else {
        lemma_column_light_bounds(w, x, z, y + 1);
        let above = VoxelPos { x: x as i32, y: (y + 1) as i32, z: z as i32 };
        let l = spec_column_light(w, x, z, y + 1);
        let t = spec_transmission(w.spec_at(above).voxel_type);
        assert(0 <= t <= 1000);
        assert(0 <= l * t / 1000 <= SUNLIGHT_MAX) by (nonlinear_arith)
            requires
                0 <= l <= SUNLIGHT_MAX,
                0 <= t <= 1000,
        ;
    }
}

/// Law: column light is a pure function of the column's materials. Two
/// grids of the same dimensions whose cells hold the same materials assign
/// the same light to every level, whatever their stored light values.
pub proof fn lemma_column_light_same_types(w1: VoxelWorld, w2: VoxelWorld, x: int, z: int, y: int)
    requires
        w1.wf(),
        w1.same_dims(w2),
        0 <= x < w1.width,
        0 <= z < w1.depth,
        y >= -1,
        forall|p: VoxelPos|
            w1.spec_in_bounds(p) ==> (#[trigger] w1.spec_at(p)).voxel_type == w2.spec_at(
                p,
            ).voxel_type,
    ensures
        spec_column_light(w1, x, z, y) == spec_column_light(w2, x, z, y),
    decreases w1.height - y,
{
    if y >= w1.height - 1 {
    } else {
        lemma_column_light_same_types(w1, w2, x, z, y + 1);
        let above = VoxelPos { x: x as i32, y: (y + 1) as i32, z: z as i32 };
        assert(w1.spec_in_bounds(above));
    }
}

/// Returns the transmission factor of a material, in thousandths.
fn transmission(t: &VoxelType) -> (r: u32)
    ensures
        r == spec_transmission(*t),
        r <= 1000,
{
    match t {
        VoxelType::Air => 1000,
        VoxelType::Soil => SOIL_LIGHT_TRANSMISSION,
        VoxelType::PlantMaterial { .. } => PLANT_LIGHT_TRANSMISSION,
    }
}

/// Recomputes the light level of every cell: per column, a running value
/// starts at full sunlight at the top and is attenuated by each cell's
/// material on the way down; each cell records the value arriving at it,
/// before its own attenuation. Materials and stores are untouched.
pub fn update_light_system(world: &mut VoxelWorld)
    requires
        old(world).wf(),
        old(world).env_ok(),
    ensures
        final(world).wf(),
        final(world).env_ok(),
        final(world).same_dims(*old(world)),
        forall|p: VoxelPos|
            old(world).spec_in_bounds(p) ==> #[trigger] final(world).spec_at(p) == lit_cell(
                *old(world),
                p,
            ),
{
    let ghost w0 = *world;
    let width = world.width;
    let depth = world.depth;
    let height = world.height;
    let mut x: usize = 0;
    while x < width
        invariant
            world.wf(),
            world.env_ok(),
            world.same_dims(w0),
            w0.wf(),
            width == w0.width && depth == w0.depth && height == w0.height,
            x <= width,
            forall|p: VoxelPos|
                w0.spec_in_bounds(p) ==> (#[trigger] world.spec_at(p)).voxel_type == w0.spec_at(
                    p,
                ).voxel_type && world.spec_at(p).environment.nutrients == w0.spec_at(
                    p,
                ).environment.nutrients && world.spec_at(p).environment.water == w0.spec_at(
                    p,
                ).environment.water,
            forall|p: VoxelPos|
                w0.spec_in_bounds(p) && p.x < x ==> #[trigger] world.spec_at(p) == lit_cell(w0, p),
        decreases width - x,
    {
        let mut z: usize = 0;
        while z < depth
            invariant
                world.wf(),
                world.env_ok(),
                world.same_dims(w0),
                w0.wf(),
                width == w0.width && depth == w0.depth && height == w0.height,
                x < width,
                z <= depth,
                forall|p: VoxelPos|
                    w0.spec_in_bounds(p) ==> (#[trigger] world.spec_at(p)).voxel_type == w0.spec_at(
                        p,
                    ).voxel_type && world.spec_at(p).environment.nutrients == w0.spec_at(
                        p,
                    ).environment.nutrients && world.spec_at(p).environment.water == w0.spec_at(
                        p,
                    ).environment.water,
                forall|p: VoxelPos|
                    w0.spec_in_bounds(p) && (p.x < x || (p.x == x && p.z < z))
                        ==> #[trigger] world.spec_at(p) == lit_cell(w0, p),
            decreases depth - z,
        {
            let mut light: u32 = SUNLIGHT_MAX;
            let mut yy: usize = height;
            while yy > 0
                invariant
                    world.wf(),
                    world.env_ok(),
                    world.same_dims(w0),
                    w0.wf(),
                    width == w0.width && depth == w0.depth && height == w0.height,
                    x < width,
                    z < depth,
                    yy <= height,
                    light == spec_column_light(w0, x as int, z as int, yy as int - 1),
                    light <= SUNLIGHT_MAX,
                    forall|p: VoxelPos|
                        w0.spec_in_bounds(p) ==> (#[trigger] world.spec_at(p)).voxel_type
                            == w0.spec_at(p).voxel_type && world.spec_at(p).environment.nutrients
                            == w0.spec_at(p).environment.nutrients
                            && world.spec_at(p).environment.water == w0.spec_at(
                            p,
                        ).environment.water,
                    forall|p: VoxelPos|
                        w0.spec_in_bounds(p) && (p.x < x || (p.x == x && p.z < z))
                            ==> #[trigger] world.spec_at(p) == lit_cell(w0, p),
                    forall|p: VoxelPos|
                        w0.spec_in_bounds(p) && p.x == x && p.z == z && p.y >= yy
                            ==> #[trigger] world.spec_at(p) == lit_cell(w0, p),
                decreases yy,
            {
                yy = yy - 1;
                let pos = VoxelPos { x: x as i32, y: yy as i32, z: z as i32 };
                proof {
                    lemma_column_light_bounds(w0, x as int, z as int, yy as int);
                }
                let cell: Voxel = match world.get(&pos) {
                    Some(c) => *c,
                    None => {
                        proof {
                            assert(world.spec_in_bounds(pos));
                        }
                        unreached()
                    },
                };
                let ghost wpre = *world;
                world.set_voxel(
                    &pos,
                    Voxel {
                        voxel_type: cell.voxel_type,
                        environment: VoxelEnvironment {
                            light_level: light,
                            nutrients: cell.environment.nutrients,
                            water: cell.environment.water,
                        },
                    },
                );
                proof {
                    let vnew = Voxel {
                        voxel_type: cell.voxel_type,
                        environment: VoxelEnvironment {
                            light_level: light,
                            nutrients: cell.environment.nutrients,
                            water: cell.environment.water,
                        },
                    };
                    wpre.lemma_index_of(pos);
                    assert(world.voxels@ == wpre.voxels@.update(wpre.spec_index_of(pos), vnew));
                    assert forall|j: int|
                        0 <= j < world.voxels@.len() implies (
                    #[trigger] world.voxels@[j]).environment.in_range() by {
                        if j != wpre.spec_index_of(pos) {
                            assert(world.voxels@[j] == wpre.voxels@[j]);
                        } else {
                            assert(world.voxels@[j] == vnew);
                        }
                    }
                }
                let t = transmission(&cell.voxel_type);
                proof {
                    assert(light * t <= 100_000_000) by (nonlinear_arith)
                        requires
                            light <= SUNLIGHT_MAX,
                            t <= 1000,
                    ;
                }
                light = light * t / 1000;
            }
            z = z + 1;
        }
        x = x + 1;
    }
}

/// The cell after one resource regeneration tick: a soil cell's nutrient
/// and water stores rise by their fixed rates, clamped at their maxima;
/// any other cell is untouched.
pub open spec fn spec_regenerated(v: Voxel) -> Voxel {
    match v.voxel_type {
        VoxelType::Soil => Voxel {
            voxel_type: v.voxel_type,
            environment: VoxelEnvironment {
                light_level: v.environment.light_level,
                nutrients: (if v.environment.nutrients + NUTRIENT_REGEN_RATE > SOIL_NUTRIENT_MAX {
                    SOIL_NUTRIENT_MAX
                } else {
                    (v.environment.nutrients + NUTRIENT_REGEN_RATE) as u32
                }),
                water: (if v.environment.water + WATER_REGEN_RATE > SOIL_WATER_MAX {
                    SOIL_WATER_MAX
                } else {
                    (v.environment.water + WATER_REGEN_RATE) as u32
                }),
            },
        },
        _ => v,
    }
}

/// Regenerates every soil cell's nutrient and water stores by the fixed
/// per-tick rates, clamped to their maxima; non-soil cells are untouched.
pub fn regenerate_resources_system(world: &mut VoxelWorld)
    requires
        old(world).wf(),
        old(world).env_ok(),
    ensures
        final(world).wf(),
        final(world).env_ok(),
        final(world).same_dims(*old(world)),
        forall|i: int|
            0 <= i < old(world).voxels@.len() ==> final(world).voxels@[i] == spec_regenerated(
                #[trigger] old(world).voxels@[i],
            ),
        forall|p: VoxelPos|
            old(world).spec_in_bounds(p) ==> #[trigger] final(world).spec_at(p)
                == spec_regenerated(old(world).spec_at(p)),
{
    let ghost w0 = *world;
    let n = world.voxels.len();
    let mut i: usize = 0;
    while i < n
        invariant
            world.wf(),
            world.env_ok(),
            world.same_dims(w0),
            w0.wf(),
            w0.env_ok(),
            n == w0.voxels@.len(),
            world.voxels@.len() == n,
            i <= n,
            forall|j: int|
                0 <= j < i ==> world.voxels@[j] == spec_regenerated(#[trigger] w0.voxels@[j]),
            forall|j: int| i <= j < n ==> world.voxels@[j] == #[trigger] w0.voxels@[j],
        decreases n - i,
    {
        let cell: Voxel = world.voxels[i];
        if matches!(cell.voxel_type, VoxelType::Soil) {
            let new_nutrients: u32 = if cell.environment.nutrients + NUTRIENT_REGEN_RATE
                > SOIL_NUTRIENT_MAX {
                SOIL_NUTRIENT_MAX
            } else {
                cell.environment.nutrients + NUTRIENT_REGEN_RATE
            };
            let new_water: u32 = if cell.environment.water + WATER_REGEN_RATE > SOIL_WATER_MAX {
                SOIL_WATER_MAX
            } else {
                cell.environment.water + WATER_REGEN_RATE
            };
            world.voxels[i] = Voxel {
                voxel_type: cell.voxel_type,
                environment: VoxelEnvironment {
                    light_level: cell.environment.light_level,
                    nutrients: new_nutrients,
                    water: new_water,
                },
            };
        }
        i = i + 1;
    }
    proof {
        assert forall|p: VoxelPos| w0.spec_in_bounds(p) implies #[trigger] world.spec_at(p)
            == spec_regenerated(w0.spec_at(p)) by {
            w0.lemma_index_of(p);
        }
    }
}

/// Law: resource regeneration keeps a cell's environment scalars inside
/// their closed ranges.
pub proof fn lemma_regenerated_in_range(v: Voxel)
    requires
        v.environment.in_range(),
    ensures
        spec_regenerated(v).environment.in_range(),
{
}

/// The day/night clock: elapsed time within the current day, wrapping at
/// the day length.
#[derive(Debug, Clone, Copy, PartialEq, Eq, Structural)]
pub struct DayNightCycle {
    pub time_of_day_ms: u32,
    pub day_length_ms: u32,
}

impl DayNightCycle {
    pub open spec fn wf(self) -> bool {
        0 < self.day_length_ms && self.time_of_day_ms < self.day_length_ms
    }
}

impl Default for DayNightCycle {
    /// Starts at noon of a one-minute day.
    fn default() -> (r: Self)
        ensures
            r.time_of_day_ms == DAY_LENGTH_MS / 2,
            r.day_length_ms == DAY_LENGTH_MS,
            r.wf(),
    {
        DayNightCycle { time_of_day_ms: DAY_LENGTH_MS / 2, day_length_ms: DAY_LENGTH_MS }
    }
}

/// Advances the day/night clock by `dt`, wrapping at the day length.
pub fn update_day_night_system(cycle: &mut DayNightCycle, dt: u32)
    requires
        old(cycle).wf(),
        dt <= DT_MAX_MS,
    ensures
        final(cycle).wf(),
        final(cycle).day_length_ms == old(cycle).day_length_ms,
        final(cycle).time_of_day_ms == (old(cycle).time_of_day_ms + dt) as int % old(
            cycle,
        ).day_length_ms as int,
{
    cycle.time_of_day_ms = ((cycle.time_of_day_ms as u64 + dt as u64) % cycle.day_length_ms
        as u64) as u32;
}

/// The seasonal clock: elapsed time within the current year, wrapping at
/// the year length.
#[derive(Debug, Clone, Copy, PartialEq, Eq, Structural)]
pub struct YearCycle {
    pub time_of_year_ms: u32,
    pub year_length_ms: u32,
}

impl YearCycle {
    pub open spec fn wf(self) -> bool {
        0 < self.year_length_ms && self.time_of_year_ms < self.year_length_ms
    }

    /// The elapsed fraction of the year, in thousandths.
    pub open spec fn spec_year_fraction(self) -> int {
        self.time_of_year_ms * 1000 / self.year_length_ms as int
    }
}

impl Default for YearCycle {
    /// Starts at spring of a five-minute year.
    fn default() -> (r: Self)
        ensures
            r.time_of_year_ms == 0,
            r.year_length_ms == YEAR_LENGTH_MS,
            r.wf(),
    {
        YearCycle { time_of_year_ms: 0, year_length_ms: YEAR_LENGTH_MS }
    }
}

/// Advances the seasonal clock by `dt`, wrapping at the year length.
pub fn update_year_cycle_system(cycle: &mut YearCycle, dt: u32)
    requires
        old(cycle).wf(),
        dt <= DT_MAX_MS,
    ensures
        final(cycle).wf(),
        final(cycle).year_length_ms == old(cycle).year_length_ms,
        final(cycle).time_of_year_ms == (old(cycle).time_of_year_ms + dt) as int % old(
            cycle,
        ).year_length_ms as int,
{
    cycle.time_of_year_ms = ((cycle.time_of_year_ms as u64 + dt as u64) % cycle.year_length_ms
        as u64) as u32;
}

/// The seasonal light multiplier for a year fraction in thousandths:
/// spring ramps from 0.6 up to 1.0, summer holds 1.0, autumn ramps from 1.0
/// down to 0.4, winter holds a harsh 0.05.
pub open spec fn spec_seasonal_multiplier(frac: int) -> int {
    if frac < 250 {
        600 + frac * 1600 / 1000
    } else if frac < 500 {
        1000
    } else if frac < 750 {
        1000 - (frac - 500) * 2400 / 1000
    } else {
        50
    }
}

/// The seasonal light multiplier of the current moment, in thousandths.
pub fn get_seasonal_multiplier(cycle: &YearCycle) -> (r: u32)
    requires
        cycle.wf(),
    ensures
        r == spec_seasonal_multiplier(cycle.spec_year_fraction()),
        50 <= r <= 1000,
{
    proof {
        assert(cycle.time_of_year_ms * 1000 < u64::MAX) by (nonlinear_arith)
            requires
                cycle.time_of_year_ms <= u32::MAX,
        ;
        assert(cycle.spec_year_fraction() < 1000) by (nonlinear_arith)
            requires
                cycle.time_of_year_ms < cycle.year_length_ms,
                cycle.year_length_ms > 0,
        ;
        assert(cycle.spec_year_fraction() >= 0) by (nonlinear_arith)
            requires
                cycle.time_of_year_ms >= 0,
                cycle.year_length_ms > 0,
        ;
    }
    let frac: u32 = ((cycle.time_of_year_ms as u64 * 1000) / cycle.year_length_ms as u64) as u32;
    if frac < 250 {
        600 + frac * 1600 / 1000
    } else if frac < 500 {
        1000
    } else if frac < 750 {
        1000 - (frac - 500) * 2400 / 1000
    } else {
        50
    }
}

/// The name of the current season, by quarters of the year.
pub fn get_season_name(cycle: &YearCycle) -> (r: &'static str)
    requires
        cycle.wf(),
    ensures
        cycle.spec_year_fraction() < 250 ==> r@ == "Spring"@,
        250 <= cycle.spec_year_fraction() < 500 ==> r@ == "Summer"@,
        500 <= cycle.spec_year_fraction() < 750 ==> r@ == "Autumn"@,
        750 <= cycle.spec_year_fraction() ==> r@ == "Winter"@,
{
    proof {
        assert(cycle.time_of_year_ms * 1000 < u64::MAX) by (nonlinear_arith)
            requires
                cycle.time_of_year_ms <= u32::MAX,
        ;
        assert(cycle.spec_year_fraction() >= 0) by (nonlinear_arith)
            requires
                cycle.time_of_year_ms >= 0,
                cycle.year_length_ms > 0,
        ;
        assert(cycle.spec_year_fraction() < 1000) by (nonlinear_arith)
            requires
                cycle.time_of_year_ms < cycle.year_length_ms,
                cycle.year_length_ms > 0,
        ;
    }
    let frac: u32 = ((cycle.time_of_year_ms as u64 * 1000) / cycle.year_length_ms as u64) as u32;
    if frac < 250 {
        "Spring"
    } else if frac < 500 {
        "Summer"
    } else if frac < 750 {
        "Autumn"
    } else {
        "Winter"
    }
}

/// Law: a light update is deterministic. Over any two grids with the same
/// dimensions and materials — in particular, the grid before and after an
/// earlier light update — the column model assigns identical light levels,
/// so repeated updates write identical values.
pub proof fn lemma_light_update_deterministic(w1: VoxelWorld, w2: VoxelWorld, p: VoxelPos)
    requires
        w1.wf(),
        w1.same_dims(w2),
        w1.spec_in_bounds(p),
        forall|q: VoxelPos|
            w1.spec_in_bounds(q) ==> (#[trigger] w1.spec_at(q)).voxel_type == w2.spec_at(
                q,
            ).voxel_type,
    ensures
        lit_cell(w1, p).environment.light_level == lit_cell(w2, p).environment.light_level,
{
    lemma_column_light_same_types(w1, w2, p.x as int, p.z as int, p.y as int);
}

} // verus!
