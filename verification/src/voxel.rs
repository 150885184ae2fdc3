//! The voxel grid: typed cells with environmental scalars, dense storage in
//! row-major order (x fastest, then z, then y), and bounds-checked lookups.

use vstd::prelude::*;
use crate::config::{SOIL_NUTRIENT_MAX, SOIL_WATER_MAX, SUNLIGHT_MAX};

verus! {

use vstd::arithmetic::div_mod::{
    lemma_fundamental_div_mod_converse_div,
    lemma_fundamental_div_mod_converse_mod,
    lemma_multiply_divide_lt,
};

/// The material held by one cell of the grid.
#[derive(Debug, Clone, Copy, PartialEq, Eq, Structural)]
pub enum VoxelType {
    Air,
    Soil,
    PlantMaterial { plant_id: u32, species_id: u32 },
}

impl VoxelType {
    pub fn is_solid(&self) -> (r: bool)
        ensures
            r == !(*self matches VoxelType::Air),
    {
        !matches!(self, VoxelType::Air)
    }

    pub fn is_air(&self) -> (r: bool)
        ensures
            r == (*self matches VoxelType::Air),
    {
        matches!(self, VoxelType::Air)
    }

    pub fn is_plant(&self) -> (r: bool)
        ensures
            r == (*self matches VoxelType::PlantMaterial { .. }),
    {
        matches!(self, VoxelType::PlantMaterial { .. })
    }
}

/// Environmental scalars of one cell, in thousandths of a nominal unit.
#[derive(Debug, Clone, Copy, PartialEq, Eq, Structural)]
pub struct VoxelEnvironment {
    pub light_level: u32,
    pub nutrients: u32,
    pub water: u32,
}

impl VoxelEnvironment {
    /// The scalars stay inside their closed ranges.
    pub open spec fn in_range(self) -> bool {
        self.light_level <= SUNLIGHT_MAX && self.nutrients <= SOIL_NUTRIENT_MAX
            && self.water <= SOIL_WATER_MAX
    }
}

impl Default for VoxelEnvironment {
    /// A fresh cell: dark, with full nutrient and water stores.
    fn default() -> (r: Self)
        ensures
            r.light_level == 0,
            r.nutrients == SOIL_NUTRIENT_MAX,
            r.water == SOIL_WATER_MAX,
    {
        VoxelEnvironment { light_level: 0, nutrients: SOIL_NUTRIENT_MAX, water: SOIL_WATER_MAX }
    }
}

/// One cell of the grid.
#[derive(Debug, Clone, Copy, PartialEq, Eq, Structural)]
pub struct Voxel {
    pub voxel_type: VoxelType,
    pub environment: VoxelEnvironment,
}

impl Default for Voxel {
    fn default() -> (r: Self)
        ensures
            r.voxel_type == VoxelType::Air,
            r.environment.light_level == 0,
            r.environment.nutrients == SOIL_NUTRIENT_MAX,
            r.environment.water == SOIL_WATER_MAX,
    {
        Voxel { voxel_type: VoxelType::Air, environment: VoxelEnvironment::default() }
    }
}

/// A coordinate in the world grid.
#[derive(Debug, Clone, Copy, PartialEq, Eq, Hash, Structural)]
pub struct VoxelPos {
    pub x: i32,
    pub y: i32,
    pub z: i32,
}

impl VoxelPos {
    pub fn new(x: i32, y: i32, z: i32) -> (r: Self)
        ensures
            r == (VoxelPos { x, y, z }),
    {
        VoxelPos { x, y, z }
    }

    /// The six axis-aligned neighbours of this position.
    pub fn neighbors(&self) -> (r: [VoxelPos; 6])
        requires
            i32::MIN < self.x < i32::MAX,
            i32::MIN < self.y < i32::MAX,
            i32::MIN < self.z < i32::MAX,
        ensures
            r@ =~= seq![
                VoxelPos { x: (self.x + 1) as i32, y: self.y, z: self.z },
                VoxelPos { x: (self.x - 1) as i32, y: self.y, z: self.z },
                VoxelPos { x: self.x, y: (self.y + 1) as i32, z: self.z },
                VoxelPos { x: self.x, y: (self.y - 1) as i32, z: self.z },
                VoxelPos { x: self.x, y: self.y, z: (self.z + 1) as i32 },
                VoxelPos { x: self.x, y: self.y, z: (self.z - 1) as i32 },
            ],
    {
        [
            VoxelPos::new(self.x + 1, self.y, self.z),
            VoxelPos::new(self.x - 1, self.y, self.z),
            VoxelPos::new(self.x, self.y + 1, self.z),
            VoxelPos::new(self.x, self.y - 1, self.z),
            VoxelPos::new(self.x, self.y, self.z + 1),
            VoxelPos::new(self.x, self.y, self.z - 1),
        ]
    }
}

/// The dense world grid.
pub struct VoxelWorld {
    pub voxels: Vec<Voxel>,
    pub width: usize,
    pub height: usize,
    pub depth: usize,
}

/// The state of one cell in a freshly built world: soil or air, dark, with
/// full nutrient and water stores.
pub open spec fn initial_cell(soil: bool) -> Voxel {
    Voxel {
        voxel_type: (if soil {
            VoxelType::Soil
        } else {
            VoxelType::Air
        }),
        environment: VoxelEnvironment {
            light_level: 0,
            nutrients: SOIL_NUTRIENT_MAX,
            water: SOIL_WATER_MAX,
        },
    }
}

impl VoxelWorld {
    /// Structural well-formedness: the backing store matches the dimensions,
    /// and the cell count fits the machine limits of plant mass accounting.
    pub open spec fn wf(self) -> bool {
        &&& self.voxels@.len() == self.width * self.height * self.depth
        &&& self.width * self.height * self.depth <= u32::MAX
        &&& self.width * self.depth <= u32::MAX
        &&& self.width <= i32::MAX
        &&& self.height <= i32::MAX
        &&& self.depth <= i32::MAX
    }

    /// Every cell's environmental scalars lie inside their closed ranges.
    pub open spec fn env_ok(self) -> bool {
        forall|i: int|
            0 <= i < self.voxels@.len() ==> (#[trigger] self.voxels@[i]).environment.in_range()
    }

    /// The two grids have the same dimensions.
    pub open spec fn same_dims(self, other: VoxelWorld) -> bool {
        self.width == other.width && self.height == other.height && self.depth == other.depth
    }

    pub open spec fn spec_in_bounds(self, pos: VoxelPos) -> bool {
        &&& 0 <= pos.x < self.width
        &&& 0 <= pos.y < self.height
        &&& 0 <= pos.z < self.depth
    }

    /// Row-major index of an in-bounds position: x fastest, then z, then y.
    pub open spec fn spec_index_of(self, pos: VoxelPos) -> int {
        pos.x + pos.z * self.width + pos.y * (self.width * self.depth)
    }

    /// The cell at an in-bounds position.
    pub open spec fn spec_at(self, pos: VoxelPos) -> Voxel {
        self.voxels@[self.spec_index_of(pos)]
    }

    /// The position whose row-major index is `i`.
    pub open spec fn spec_pos_of(self, i: int) -> VoxelPos {
        VoxelPos {
            x: ((i % (self.width * self.depth) as int) % self.width as int) as i32,
            y: (i / (self.width * self.depth) as int) as i32,
            z: ((i % (self.width * self.depth) as int) / self.width as int) as i32,
        }
    }

    /// The row-major index lies in range and determines the position.
    pub proof fn lemma_index_of(self, pos: VoxelPos)
        requires
            self.spec_in_bounds(pos),
        ensures
            0 <= self.spec_index_of(pos) < self.width * self.height * self.depth,
            0 <= pos.z * self.width,
            0 <= pos.y * (self.width * self.depth),
            self.spec_index_of(pos) / (self.width * self.depth) as int == pos.y,
            (self.spec_index_of(pos) % (self.width * self.depth) as int) / self.width as int
                == pos.z,
            (self.spec_index_of(pos) % (self.width * self.depth) as int) % self.width as int
                == pos.x,
            self.spec_pos_of(self.spec_index_of(pos)) == pos,
    {
        let w = self.width as int;
        let h = self.height as int;
        let d = self.depth as int;
        let x = pos.x as int;
        let y = pos.y as int;
        let z = pos.z as int;
        let idx = self.spec_index_of(pos);
        let row = x + z * w;
        assert(0 <= z * w && 0 <= y * (w * d) && row < w * d && 0 <= idx < w * h * d)
            by (nonlinear_arith)
            requires
                0 <= x < w,
                0 <= z < d,
                0 <= y < h,
                idx == x + z * w + y * (w * d),
                row == x + z * w,
        ;
        lemma_fundamental_div_mod_converse_div(idx, w * d, y, row);
        lemma_fundamental_div_mod_converse_mod(idx, w * d, y, row);
        lemma_fundamental_div_mod_converse_div(row, w, z, x);
        lemma_fundamental_div_mod_converse_mod(row, w, z, x);
    }

    /// Distinct in-bounds positions have distinct row-major indices.
    pub proof fn lemma_index_injective(self, p: VoxelPos, q: VoxelPos)
        requires
            self.spec_in_bounds(p),
            self.spec_in_bounds(q),
            p != q,
        ensures
            self.spec_index_of(p) != self.spec_index_of(q),
    {
        self.lemma_index_of(p);
        self.lemma_index_of(q);
    }

    /// Builds a grid of the given dimensions: the lower half of the height
    /// range is soil, the rest air, every cell dark with full stores.
    pub fn new(width: usize, height: usize, depth: usize) -> (r: Self)
        requires
            width * height * depth <= u32::MAX,
            width * depth <= u32::MAX,
            width <= i32::MAX,
            height <= i32::MAX,
            depth <= i32::MAX,
        ensures
            r.wf(),
            r.env_ok(),
            r.width == width && r.height == height && r.depth == depth,
            forall|pos: VoxelPos|
                r.spec_in_bounds(pos) ==> #[trigger] r.spec_at(pos) == initial_cell(
                    pos.y < height as int / 2,
                ),
    {
        proof {
            assert(width * depth * height == width * height * depth) by (nonlinear_arith);
        }
        let layer: usize = width * depth;
        let total: usize = layer * height;
        let soil_top: usize = height / 2;
        let mut voxels: Vec<Voxel> = Vec::new();
        let mut i: usize = 0;
        while i < total
            invariant
                voxels@.len() == i,
                i <= total,
                layer == width * depth,
                total == width * height * depth,
                soil_top == height as int / 2,
                total <= u32::MAX,
                forall|j: int|
                    0 <= j < i ==> #[trigger] voxels@[j] == initial_cell(
                        layer != 0 && j / (layer as int) < soil_top,
                    ),
            decreases total - i,
        {
            let vt = if layer != 0 && i / layer < soil_top {
                VoxelType::Soil
            } else {
                VoxelType::Air
            };
            voxels.push(Voxel { voxel_type: vt, environment: VoxelEnvironment::default() });
            i = i + 1;
        }
        let r = VoxelWorld { voxels, width, height, depth };
        proof {
            assert forall|pos: VoxelPos| r.spec_in_bounds(pos) implies #[trigger] r.spec_at(pos)
                == initial_cell(pos.y < height as int / 2) by {
                r.lemma_index_of(pos);
                assert(layer != 0);
            }
        }
        r
    }

    /// In-bounds test against the grid dimensions.
    pub fn is_in_bounds(&self, pos: &VoxelPos) -> (r: bool)
        ensures
            r == self.spec_in_bounds(*pos),
    {
        pos.x >= 0 && pos.y >= 0 && pos.z >= 0 && (pos.x as usize) < self.width
            && (pos.y as usize) < self.height && (pos.z as usize) < self.depth
    }

    /// The cell at `pos`, or `None` if `pos` lies outside the grid.
    pub fn get(&self, pos: &VoxelPos) -> (r: Option<&Voxel>)
        requires
            self.wf(),
        ensures
            match r {
                Some(v) => self.spec_in_bounds(*pos) && *v == self.spec_at(*pos),
                None => !self.spec_in_bounds(*pos),
            },
    {
        if !self.is_in_bounds(pos) {
            return None;
        }
        proof {
            self.lemma_index_of(*pos);
        }
        let idx: usize = (pos.x as usize) + (pos.z as usize) * self.width + (pos.y as usize)
            * (self.width * self.depth);
        Some(&self.voxels[idx])
    }

    /// A mutable view of the cell at `pos`, or `None` outside the grid.
    /// Writing through it cannot change the grid's dimensions.
    pub fn get_mut(&mut self, pos: &VoxelPos) -> (r: Option<&mut Voxel>)
        requires
            old(self).wf(),
        ensures
            final(self).same_dims(*old(self)),
            final(self).wf(),
            match r {
                Some(v) => {
                    &&& old(self).spec_in_bounds(*pos)
                    &&& *v == old(self).spec_at(*pos)
                    &&& final(self).voxels@ == old(self).voxels@.update(
                        old(self).spec_index_of(*pos),
                        *final(v),
                    )
                },
                None => !old(self).spec_in_bounds(*pos) && *final(self) == *old(self),
            },
    {
        if !self.is_in_bounds(pos) {
            return None;
        }
        proof {
            self.lemma_index_of(*pos);
        }
        let idx: usize = (pos.x as usize) + (pos.z as usize) * self.width + (pos.y as usize)
            * (self.width * self.depth);
        Some(&mut self.voxels[idx])
    }

    /// Overwrites the cell at an in-bounds position, leaving every other
    /// cell and the dimensions unchanged.
    pub fn set_voxel(&mut self, pos: &VoxelPos, v: Voxel)
        requires
            old(self).wf(),
            old(self).spec_in_bounds(*pos),
        ensures
            final(self).wf(),
            final(self).same_dims(*old(self)),
            final(self).spec_at(*pos) == v,
            forall|q: VoxelPos|
                old(self).spec_in_bounds(q) && q != *pos ==> #[trigger] final(self).spec_at(q)
                    == old(self).spec_at(q),
            final(self).voxels@ == old(self).voxels@.update(old(self).spec_index_of(*pos), v),
    {
        proof {
            self.lemma_index_of(*pos);
        }
        let idx: usize = (pos.x as usize) + (pos.z as usize) * self.width + (pos.y as usize)
            * (self.width * self.depth);
        self.voxels[idx] = v;
        proof {
            assert forall|q: VoxelPos|
                old(self).spec_in_bounds(q) && q != *pos implies #[trigger] self.spec_at(q)
                == old(self).spec_at(q) by {
                old(self).lemma_index_injective(q, *pos);
                old(self).lemma_index_of(q);
            }
        }
    }

    pub fn width(&self) -> (r: usize)
        ensures
            r == self.width,
    {
        self.width
    }

    pub fn height(&self) -> (r: usize)
        ensures
            r == self.height,
    {
        self.height
    }

    pub fn depth(&self) -> (r: usize)
        ensures
            r == self.depth,
    {
        self.depth
    }

    /// All grid positions, materialized in row-major order: the entry at
    /// index `i` is the position whose row-major index is `i`.
    pub fn iter_positions(&self) -> (r: Vec<VoxelPos>)
        requires
            self.wf(),
        ensures
            r@.len() == self.width * self.height * self.depth,
            forall|pos: VoxelPos|
                self.spec_in_bounds(pos) ==> r@[self.spec_index_of(pos)] == pos,
            forall|i: int| 0 <= i < r@.len() ==> self.spec_in_bounds(#[trigger] r@[i]),
    {
        proof {
            assert(self.width * self.depth * self.height == self.width * self.height
                * self.depth) by (nonlinear_arith);
        }
        let layer: usize = self.width * self.depth;
        let total: usize = layer * self.height;
        let mut r: Vec<VoxelPos> = Vec::new();
        let mut i: usize = 0;
        while i < total
            invariant
                self.wf(),
                layer == self.width * self.depth,
                total == self.width * self.height * self.depth,
                i <= total,
                r@.len() == i,
                forall|j: int| 0 <= j < i ==> #[trigger] r@[j] == self.spec_pos_of(j),
                forall|j: int| 0 <= j < i ==> self.spec_in_bounds(#[trigger] r@[j]),
            decreases total - i,
        {
            proof {
                assert(0 < self.width && 0 < self.height && 0 < self.depth && 0 < layer)
                    by (nonlinear_arith)
                    requires
                        layer == self.width * self.depth,
                        total == self.width * self.height * self.depth,
                        0 <= i < total,
                ;
                assert(total == layer * self.height) by (nonlinear_arith)
                    requires
                        layer == self.width * self.depth,
                        total == self.width * self.height * self.depth,
                ;
                lemma_multiply_divide_lt(i as int, layer as int, self.height as int);
                lemma_multiply_divide_lt(
                    (i as int) % (layer as int),
                    self.width as int,
                    self.depth as int,
                );
            }
            let x: usize = (i % layer) % self.width;
            let z: usize = (i % layer) / self.width;
            let y: usize = i / layer;
            r.push(VoxelPos { x: x as i32, y: y as i32, z: z as i32 });
            i = i + 1;
        }
        proof {
            assert forall|pos: VoxelPos| self.spec_in_bounds(pos) implies r@[self.spec_index_of(
                pos,
            )] == pos by {
                self.lemma_index_of(pos);
            }
        }
        r
    }
}

} // verus!
