use plant_evolution::config::{SOIL_NUTRIENT_MAX, SOIL_WATER_MAX};
use plant_evolution::voxel::{VoxelPos, VoxelType, VoxelWorld};

#[test]
fn new_world_fills_lower_half_with_soil() {
    let w = VoxelWorld::new(4, 6, 4);
    assert_eq!(w.width(), 4);
    assert_eq!(w.height(), 6);
    assert_eq!(w.depth(), 4);
    for x in 0..4 {
        for y in 0..6 {
            for z in 0..4 {
                let v = w.get(&VoxelPos::new(x, y, z)).unwrap();
                if y < 3 {
                    assert_eq!(v.voxel_type, VoxelType::Soil);
                } else {
                    assert_eq!(v.voxel_type, VoxelType::Air);
                }
                assert_eq!(v.environment.light_level, 0);
                assert_eq!(v.environment.nutrients, SOIL_NUTRIENT_MAX);
                assert_eq!(v.environment.water, SOIL_WATER_MAX);
            }
        }
    }
}

#[test]
fn out_of_bounds_lookups_are_absent_not_errors() {
    let w = VoxelWorld::new(4, 4, 4);
    assert!(w.get(&VoxelPos::new(-1, 0, 0)).is_none());
    assert!(w.get(&VoxelPos::new(0, -1, 0)).is_none());
    assert!(w.get(&VoxelPos::new(0, 0, 4)).is_none());
    assert!(w.get(&VoxelPos::new(4, 0, 0)).is_none());
    assert!(w.get(&VoxelPos::new(0, 4, 0)).is_none());
    assert!(w.get(&VoxelPos::new(2, 2, 2)).is_some());
    assert!(w.is_in_bounds(&VoxelPos::new(3, 3, 3)));
    assert!(!w.is_in_bounds(&VoxelPos::new(3, 3, 4)));
}

#[test]
fn get_mut_writes_are_read_back() {
    let mut w = VoxelWorld::new(4, 4, 4);
    let pos = VoxelPos::new(1, 3, 2);
    {
        let v = w.get_mut(&pos).unwrap();
        v.voxel_type = VoxelType::PlantMaterial { plant_id: 7, species_id: 3 };
        v.environment.light_level = 42;
    }
    let v = w.get(&pos).unwrap();
    assert_eq!(v.voxel_type, VoxelType::PlantMaterial { plant_id: 7, species_id: 3 });
    assert_eq!(v.environment.light_level, 42);
    // Neighbouring cell untouched.
    let n = w.get(&VoxelPos::new(1, 3, 1)).unwrap();
    assert_eq!(n.voxel_type, VoxelType::Air);
    assert!(w.get_mut(&VoxelPos::new(9, 9, 9)).is_none());
}

#[test]
fn iter_positions_is_row_major_x_fastest() {
    let w = VoxelWorld::new(2, 2, 2);
    let all = w.iter_positions();
    assert_eq!(all.len(), 8);
    assert_eq!(all[0], VoxelPos::new(0, 0, 0));
    assert_eq!(all[1], VoxelPos::new(1, 0, 0));
    assert_eq!(all[2], VoxelPos::new(0, 0, 1));
    assert_eq!(all[3], VoxelPos::new(1, 0, 1));
    assert_eq!(all[4], VoxelPos::new(0, 1, 0));
    assert_eq!(all[7], VoxelPos::new(1, 1, 1));
}

#[test]
fn neighbors_are_the_six_axis_cells() {
    let n = VoxelPos::new(5, 6, 7).neighbors();
    assert!(n.contains(&VoxelPos::new(6, 6, 7)));
    assert!(n.contains(&VoxelPos::new(4, 6, 7)));
    assert!(n.contains(&VoxelPos::new(5, 7, 7)));
    assert!(n.contains(&VoxelPos::new(5, 5, 7)));
    assert!(n.contains(&VoxelPos::new(5, 6, 8)));
    assert!(n.contains(&VoxelPos::new(5, 6, 6)));
}

#[test]
fn voxel_type_predicates() {
    let plant = VoxelType::PlantMaterial { plant_id: 1, species_id: 2 };
    assert!(VoxelType::Air.is_air());
    assert!(!VoxelType::Air.is_solid());
    assert!(!VoxelType::Air.is_plant());
    assert!(VoxelType::Soil.is_solid());
    assert!(!VoxelType::Soil.is_plant());
    assert!(plant.is_solid());
    assert!(plant.is_plant());
    assert!(!plant.is_air());
}
