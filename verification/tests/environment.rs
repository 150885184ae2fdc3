use plant_evolution::config::{
    NUTRIENT_REGEN_RATE, SOIL_NUTRIENT_MAX, SOIL_WATER_MAX, SUNLIGHT_MAX, WATER_REGEN_RATE,
};
use plant_evolution::environment::{
    get_season_name, get_seasonal_multiplier, regenerate_resources_system, update_day_night_system,
    update_light_system, update_year_cycle_system, DayNightCycle, YearCycle,
};
use plant_evolution::voxel::{VoxelPos, VoxelType, VoxelWorld};

#[test]
fn full_sunlight_reaches_the_soil_surface_and_soil_absorbs_ninety_percent() {
    // A soil column under full sunlight with no plant material: the surface
    // soil cell sees the full 100.0, the cell one soil layer down 10.0.
    let mut w = VoxelWorld::new(4, 6, 4);
    update_light_system(&mut w);
    let surface = w.get(&VoxelPos::new(1, 2, 1)).unwrap();
    assert_eq!(surface.environment.light_level, SUNLIGHT_MAX);
    assert_eq!(surface.environment.light_level, 100_000);
    let below = w.get(&VoxelPos::new(1, 1, 1)).unwrap();
    assert_eq!(below.environment.light_level, 10_000);
    let deeper = w.get(&VoxelPos::new(1, 0, 1)).unwrap();
    assert_eq!(deeper.environment.light_level, 1_000);
    // Air passes light through unchanged.
    let top = w.get(&VoxelPos::new(1, 5, 1)).unwrap();
    assert_eq!(top.environment.light_level, SUNLIGHT_MAX);
}

#[test]
fn plant_material_keeps_sixty_percent_of_light() {
    let mut w = VoxelWorld::new(3, 5, 3);
    {
        let v = w.get_mut(&VoxelPos::new(1, 4, 1)).unwrap();
        v.voxel_type = VoxelType::PlantMaterial { plant_id: 0, species_id: 0 };
    }
    update_light_system(&mut w);
    let canopy = w.get(&VoxelPos::new(1, 4, 1)).unwrap();
    assert_eq!(canopy.environment.light_level, SUNLIGHT_MAX);
    let shaded = w.get(&VoxelPos::new(1, 3, 1)).unwrap();
    assert_eq!(shaded.environment.light_level, 60_000);
}

#[test]
fn repeated_light_updates_give_identical_levels() {
    let mut w = VoxelWorld::new(4, 6, 4);
    {
        let v = w.get_mut(&VoxelPos::new(2, 4, 2)).unwrap();
        v.voxel_type = VoxelType::PlantMaterial { plant_id: 0, species_id: 0 };
    }
    update_light_system(&mut w);
    let mut first = Vec::new();
    for pos in w.iter_positions() {
        first.push(w.get(&pos).unwrap().environment.light_level);
    }
    update_light_system(&mut w);
    let mut second = Vec::new();
    for pos in w.iter_positions() {
        second.push(w.get(&pos).unwrap().environment.light_level);
    }
    assert_eq!(first, second);
}

#[test]
fn regeneration_refills_only_soil_and_clamps_at_the_maxima() {
    let mut w = VoxelWorld::new(3, 4, 3);
    let soil = VoxelPos::new(1, 1, 1);
    let air = VoxelPos::new(1, 3, 1);
    {
        let v = w.get_mut(&soil).unwrap();
        v.environment.nutrients = 0;
        v.environment.water = SOIL_WATER_MAX - 50;
    }
    {
        let v = w.get_mut(&air).unwrap();
        v.environment.nutrients = 17;
        v.environment.water = 19;
    }
    regenerate_resources_system(&mut w);
    let v = w.get(&soil).unwrap();
    assert_eq!(v.environment.nutrients, NUTRIENT_REGEN_RATE);
    assert_eq!(v.environment.water, SOIL_WATER_MAX); // clamped: 50 < rate 200
    let a = w.get(&air).unwrap();
    assert_eq!(a.environment.nutrients, 17);
    assert_eq!(a.environment.water, 19);
    // A full store stays at its maximum.
    regenerate_resources_system(&mut w);
    let v2 = w.get(&soil).unwrap();
    assert_eq!(v2.environment.nutrients, 2 * NUTRIENT_REGEN_RATE);
    assert_eq!(v2.environment.water, SOIL_WATER_MAX);
    assert!(WATER_REGEN_RATE > 0);
}

#[test]
fn day_night_clock_advances_and_wraps() {
    let mut c = DayNightCycle::default();
    assert_eq!(c.time_of_day_ms, 30_000);
    update_day_night_system(&mut c, 10_000);
    assert_eq!(c.time_of_day_ms, 40_000);
    update_day_night_system(&mut c, 25_000);
    assert_eq!(c.time_of_day_ms, 5_000); // wrapped at the 60 s day
}

#[test]
fn year_clock_advances_and_wraps() {
    let mut c = YearCycle::default();
    assert_eq!(c.time_of_year_ms, 0);
    update_year_cycle_system(&mut c, 100_000);
    assert_eq!(c.time_of_year_ms, 100_000);
    update_year_cycle_system(&mut c, 250_000);
    assert_eq!(c.time_of_year_ms, 50_000); // wrapped at the 300 s year
}

#[test]
fn seasonal_multiplier_ramps_holds_and_bottoms_out() {
    let mut c = YearCycle::default();
    // Spring opens at 0.6.
    assert_eq!(get_seasonal_multiplier(&c), 600);
    assert_eq!(get_season_name(&c), "Spring");
    // Late spring approaches 1.0: fraction 200/1000 gives 0.6 + 0.32.
    c.time_of_year_ms = 60_000;
    assert_eq!(get_seasonal_multiplier(&c), 920);
    // Summer holds 1.0.
    c.time_of_year_ms = 90_000;
    assert_eq!(get_seasonal_multiplier(&c), 1000);
    assert_eq!(get_season_name(&c), "Summer");
    // Autumn declines: fraction 600/1000 gives 1.0 - 0.24.
    c.time_of_year_ms = 180_000;
    assert_eq!(get_seasonal_multiplier(&c), 760);
    assert_eq!(get_season_name(&c), "Autumn");
    // Winter is the harsh bottleneck at 0.05.
    c.time_of_year_ms = 240_000;
    assert_eq!(get_seasonal_multiplier(&c), 50);
    assert_eq!(get_season_name(&c), "Winter");
}
