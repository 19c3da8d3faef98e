use terrain_erosion::error::TerrainError;
use terrain_erosion::fixed::{from_whole, quotient, whole_part, ONE};
use terrain_erosion::settings::{NoiseTypesUi, TopoSettings};
use terrain_erosion::soil::{SoilColor, SoilType, VegetationCollection, VegetationData};
use terrain_erosion::synthesis::site_count;

#[test]
fn a_new_scenario_starts_with_the_default_settings() {
    let settings = TopoSettings::default();
    assert_eq!(settings.seed, Some(42949));
    assert_eq!(settings.max_alt, 0);
    assert_eq!(settings.min_bound, (0, 0));
    assert_eq!(settings.max_bound, (from_whole(100), from_whole(100)));
    assert_eq!(settings.lod, from_whole(4));
    assert_eq!(settings.erod_scale, 0);
    assert_eq!(settings.mountain_pct, from_whole(25));
    assert_eq!(settings.sea_pct, from_whole(5));
    assert_eq!(settings.min_height, -50);
    assert_eq!(settings.max_height, 1000);
    assert_eq!(settings.erosion_cycles, 0);
}

#[test]
fn the_default_settings_give_40000_sites() {
    let settings = TopoSettings::default();
    assert_eq!(site_count(settings.min_bound, settings.max_bound, settings.lod), 40000);
}

#[test]
fn setters_change_their_own_field() {
    let mut settings = TopoSettings::default();
    settings.set_min_bounds(-from_whole(3));
    settings.set_max_bounds(from_whole(7));
    settings.set_lod(from_whole(2));
    settings.set_erod_scale(from_whole(80));
    settings.set_seed(None);
    settings.set_mtn_pct(from_whole(30));
    settings.set_sea_pct(from_whole(10));
    settings.set_cycles(12);
    assert_eq!(settings.min_bound, (-196608, -196608));
    assert_eq!(settings.max_bound, (458752, 458752));
    assert_eq!(settings.lod, 131072);
    assert_eq!(settings.erod_scale, 5242880);
    assert_eq!(settings.seed, None);
    assert_eq!(settings.mountain_pct, 1966080);
    assert_eq!(settings.sea_pct, 655360);
    assert_eq!(settings.erosion_cycles, 12);
    assert_eq!(settings.max_alt, 0);
    assert_eq!(settings.min_height, -50);
    assert_eq!(settings.max_height, 1000);
    settings.set_seed(Some(7));
    assert_eq!(settings.seed, Some(7));
}

#[test]
fn noise_types_are_told_apart() {
    assert_ne!(NoiseTypesUi::Simplex, NoiseTypesUi::Perlin);
    assert_ne!(NoiseTypesUi::Perlin, NoiseTypesUi::BillowPerlin);
    assert_eq!(NoiseTypesUi::Simplex, NoiseTypesUi::Simplex);
}

#[test]
fn fixed_point_has_sixteen_fractional_bits() {
    assert_eq!(ONE, 65536);
    assert_eq!(from_whole(1), 65536);
    assert_eq!(from_whole(-2), -131072);
    assert_eq!(from_whole(i16::MAX), 2147418112);
    assert_eq!(from_whole(i16::MIN), i32::MIN);
    assert_eq!(whole_part(65536 * 3 + 65535), 3);
    assert_eq!(whole_part(-65536 * 3 - 65535), -3);
    assert_eq!(whole_part(-1), 0);
    assert_eq!(quotient(7, 2), 3);
    assert_eq!(quotient(-7, 2), -3);
    assert_eq!(quotient(-8, 2), -4);
    assert_eq!(quotient(0, 5), 0);
}

#[test]
fn each_error_has_its_own_message() {
    assert_eq!(TerrainError::NoReachableOutlet.message(), "no boundary site is a candidate ocean");
    assert_eq!(TerrainError::UnresolvedElevationSample.message(), "elevation field has no value at the sample");
    assert_eq!(TerrainError::InvalidRasterDimensions.message(), "buffer length differs from width times height");
    assert_eq!(TerrainError::MissingPrerequisiteRaster.message(), "base-level raster is missing");
}

#[test]
fn each_soil_has_its_grey() {
    assert_eq!(SoilType::Dirt.grey(), 5);
    assert_eq!(SoilType::Silt.grey(), 100);
    assert_eq!(SoilType::Stone.grey(), 16);
    assert_eq!(SoilType::Gravel.grey(), 32);
    assert_eq!(SoilType::Loam.grey(), 64);
    assert_eq!(SoilType::Clay.grey(), 128);
    assert_eq!(SoilType::Sand.grey(), 200);
}

#[test]
fn each_soil_has_its_colour() {
    assert_eq!(SoilType::Dirt.color(), SoilColor::Dirt([5, 5, 5, 255]));
    assert_eq!(SoilType::Silt.color(), SoilColor::Silt([100, 100, 100, 255]));
    assert_eq!(SoilType::Stone.color(), SoilColor::Stone([16, 16, 16, 255]));
    assert_eq!(SoilType::Gravel.color(), SoilColor::Gravel([32, 32, 32, 255]));
    assert_eq!(SoilType::Loam.color(), SoilColor::Loam([64, 64, 64, 255]));
    assert_eq!(SoilType::Clay.color(), SoilColor::Clay([128, 128, 128, 255]));
    assert_eq!(SoilType::Sand.color(), SoilColor::Sand([200, 200, 200, 255]));
}

#[test]
fn vegetation_data_holds_the_choices() {
    let mut data = VegetationData {
        base: SoilType::Loam,
        blocklist: std::collections::HashMap::new(),
        vegetationlist: std::collections::HashMap::new(),
    };
    data.blocklist.insert(SoilType::Sand, true);
    data.vegetationlist.insert(String::from("Oak"), false);
    let copy = data.clone();
    assert_eq!(copy.base, SoilType::Loam);
    assert_eq!(copy.blocklist.get(&SoilType::Sand), Some(&true));
    assert_eq!(copy.vegetationlist.get("Oak"), Some(&false));
    let mut collection = VegetationCollection { generated: std::collections::HashMap::new() };
    collection.generated.insert(String::from("Oak"), vec![1, 2, 3]);
    assert_eq!(collection.generated.get("Oak"), Some(&vec![1, 2, 3]));
}
