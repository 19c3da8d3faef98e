use terrain_erosion::error::TerrainError;
use terrain_erosion::colormap::{Colormap, Rgb};
use terrain_erosion::heightmap::get_height;
use terrain_erosion::raster::{
    color_eroded_image, grid_point, height_level, level_altitude, max_elevation, rasterize, sample_cell,
    ERODED_SCALE, LEVEL_SCALE,
};

const ONE: i32 = 65536;

#[test]
fn level_is_the_share_of_the_greatest_elevation() {
    assert_eq!(LEVEL_SCALE, 32768);
    assert_eq!(height_level(15 * ONE, 30 * ONE), 16384);
    assert_eq!(height_level(30 * ONE, 30 * ONE), 32768);
    assert_eq!(height_level(0, 30 * ONE), 0);
    assert_eq!(height_level(1, 3), 10922);
    assert_eq!(height_level(10 * ONE, 1946419), 11032);
}

#[test]
fn level_is_held_within_16_bits() {
    assert_eq!(height_level(-5, 30), 0);
    assert_eq!(height_level(70 * ONE, 30 * ONE), 65535);
    assert_eq!(height_level(5, 0), 65535);
    assert_eq!(height_level(0, 0), 0);
    assert_eq!(height_level(-5, 0), 0);
    assert_eq!(height_level(-5, -10), 16384);
    assert_eq!(height_level(5, -10), 0);
    assert_eq!(height_level(i32::MAX, 1), 65535);
    assert_eq!(height_level(i32::MIN, i32::MIN), 32768);
}

#[test]
fn grid_points_divide_the_axis_evenly() {
    assert_eq!(grid_point(100 * ONE, 0, 512), 0);
    assert_eq!(grid_point(100 * ONE, 256, 512), 50 * ONE);
    assert_eq!(grid_point(100 * ONE, 511, 512), 6540800);
    assert_eq!(grid_point(100 * ONE, 1, 3), 2184533);
    assert_eq!(grid_point(-100 * ONE, 1, 3), -2184533);
    assert_eq!(grid_point(i32::MAX, 2, 3), 1431655764);
    assert_eq!(grid_point(i32::MIN, 2, 3), -1431655765);
}

#[test]
fn greatest_elevation_of_a_list() {
    assert_eq!(max_elevation(&vec![3, 9, -4, 9, 2]), 9);
    assert_eq!(max_elevation(&vec![-7, -3, -9]), -3);
    assert_eq!(max_elevation(&vec![5]), 5);
    assert_eq!(max_elevation(&Vec::new()), i32::MIN);
}

#[test]
fn rasterize_gives_levels_and_colours() {
    let samples = vec![Some(0), Some(15 * ONE), None, Some(30 * ONE), Some(ONE / 4), Some(-ONE)];
    let preview = rasterize(&samples, 3, 2, 30 * ONE).unwrap();
    assert_eq!(preview.raw, vec![0, 16384, 0, 32768, 273, 0]);
    assert_eq!(
        preview.color,
        vec![70, 150, 200, 54, 117, 41, 0, 0, 0, 15, 60, 15, 155, 195, 205, 70, 150, 200]
    );
}

#[test]
fn rasterize_skips_points_without_a_value() {
    let samples: Vec<Option<i32>> = vec![None; 4];
    let preview = rasterize(&samples, 2, 2, 30 * ONE).unwrap();
    assert_eq!(preview.raw, vec![0u16; 4]);
    assert_eq!(preview.color, vec![0u8; 12]);
}

#[test]
fn rasterize_refuses_samples_of_another_size() {
    let samples = vec![Some(1), Some(2), Some(3)];
    assert!(matches!(rasterize(&samples, 2, 2, 30 * ONE), Err(TerrainError::InvalidRasterDimensions)));
    assert!(matches!(rasterize(&samples, 1, 2, 30 * ONE), Err(TerrainError::InvalidRasterDimensions)));
    assert!(rasterize(&samples, 3, 1, 30 * ONE).is_ok());
    assert!(rasterize(&Vec::new(), 0, 0, 0).is_ok());
}

#[test]
fn level_altitude_counts_whole_multiples_of_the_scale() {
    assert_eq!(ERODED_SCALE, 32767);
    assert_eq!(level_altitude(0, 20 * ONE), 0);
    assert_eq!(level_altitude(32766, 20 * ONE), 0);
    assert_eq!(level_altitude(32767, 20 * ONE), 20 * ONE);
    assert_eq!(level_altitude(65533, 20 * ONE), 20 * ONE);
    assert_eq!(level_altitude(65534, 20 * ONE), 40 * ONE);
    assert_eq!(level_altitude(65535, i32::MAX), i32::MAX);
    assert_eq!(level_altitude(65535, i32::MIN), i32::MIN);
}

#[test]
fn eroded_image_is_coloured_by_altitude() {
    let raster = vec![0, 100, 32767, 65534];
    let color = color_eroded_image(&raster, 24 * ONE);
    assert_eq!(color, vec![70, 150, 200, 70, 150, 200, 20, 80, 20, 15, 60, 15]);
    assert_eq!(color_eroded_image(&Vec::new(), ONE), Vec::<u8>::new());
}

#[test]
fn a_point_without_a_value_is_reported() {
    let map = Colormap::altitude();
    assert_eq!(sample_cell(None, 30 * ONE, &map), Err(TerrainError::UnresolvedElevationSample));
    assert_eq!(
        sample_cell(Some(15 * ONE), 30 * ONE, &map),
        Ok((16384, Rgb { red: 54, green: 117, blue: 41 }))
    );
}

#[test]
fn mean_height_of_a_map() {
    assert_eq!(get_height(&vec![0, 32767], 100, 0, 32767), Some(50));
    assert_eq!(get_height(&vec![0, 0, 32767], 100, 0, 32767), Some(34));
    assert_eq!(get_height(&vec![16384], 1000, 0, 32767), Some(500));
    assert_eq!(get_height(&vec![10, 20, 30], 5, 10, 30), Some(3));
    assert_eq!(get_height(&vec![0, 5], 11, 10, 20), Some(-6));
}

#[test]
fn mean_height_is_missing_where_it_cannot_be_computed() {
    assert_eq!(get_height(&Vec::new(), 100, 0, 32767), None);
    assert_eq!(get_height(&vec![1, 2, 3], 100, 7, 7), None);
    assert_eq!(get_height(&vec![65535], i32::MAX, 0, 32767), None);
    assert_eq!(get_height(&vec![1], i32::MIN, 0, 32767), None);
    assert_eq!(get_height(&vec![32767], i32::MAX, 0, 32767), None);
    assert_eq!(get_height(&vec![32767; 32767], 65536, 0, 32767), Some(65536));
    assert_eq!(get_height(&vec![32767; 32768], 65536, 0, 32767), None);
}
