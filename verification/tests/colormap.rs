use terrain_erosion::colormap::{
    altitude_color, apply_brightness, dim, get_interporated_color, get_surounding_index, lerp_color, mix,
    mix_rgb, Colormap, Rgb,
};

const ONE: i32 = 65536;

fn rgb(red: u8, green: u8, blue: u8) -> Rgb {
    Rgb { red, green, blue }
}

#[test]
fn altitude_map_has_five_stops() {
    let map = Colormap::altitude();
    assert_eq!(map.elevations, vec![0, ONE / 2, ONE, 18 * ONE, 30 * ONE]);
    assert_eq!(
        map.colors,
        vec![rgb(70, 150, 200), rgb(240, 240, 210), rgb(190, 200, 120), rgb(25, 100, 25), rgb(15, 60, 15)]
    );
}

#[test]
fn each_stop_has_its_own_colour() {
    assert_eq!(altitude_color(0), rgb(70, 150, 200));
    assert_eq!(altitude_color(ONE / 2), rgb(240, 240, 210));
    assert_eq!(altitude_color(ONE), rgb(190, 200, 120));
    assert_eq!(altitude_color(18 * ONE), rgb(25, 100, 25));
    assert_eq!(altitude_color(30 * ONE), rgb(15, 60, 15));
}

#[test]
fn colours_change_linearly_between_stops() {
    assert_eq!(altitude_color(ONE / 4), rgb(155, 195, 205));
    assert_eq!(altitude_color(3 * ONE / 4), rgb(215, 220, 165));
    assert_eq!(altitude_color(19 * ONE / 2), rgb(107, 150, 72));
    assert_eq!(altitude_color(24 * ONE), rgb(20, 80, 20));
    assert_eq!(altitude_color(1), rgb(70, 150, 200));
    assert_eq!(altitude_color(ONE / 2 - 1), rgb(239, 239, 209));
    assert_eq!(altitude_color(ONE - 1), rgb(190, 200, 120));
}

#[test]
fn colours_outside_the_stops_are_those_of_the_ends() {
    assert_eq!(altitude_color(-5 * ONE), rgb(70, 150, 200));
    assert_eq!(altitude_color(i32::MIN), rgb(70, 150, 200));
    assert_eq!(altitude_color(40 * ONE), rgb(15, 60, 15));
    assert_eq!(altitude_color(i32::MAX), rgb(15, 60, 15));
}

#[test]
fn color_at_agrees_with_altitude_color() {
    let map = Colormap::altitude();
    for altitude in [-ONE, 0, 100, ONE / 3, ONE, 5 * ONE, 17 * ONE, 29 * ONE, 31 * ONE] {
        assert_eq!(map.color_at(altitude), altitude_color(altitude));
    }
}

#[test]
fn surrounding_index_brackets_the_target() {
    let props = vec![0, 10, 20, 40];
    assert_eq!(get_surounding_index(&props, -3), (0, 0));
    assert_eq!(get_surounding_index(&props, 0), (0, 0));
    assert_eq!(get_surounding_index(&props, 1), (0, 1));
    assert_eq!(get_surounding_index(&props, 10), (1, 2));
    assert_eq!(get_surounding_index(&props, 39), (2, 3));
    assert_eq!(get_surounding_index(&props, 40), (3, 3));
    assert_eq!(get_surounding_index(&props, 99), (3, 3));
    assert_eq!(get_surounding_index(&vec![7], 7), (0, 0));
    assert_eq!(get_surounding_index(&vec![7], 8), (0, 0));
}

#[test]
fn interpolated_colour_of_a_map_of_two_stops() {
    let colors = vec![rgb(0, 100, 255), rgb(200, 0, 55)];
    let elevations = vec![10, 20];
    assert_eq!(get_interporated_color(&colors, &elevations, 5), rgb(0, 100, 255));
    assert_eq!(get_interporated_color(&colors, &elevations, 10), rgb(0, 100, 255));
    assert_eq!(get_interporated_color(&colors, &elevations, 15), rgb(100, 50, 155));
    assert_eq!(get_interporated_color(&colors, &elevations, 17), rgb(140, 30, 115));
    assert_eq!(get_interporated_color(&colors, &elevations, 20), rgb(200, 0, 55));
    assert_eq!(get_interporated_color(&colors, &elevations, 25), rgb(200, 0, 55));
}

#[test]
fn lerp_color_rounds_toward_zero() {
    let a = rgb(10, 200, 0);
    let b = rgb(20, 100, 255);
    assert_eq!(lerp_color(a, b, 0), a);
    assert_eq!(lerp_color(a, b, ONE), b);
    assert_eq!(lerp_color(a, b, ONE / 2), rgb(15, 150, 127));
    assert_eq!(lerp_color(a, b, ONE / 4), rgb(12, 175, 63));
}

#[test]
fn lerp_color_holds_channels_between_0_and_255() {
    let a = rgb(10, 200, 0);
    let b = rgb(20, 100, 255);
    assert_eq!(lerp_color(a, b, 2 * ONE), rgb(30, 0, 255));
    assert_eq!(lerp_color(a, b, -ONE), rgb(0, 255, 0));
    assert_eq!(lerp_color(a, b, i32::MAX), rgb(255, 0, 255));
    assert_eq!(lerp_color(a, b, i32::MIN), rgb(0, 255, 0));
}

#[test]
fn brightness_multiplies_each_channel() {
    let c = rgb(100, 200, 3);
    assert_eq!(apply_brightness(c, ONE), c);
    assert_eq!(apply_brightness(c, ONE / 2), rgb(50, 100, 1));
    assert_eq!(apply_brightness(c, 2 * ONE), rgb(200, 255, 6));
    assert_eq!(apply_brightness(c, 0), rgb(0, 0, 0));
    assert_eq!(apply_brightness(c, -ONE), rgb(0, 0, 0));
    assert_eq!(dim(255, ONE / 3), 84);
}

#[test]
fn mix_takes_any_ratio() {
    assert_eq!(mix(0, 90, 1, 3), 30);
    assert_eq!(mix(90, 0, 1, 3), 60);
    assert_eq!(mix(0, 100, 2, 3), 66);
    assert_eq!(mix(100, 0, 2, 3), 33);
    assert_eq!(mix_rgb(rgb(0, 90, 100), rgb(90, 0, 100), 1, 3), rgb(30, 60, 100));
}
