use terrain_erosion::flow::{
    accelerate, accumulate_flux, advance_random, carrying_capacity, discharge_of, exchange_sediment,
    interpolate, slope, speed_of, surface_height, DEPOSITION, EROSION, EVAPORATION, FLUX_CAP, FLUX_HALF,
    FRICTION, GRAVITY, HEIGHT_MAX, HEIGHT_UNIT, MIN_VOLUME, RASTER_MAX, SEDIMENT_MAX,
};

const ONE: i64 = 65536;

#[test]
fn constants_of_the_engine() {
    assert_eq!(RASTER_MAX, 32767);
    assert_eq!(HEIGHT_UNIT, 32768);
    assert_eq!(HEIGHT_MAX, 32767 * 32768);
    assert_eq!(SEDIMENT_MAX, 2 * 32767 * 32768);
    assert_eq!(MIN_VOLUME, 655);
    assert_eq!(EVAPORATION, 32);
    assert_eq!(FRICTION, 16);
    assert_eq!(GRAVITY, 16);
    assert_eq!(EROSION, 8);
    assert_eq!(DEPOSITION, 8);
    assert_eq!(FLUX_CAP, 1 << 40);
    assert_eq!(FLUX_HALF, 16 * 65536);
}

#[test]
fn slope_lies_between_the_two_rises() {
    assert_eq!(slope(1000, 3000, ONE / 4), 1500);
    assert_eq!(slope(-1000, -3000, 3 * ONE / 4), -2500);
    assert_eq!(slope(-7, 0, 0), -7);
    assert_eq!(slope(7, -7, ONE / 2), 0);
    assert_eq!(slope(HEIGHT_MAX as i64, HEIGHT_MAX as i64, ONE), HEIGHT_MAX as i64);
    assert_eq!(slope(-(HEIGHT_MAX as i64), -(HEIGHT_MAX as i64), 0), -(HEIGHT_MAX as i64));
}

#[test]
fn interpolation_rounds_down() {
    assert_eq!(interpolate(100, 200, 0), 100);
    assert_eq!(interpolate(100, 200, ONE), 200);
    assert_eq!(interpolate(100, 200, ONE / 2), 150);
    assert_eq!(interpolate(200, 100, ONE / 4), 175);
    assert_eq!(interpolate(0, 1, ONE - 1), 0);
    assert_eq!(interpolate(HEIGHT_MAX as i64, HEIGHT_MAX as i64, 12345), HEIGHT_MAX as i64);
}

#[test]
fn surface_is_bilinear() {
    assert_eq!(surface_height(0, 100, 200, 300, ONE / 2, ONE / 2), 150);
    assert_eq!(surface_height(10, 10, 10, 10, 1, 2), 10);
    assert_eq!(surface_height(0, 65536, 0, 65536, ONE / 4, 0), 16384);
    assert_eq!(surface_height(0, 0, 65536, 65536, 0, 3 * ONE / 4), 49152);
}

#[test]
fn velocity_follows_the_slope_downwards() {
    assert_eq!(accelerate(0, 0), 0);
    assert_eq!(accelerate(0, 1600), -100);
    assert_eq!(accelerate(0, -1600), 100);
    assert_eq!(accelerate(100, 15), 94);
    assert_eq!(accelerate(-15, -17), -14);
}

#[test]
fn velocity_loses_a_sixteenth_to_friction() {
    assert_eq!(accelerate(1600, 0), 1500);
    assert_eq!(accelerate(-1600, 0), -1500);
}

#[test]
fn velocity_is_held_to_one_cell_per_step() {
    assert_eq!(accelerate(ONE, -2000000), ONE);
    assert_eq!(accelerate(-ONE, 2000000), -ONE);
    assert_eq!(speed_of(-ONE), ONE);
    assert_eq!(speed_of(77), 77);
    assert_eq!(speed_of(0), 0);
}

#[test]
fn capacity_is_slope_times_speed_times_volume() {
    assert_eq!(carrying_capacity(1000000, ONE, ONE), 1000000);
    assert_eq!(carrying_capacity(1000000, 2 * ONE, ONE), 2000000);
    assert_eq!(carrying_capacity(1000000, ONE, ONE / 2), 500000);
    assert_eq!(carrying_capacity(0, 2 * ONE, ONE), 0);
    assert_eq!(carrying_capacity(HEIGHT_MAX as i64, 2 * ONE, ONE), SEDIMENT_MAX);
    assert_eq!(carrying_capacity(3, 4, 5), 0);
}

#[test]
fn under_capacity_an_eighth_of_the_deficit_is_taken_up() {
    assert_eq!(exchange_sediment(1000, 0, 800, 65536), (900, 100));
    assert_eq!(exchange_sediment(1000, 100, 900, 3 * 65536), (700, 400));
    assert_eq!(exchange_sediment(1000, 0, 800, 8 * 65536), (200, 800));
    assert_eq!(exchange_sediment(1000, 0, 800, 64 * 65536), (200, 800));
    assert_eq!(exchange_sediment(50, 0, 8000, 65536), (0, 50));
    assert_eq!(exchange_sediment(1000, 0, 800, 0), (1000, 0));
}

#[test]
fn over_capacity_an_eighth_of_the_excess_is_laid_down() {
    assert_eq!(exchange_sediment(1000, 800, 0, 65536), (1100, 700));
    assert_eq!(exchange_sediment(HEIGHT_MAX as i64 - 10, 8000, 0, 65536), (HEIGHT_MAX as i64, 7990));
    assert_eq!(exchange_sediment(1000, 500, 500, 65536), (1000, 500));
    assert_eq!(exchange_sediment(1000, 800, 0, 64 * 65536), (1800, 0));
}

#[test]
fn flow_accumulates_up_to_its_cap() {
    assert_eq!(accumulate_flux(0, ONE), 65536);
    assert_eq!(accumulate_flux(100, 0), 100);
    assert_eq!(accumulate_flux(FLUX_CAP - 1, ONE), FLUX_CAP);
    assert_eq!(accumulate_flux(FLUX_CAP, ONE), FLUX_CAP);
}

#[test]
fn discharge_rises_with_the_flow_and_stays_below_one() {
    assert_eq!(discharge_of(0), 0);
    assert_eq!(discharge_of(65536), 3855);
    assert_eq!(discharge_of(FLUX_HALF), 32768);
    assert_eq!(discharge_of(3 * FLUX_HALF), 49152);
    assert_eq!(discharge_of(FLUX_CAP), 65535);
}

#[test]
fn generator_steps_as_a_linear_congruence() {
    assert_eq!(advance_random(0), 1442695040888963407);
    assert_eq!(advance_random(1), 7806831264735756412);
    assert_eq!(advance_random(u64::MAX), 13525302890751722018);
    assert_eq!(advance_random(advance_random(7)), 17628806926561717905);
}
