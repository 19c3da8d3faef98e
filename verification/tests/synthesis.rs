use terrain_erosion::synthesis::{
    relaxed_sea_share, CONTINENT_LACUNARITY_TENTHS, CONTINENT_OCTAVES, CONTINENT_SCALE,
    DIRECTION_LACUNARITY_TENTHS, DIRECTION_PERSISTENCE, ERODIBILITY_LACUNARITY_TENTHS, ERODIBILITY_OCTAVES,
    ERODIBILITY_PERSISTENCE, FAULT_DIRECTION_OCTAVES, FAULT_MAGNITUDE_OCTAVES, FAULT_SCALE, OPEN_SEA_SHARE,
    PLAIN_LACUNARITY_TENTHS, PLAIN_PERSISTENCE, PLATE_LACUNARITY_TENTHS, PLATE_OCTAVES,
    PLATE_PERSISTENCE_OCTAVES, PLATE_SCALE, REEF_DIRECTION_OCTAVES, REEF_MAGNITUDE_OCTAVES,
    REEF_SCALE_OCTAVES, REEF_SCALE_SCALE, SEA_SHARE_STEP,
};
use terrain_erosion::synthesis::{
    apply_fault, apply_reef, continent_level, displace, get_fault, get_reef, site_is_candidate, displace_axis, erodibility, fault_offset, is_candidate_ocean, octaved_perlin,
    plate_level, plate_persistence, reef_modulus, reef_offset, reef_scale, site_count, site_parameters,
    SiteParameters,
};

const ONE: i32 = 65536;

#[test]
fn bounds_of_100_by_100_at_density_4_give_40000_sites() {
    assert_eq!(site_count((0, 0), (100 * ONE, 100 * ONE), 4 * ONE), 40000);
}

#[test]
fn site_count_rounds_down() {
    assert_eq!(site_count((0, 0), (3 * ONE, 3 * ONE), ONE / 2), 4);
    assert_eq!(site_count((ONE, 2 * ONE), (4 * ONE, 4 * ONE), ONE), 6);
    assert_eq!(site_count((-50 * ONE, -50 * ONE), (50 * ONE, 50 * ONE), 4 * ONE), 40000);
    assert_eq!(site_count((0, 0), (ONE / 2, ONE / 2), 3 * ONE), 0);
    assert_eq!(site_count((0, 0), (ONE, ONE), 1), 0);
}

#[test]
fn site_count_of_no_area_or_a_negative_product_is_zero() {
    assert_eq!(site_count((0, 0), (0, 100 * ONE), 4 * ONE), 0);
    assert_eq!(site_count((0, 0), (100 * ONE, 100 * ONE), 0), 0);
    assert_eq!(site_count((0, 0), (100 * ONE, 100 * ONE), -4 * ONE), 0);
    assert_eq!(site_count((0, 0), (-100 * ONE, 100 * ONE), 4 * ONE), 0);
    assert_eq!(site_count((0, 0), (-100 * ONE, -100 * ONE), 4 * ONE), 40000);
}

#[test]
fn site_count_of_the_widest_bounds() {
    let count = site_count((i32::MIN, i32::MIN), (i32::MAX, i32::MAX), i32::MAX);
    assert_eq!(count as u128, (4294967295u128 * 4294967295u128 * 2147483647u128) >> 48);
}

#[test]
fn candidate_ocean_lies_below_the_continent_by_more_than_the_sea_share() {
    assert!(is_candidate_ocean(10, 20, 5));
    assert!(!is_candidate_ocean(15, 20, 5));
    assert!(!is_candidate_ocean(16, 20, 5));
    assert!(is_candidate_ocean(14, 20, 5));
    assert!(is_candidate_ocean(0, 0, -1));
    assert!(!is_candidate_ocean(i32::MAX, i32::MIN, i32::MAX));
    assert!(is_candidate_ocean(i32::MIN, i32::MAX, i32::MIN));
}

#[test]
fn erodibility_is_four_times_the_noise_plus_a_tenth_times_the_mountain_share() {
    assert_eq!(erodibility(ONE / 2, 25 * ONE), 3440625);
    assert_eq!(erodibility(-ONE / 2, 25 * ONE), 3440625);
    assert_eq!(erodibility(0, ONE), 6553);
}

#[test]
fn erodibility_is_always_above_zero() {
    assert_eq!(erodibility(0, 0), 1);
    assert_eq!(erodibility(100, -ONE), 1);
    assert_eq!(erodibility(i32::MAX, i32::MAX), i32::MAX);
    assert_eq!(erodibility(i32::MIN, i32::MIN), 1);
}

#[test]
fn site_parameters_pair_erodibility_and_outlet() {
    let parameters = site_parameters(&vec![ONE / 2, 0, -ONE / 2], &vec![true, false, true], 25 * ONE);
    assert_eq!(
        parameters,
        vec![
            SiteParameters { erodibility: 3440625, is_outlet: true },
            SiteParameters { erodibility: 163825, is_outlet: false },
            SiteParameters { erodibility: 3440625, is_outlet: true },
        ]
    );
    assert_eq!(site_parameters(&Vec::new(), &Vec::new(), ONE), Vec::new());
}

#[test]
fn octaves_are_weighed_by_the_powers_of_the_persistence() {
    assert_eq!(octaved_perlin(&vec![ONE / 2, -ONE / 4, ONE / 8], ONE / 2), 15213);
    assert_eq!(octaved_perlin(&vec![ONE], 45875), ONE);
    assert_eq!(octaved_perlin(&vec![-ONE, -ONE], ONE), -ONE);
    assert_eq!(octaved_perlin(&vec![10000, 20000, 30000, 40000], 0), 10000);
    assert_eq!(octaved_perlin(&vec![3, -7, 11], 45875), 1);
    assert_eq!(octaved_perlin(&Vec::new(), ONE / 2), 0);
    assert_eq!(octaved_perlin(&vec![i32::MAX; 8], ONE), i32::MAX);
    assert_eq!(octaved_perlin(&vec![i32::MIN; 8], ONE), i32::MIN);
}

#[test]
fn mask_levels_are_affine_in_the_noise() {
    assert_eq!(plate_persistence(ONE / 2), 42597);
    assert_eq!(plate_persistence(-ONE / 2), 42597);
    assert_eq!(plate_persistence(ONE), 65535);
    assert_eq!(plate_persistence(0), 19660);
    assert_eq!(plate_level(-ONE), 0);
    assert_eq!(plate_level(ONE), ONE);
    assert_eq!(plate_level(0), ONE / 2);
    assert_eq!(continent_level(-ONE / 2), 9831);
    assert_eq!(continent_level(0), ONE / 2);
}

#[test]
fn fault_is_direction_times_magnitude_times_seventy() {
    assert_eq!(fault_offset(ONE / 2, ONE / 4), 1146880);
    assert_eq!(fault_offset(-ONE / 2, -ONE / 4), -1146880);
    assert_eq!(fault_offset(0, 5), 0);
    assert_eq!(fault_offset(i32::MAX, i32::MAX), i32::MAX);
    assert_eq!(fault_offset(i32::MAX, i32::MIN), i32::MIN);
}

#[test]
fn reef_scale_runs_from_seven_and_a_half_to_twenty() {
    assert_eq!(reef_scale(0), 491520);
    assert_eq!(reef_scale(ONE / 2), 20 * ONE);
    assert_eq!(reef_scale(-ONE / 2), 20 * ONE);
    assert_eq!(reef_scale(ONE / 4), 901120);
    assert_eq!(reef_scale(i32::MIN), i32::MAX);
}

#[test]
fn reef_modulus_is_capped_at_five() {
    assert_eq!(reef_modulus(ONE / 2), 5 * ONE);
    assert_eq!(reef_modulus(ONE), 5 * ONE);
    assert_eq!(reef_modulus(i32::MIN), 5 * ONE);
    assert_eq!(reef_modulus(ONE / 4), 28960);
    assert_eq!(reef_modulus(-ONE / 8), 2560);
    assert_eq!(reef_modulus(ONE / 2 - 1), 327640);
    assert_eq!(reef_modulus(0), 0);
    assert_eq!(reef_modulus(1), 0);
}

#[test]
fn reef_offset_is_direction_times_modulus() {
    assert_eq!(reef_offset(ONE / 2, 5 * ONE), 5 * ONE / 2);
    assert_eq!(reef_offset(-ONE / 2, 28960), -14480);
    assert_eq!(reef_offset(0, 5 * ONE), 0);
    assert_eq!(reef_offset(i32::MAX, i32::MAX), i32::MAX);
}

#[test]
fn displacement_moves_a_site_and_holds_it_within_range() {
    assert_eq!(displace((10, -20), (5, 7)), (15, -13));
    assert_eq!(displace((i32::MAX, i32::MIN), (1, -1)), (i32::MAX, i32::MIN));
    assert_eq!(displace_axis(3, -4), -1);
}

#[test]
fn fault_first_and_reef_after_it() {
    let site = (50 * ONE, 50 * ONE);
    let faulted = displace(site, (fault_offset(ONE / 2, ONE / 4), fault_offset(ONE / 2, -ONE / 4)));
    assert_eq!(faulted, (50 * ONE + 1146880, 50 * ONE - 1146880));
    let modulus = reef_modulus(ONE / 4);
    let warped = displace(faulted, (reef_offset(ONE / 2, modulus), reef_offset(-ONE / 2, modulus)));
    assert_eq!(warped, (50 * ONE + 1146880 + 14480, 50 * ONE - 1146880 - 14480));
}

#[test]
fn synthesis_is_repeatable() {
    let noise: Vec<i32> = (0..64).map(|i| (i * 2731 - 70000) as i32).collect();
    let outlets: Vec<bool> = (0..64).map(|i| i % 3 == 0).collect();
    let first = site_parameters(&noise, &outlets, 25 * ONE);
    let second = site_parameters(&noise, &outlets, 25 * ONE);
    assert_eq!(first, second);
    assert!(first.iter().all(|site| site.erodibility > 0));
    for &n in &noise {
        assert_eq!(
            displace((n, -n), (fault_offset(n, n / 2), reef_offset(n, reef_modulus(n)))),
            displace((n, -n), (fault_offset(n, n / 2), reef_offset(n, reef_modulus(n))))
        );
    }
}

#[test]
fn fault_and_reef_displace_both_axes() {
    assert_eq!(get_fault(ONE / 2, ONE / 4, -ONE / 4), (1146880, -1146880));
    assert_eq!(get_reef(ONE / 4, ONE / 2, -ONE / 2), (14480, -14480));
    let site = (50 * ONE, 50 * ONE);
    let faulted = apply_fault(site, ONE / 2, ONE / 4, -ONE / 4);
    assert_eq!(faulted, (50 * ONE + 1146880, 50 * ONE - 1146880));
    let warped = apply_reef(faulted, ONE / 4, ONE / 2, -ONE / 2);
    assert_eq!(warped, (50 * ONE + 1146880 + 14480, 50 * ONE - 1146880 - 14480));
}

#[test]
fn candidate_from_the_noise_of_a_site() {
    // Plate level 0.25 and continent level 0.5 + 0.7 * 0.5 = 0.85.
    assert!(site_is_candidate(-ONE / 2, ONE / 2, ONE / 2));
    assert!(!site_is_candidate(-ONE / 2, ONE / 2, 6 * ONE / 10));
    // Plate level 1.0 lies below no continent level of at most 1.2 by 0.5.
    assert!(!site_is_candidate(ONE, ONE, ONE / 2));
    assert!(site_is_candidate(ONE, ONE, -ONE));
}

#[test]
fn noise_channels_have_their_parameters() {
    assert_eq!(FAULT_SCALE, 100 * ONE);
    assert_eq!((FAULT_MAGNITUDE_OCTAVES, FAULT_DIRECTION_OCTAVES), (3, 4));
    assert_eq!(REEF_SCALE_SCALE, 800 * ONE);
    assert_eq!((REEF_SCALE_OCTAVES, REEF_MAGNITUDE_OCTAVES, REEF_DIRECTION_OCTAVES), (2, 3, 4));
    assert_eq!(PLATE_SCALE, 50 * ONE);
    assert_eq!((PLATE_PERSISTENCE_OCTAVES, PLATE_OCTAVES), (2, 8));
    assert_eq!(CONTINENT_SCALE, 200 * ONE);
    assert_eq!(CONTINENT_OCTAVES, 3);
    assert_eq!(ERODIBILITY_OCTAVES, 5);
    assert_eq!(PLAIN_PERSISTENCE, ONE / 2);
    assert_eq!(DIRECTION_PERSISTENCE, 39321);
    assert_eq!(ERODIBILITY_PERSISTENCE, 45875);
    assert_eq!(PLAIN_LACUNARITY_TENTHS, 20);
    assert_eq!(DIRECTION_LACUNARITY_TENTHS, 22);
    assert_eq!(PLATE_LACUNARITY_TENTHS, 24);
    assert_eq!(CONTINENT_LACUNARITY_TENTHS, 18);
    assert_eq!(ERODIBILITY_LACUNARITY_TENTHS, 22);
}

#[test]
fn the_share_of_sea_is_relaxed_by_half_or_by_a_step() {
    assert_eq!(SEA_SHARE_STEP, 3276);
    assert_eq!(relaxed_sea_share(5 * ONE), 5 * ONE / 2);
    assert_eq!(relaxed_sea_share(ONE), ONE / 2);
    assert_eq!(relaxed_sea_share(6552), 3276);
    assert_eq!(relaxed_sea_share(6554), 3277);
    assert_eq!(relaxed_sea_share(1000), 1000 - 3276);
    assert_eq!(relaxed_sea_share(0), -3276);
    assert_eq!(relaxed_sea_share(-ONE), -ONE - ONE / 2);
    assert_eq!(relaxed_sea_share(i32::MAX), 1073741824);
    assert_eq!(relaxed_sea_share(i32::MIN), i32::MIN);
}

#[test]
fn relaxing_the_default_share_of_sea_opens_the_sea() {
    let mut share = 5 * ONE;
    let mut steps = 0;
    while share > OPEN_SEA_SHARE {
        share = relaxed_sea_share(share);
        steps += 1;
        assert!(steps < 64);
    }
    assert_eq!(OPEN_SEA_SHARE, -81920);
    for plate in [-ONE, 0, ONE] {
        for continent in [-ONE, 0, ONE] {
            assert!(site_is_candidate(plate, continent, share));
            assert!(site_is_candidate(plate, continent, OPEN_SEA_SHARE));
        }
    }
    assert!(!site_is_candidate(ONE, -ONE, -78643));
    assert!(site_is_candidate(ONE, -ONE, -78644));
}
