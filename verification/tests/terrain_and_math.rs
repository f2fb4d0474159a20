//! Terrain generation and fixed-point math, checked on concrete values.

use motorcycle::fixed::{clamp, div_fl, euc_mod};
use motorcycle::model::{Command, Game, Params, GROUND_LENGTH};
use motorcycle::trig::{cos_lerp, cos_milli, rad2deg, slope_angle, wrap_pi};

#[test]
fn terrain_is_a_permutation() {
    for seed in [0u64, 1, 42, 123456789, u64::MAX] {
        let game = Game::new(seed);
        assert_eq!(game.ground.len(), GROUND_LENGTH);
        let mut seen = [false; GROUND_LENGTH];
        for &h in game.ground.iter() {
            assert!(!seen[h as usize], "height {} appears twice (seed {})", h, seed);
            seen[h as usize] = true;
        }
        assert!(seen.iter().all(|&s| s), "some height missing (seed {})", seed);
    }
}

#[test]
fn terrain_is_shuffled() {
    // If the shuffle handed its input back unchanged, the table would be the
    // identity 0, 1, ..., 255.
    let game = Game::new(1);
    let identity: Vec<u8> = (0..=255u8).collect();
    assert_ne!(game.ground, identity);
}

#[test]
fn terrain_same_seed_same_table() {
    let a = Game::new(7777);
    let b = Game::new(7777);
    assert_eq!(a.ground, b.ground);
}

#[test]
fn create_stage_regenerates_the_same_table() {
    let mut game = Game::new(99);
    let before = game.ground.clone();
    game.create_stage();
    assert_eq!(game.ground, before);
}

#[test]
fn noise_on_identity_table_exact_values() {
    let mut game = Game::new(5);
    game.ground = (0..=255u8).collect();
    // World coordinate 0: table entry 0 with fraction 0.
    assert_eq!(game.noise(0), 0);
    // 50 pixels: u = 0.5, halfway between heights 0 and 1 with a symmetric
    // ease curve; 0.5 in milli-heights.
    assert_eq!(game.noise(50_000), 500);
    // 100 pixels: u = 1.0, exactly height 1.
    assert_eq!(game.noise(100_000), 1000);
    // ground_y hangs a quarter of the noise below the screen bottom.
    assert_eq!(game.t, 0);
    assert_eq!(game.ground_y(0), 400_000);
    assert_eq!(game.ground_y(50_000), 400_000 - 500 / 4);
}

#[test]
fn noise_wraps_around_the_table() {
    let mut game = Game::new(5);
    game.ground = (0..=255u8).collect();
    // 25550 pixels: u = 255.5, halfway between the last entry (255) and the
    // wrapped-around first entry (0).
    assert_eq!(game.noise(25_550_000), (255_000 + 0) / 2);
    // 25600 pixels: u wraps to exactly 0.
    assert_eq!(game.noise(25_600_000), 0);
}

#[test]
fn cos_lerp_exact_values() {
    // Ease weight 0 at the left end, 1 at the right end, 1/2 in the middle.
    assert_eq!(cos_lerp(0, 1000, 0), 0);
    assert_eq!(cos_lerp(0, 1000, 500), 500);
    assert_eq!(cos_lerp(0, 1000, 1000), 1000);
    // Works downhill too, and stays within the endpoints.
    assert_eq!(cos_lerp(1000, 0, 500), 500);
    for f in (0..=1000).step_by(50) {
        let r = cos_lerp(200, 900, f);
        assert!((200..=900).contains(&r));
    }
}

#[test]
fn cos_milli_endpoints() {
    assert_eq!(cos_milli(0), 1000);
    assert_eq!(cos_milli(3142), -1000);
    // Near a quarter turn the cosine is near zero.
    assert!(cos_milli(1571).abs() <= 5);
}

#[test]
fn slope_angle_values() {
    assert_eq!(slope_angle(0), 0);
    // A 45-degree slope: dy == dx == 5000; atan(1) is a quarter of pi.
    let a45 = slope_angle(5000);
    assert!((780..=790).contains(&a45), "atan(1) was {}", a45);
    // Odd symmetry.
    assert_eq!(slope_angle(-5000), -a45);
    // Very steep slopes saturate at a quarter turn.
    assert_eq!(slope_angle(6_000_000_000), 1571);
}

#[test]
fn wrap_pi_values() {
    assert_eq!(wrap_pi(0), 0);
    assert_eq!(wrap_pi(3141), 3141);
    // Crossing pi comes back in at minus pi.
    assert_eq!(wrap_pi(3142), -3142);
    assert_eq!(wrap_pi(3200), 3200 - 6284);
    assert_eq!(wrap_pi(-3143), 6284 - 3143);
}

#[test]
fn rad2deg_values() {
    // pi milli-radians is 180 degrees (in milli-degrees, with 180/pi taken
    // as 57.296).
    assert_eq!(rad2deg(3142), 180_024);
    assert_eq!(rad2deg(0), 0);
    // Floor division rounds toward minus infinity.
    assert_eq!(rad2deg(-3142), -180_025);
}

#[test]
fn fixed_point_division_is_floor() {
    assert_eq!(div_fl(7, 2), 3);
    assert_eq!(div_fl(-7, 2), -4);
    assert_eq!(div_fl(-10, 10), -1);
    assert_eq!(euc_mod(-7, 10), 3);
    assert_eq!(euc_mod(7, 10), 7);
    assert_eq!(clamp(5, 0, 3), 3);
    assert_eq!(clamp(-5, 0, 3), 0);
    assert_eq!(clamp(2, 0, 3), 2);
}

#[test]
fn params_standard_values() {
    let p = Params::new();
    assert_eq!(p.speed_scale, 7000);
    assert_eq!(p.gravity, 100);
    assert_eq!(p.control_rotate_scale, 50);
    assert_eq!(p.min_speed, 500);
}

#[test]
fn command_default_is_all_zero() {
    let c = Command::default();
    assert_eq!((c.left, c.right, c.up, c.down), (0, 0, 0, 0));
}
