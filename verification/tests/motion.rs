use topdown_combat::config::Configuration;
use topdown_combat::fixed::{isqrt, isqrt_ceil, magnitude, square};
use topdown_combat::input::{keyboard_input, Keys};
use topdown_combat::motion::{
    brake_by, direction_of, keyboard_input_system, limit_to, step_of, MoveInput,
};
use topdown_combat::player::Player;
use topdown_combat::scene::PlayerBundle;
use topdown_combat::components::Spritesheet;
use topdown_combat::vec2::{halve, Vec2, Vec3};

const TICK: u32 = 16_000;

fn fresh_player() -> Player {
    PlayerBundle::new(Spritesheet(1)).player
}

fn keys(left: bool, right: bool, up: bool, down: bool) -> MoveInput {
    MoveInput { left, right, up, down }
}

fn none() -> MoveInput {
    keys(false, false, false, false)
}

#[test]
fn default_configuration_has_documented_values() {
    let c = Configuration::default();
    assert_eq!(c.acceleration, 3_000_000);
    assert_eq!(c.decceleration, 2_000_000);
    assert_eq!(c.max_speed, 400_000);
    assert_eq!(c.dash_speed, 1_000_000);
    assert_eq!(c.dash_deceleration, 10_000_000);
    assert_eq!(c.dash_duration, 100_000);
    assert_eq!(c.dash_cooldown, 1_000_000);
    assert_eq!(c.pawn_speed, 300_000);
    assert!(c.is_wf());
}

#[test]
fn configuration_out_of_range_is_not_well_formed() {
    let mut c = Configuration::default();
    c.max_speed = 0x8000_0001;
    assert!(!c.is_wf());
    let mut c = Configuration::default();
    c.dash_deceleration = -1;
    assert!(!c.is_wf());
    let mut c = Configuration::default();
    c.acceleration = -0x8000_0000;
    assert!(c.is_wf());
}

#[test]
fn integer_square_roots() {
    assert_eq!(isqrt(0), 0);
    assert_eq!(isqrt(1), 1);
    assert_eq!(isqrt(24), 4);
    assert_eq!(isqrt(25), 5);
    assert_eq!(isqrt(u128::MAX), u64::MAX);
    assert_eq!(isqrt_ceil(0), 0);
    assert_eq!(isqrt_ceil(24), 5);
    assert_eq!(isqrt_ceil(25), 5);
    assert_eq!(isqrt_ceil(26), 6);
    assert_eq!(isqrt_ceil(1u128 << 127), 13_043_817_825_332_782_213);
}

#[test]
fn magnitudes_and_squares() {
    assert_eq!(magnitude(-5), 5);
    assert_eq!(magnitude(7), 7);
    assert_eq!(magnitude(i64::MIN), 1u64 << 63);
    assert_eq!(square(-3), 9);
    assert_eq!(square(i64::MIN), 1u128 << 126);
    assert_eq!(halve(7), 3);
    assert_eq!(halve(-7), -3);
    assert_eq!(halve(-8), -4);
}

#[test]
fn step_is_rate_times_time() {
    assert_eq!(step_of(3_000_000, TICK), 48_000);
    assert_eq!(step_of(2_000_000, TICK), 32_000);
    assert_eq!(step_of(-2_000_000, TICK), -32_000);
    assert_eq!(step_of(1, 999_999), 0);
    assert_eq!(step_of(-1, 999_999), 0);
    assert_eq!(step_of(0x8000_0000, u32::MAX), 9_223_372_034_707);
}

#[test]
fn direction_sums_the_axes_held() {
    assert_eq!(direction_of(none()), Vec2::new(0, 0));
    assert_eq!(direction_of(keys(true, false, false, false)), Vec2::new(-1, 0));
    assert_eq!(direction_of(keys(false, true, true, false)), Vec2::new(1, 1));
    assert_eq!(direction_of(keys(true, true, false, true)), Vec2::new(0, -1));
    assert_eq!(direction_of(keys(true, true, true, true)), Vec2::new(0, 0));
}

#[test]
fn rescaling_rounds_in_the_direction_named() {
    let v = Vec2::new(1, 1);
    assert_eq!(v.with_length_floor(48_000), Vec2::new(33_941, 33_941));
    assert_eq!(v.with_length_ceil(48_000), Vec2::new(33_942, 33_942));
    assert_eq!(v.with_length_floor(-48_000), Vec2::new(-33_941, -33_941));
    assert_eq!(Vec2::new(-3, 4).with_length_floor(10), Vec2::new(-6, 8));
    assert_eq!(Vec2::new(-3, 4).with_length_ceil(10), Vec2::new(-6, 8));
    assert_eq!(Vec2::zero().with_length_floor(1_000), Vec2::zero());
    assert_eq!(Vec2::zero().with_length_ceil(1_000), Vec2::zero());
    assert_eq!(Vec2::new(5, 0).with_length_floor(0), Vec2::zero());
}

#[test]
fn vector_arithmetic() {
    assert_eq!(Vec2::new(1, 2).plus(Vec2::new(-4, 10)), Vec2::new(-3, 12));
    assert_eq!(Vec2::new(1, 2).minus(Vec2::new(-4, 10)), Vec2::new(5, -8));
    assert_eq!(Vec2::new(-3, 4).length_squared(), 25);
    assert_eq!(Vec2::new(i64::MIN, i64::MIN).length_squared(), 1u128 << 127);
    assert_eq!(Vec2::new(-3, 5).half(), Vec2::new(-1, 2));
    assert!(Vec2::new(0, 0).is_zero());
    assert!(!Vec2::new(0, 1).is_zero());
    assert_eq!(Vec3::new(1, 2, 3).xy(), Vec2::new(1, 2));
}

#[test]
fn braking_snaps_to_zero_when_the_brake_exceeds_the_speed() {
    assert_eq!(brake_by(Vec2::new(16_000, 0), 32_000), Vec2::zero());
    assert_eq!(brake_by(Vec2::new(32_000, 0), 32_000), Vec2::zero());
    assert_eq!(brake_by(Vec2::new(48_000, 0), 32_000), Vec2::new(16_000, 0));
    assert_eq!(brake_by(Vec2::new(0, -48_000), 32_000), Vec2::new(0, -16_000));
    assert_eq!(brake_by(Vec2::zero(), 32_000), Vec2::zero());
    assert_eq!(brake_by(Vec2::new(1, 1), 1), Vec2::zero());
    assert_eq!(brake_by(Vec2::new(5, 0), 0), Vec2::new(5, 0));
}

#[test]
fn limit_rescales_only_what_is_too_fast() {
    assert_eq!(limit_to(Vec2::new(432_000, 0), 400_000), Vec2::new(400_000, 0));
    assert_eq!(limit_to(Vec2::new(400_000, 0), 400_000), Vec2::new(400_000, 0));
    assert_eq!(limit_to(Vec2::new(300_000, 400_000), 400_000), Vec2::new(240_000, 320_000));
    assert_eq!(limit_to(Vec2::new(-3, 4), 5), Vec2::new(-3, 4));
    assert_eq!(limit_to(Vec2::new(3, 4), -5), Vec2::new(-3, -4));
}

#[test]
fn idle_player_stays_at_rest_then_reaches_the_cap() {
    let config = Configuration::default();
    let mut player = fresh_player();
    for _ in 0..5 {
        keyboard_input_system(&config, TICK, none(), &mut player);
        assert_eq!(player.speed, Vec2::new(0, 0));
    }
    let right = keys(false, true, false, false);
    let mut reached_at = 0;
    for tick in 1..=62 {
        keyboard_input_system(&config, TICK, right, &mut player);
        assert_eq!(player.speed.y, 0);
        assert!(player.speed.x <= 400_000);
        if player.speed.x == 400_000 && reached_at == 0 {
            reached_at = tick;
        }
    }
    assert_eq!(reached_at, 9);
    assert_eq!(player.speed, Vec2::new(400_000, 0));
    assert_eq!(player.direction, Vec2::new(1, 0));
}

#[test]
fn acceleration_gains_exactly_one_step_per_tick() {
    let config = Configuration::default();
    let mut player = fresh_player();
    let right = keys(false, true, false, false);
    keyboard_input_system(&config, TICK, right, &mut player);
    assert_eq!(player.speed, Vec2::new(48_000, 0));
    keyboard_input_system(&config, TICK, right, &mut player);
    assert_eq!(player.speed, Vec2::new(96_000, 0));
    let mut player = fresh_player();
    let up_left = keys(true, false, true, false);
    keyboard_input_system(&config, TICK, up_left, &mut player);
    assert_eq!(player.speed, Vec2::new(-33_941, 33_941));
}

#[test]
fn speed_never_exceeds_the_cap() {
    let config = Configuration::default();
    let cap = square(config.max_speed);
    let mut player = fresh_player();
    let inputs = [
        keys(false, true, true, false),
        keys(false, true, false, false),
        keys(true, false, false, true),
        none(),
        keys(false, false, true, false),
    ];
    for tick in 0..400 {
        let held = inputs[(tick / 7) % inputs.len()];
        keyboard_input_system(&config, TICK + (tick as u32 % 5) * 1_000, held, &mut player);
        assert!(player.speed.length_squared() <= cap);
    }
    let mut player = fresh_player();
    for _ in 0..13 {
        keyboard_input_system(&config, TICK, keys(false, true, true, false), &mut player);
    }
    assert_eq!(player.speed, Vec2::new(282_842, 282_842));
}

#[test]
fn braking_reaches_zero_and_holds() {
    let config = Configuration::default();
    let mut player = fresh_player();
    player.speed = Vec2::new(400_000, 0);
    let mut last = player.speed.length_squared();
    for tick in 1..=20 {
        keyboard_input_system(&config, TICK, none(), &mut player);
        let now = player.speed.length_squared();
        assert!(now <= last);
        assert!(player.speed.x >= 0);
        assert_eq!(player.speed.y, 0);
        if tick == 12 {
            assert_eq!(player.speed, Vec2::new(16_000, 0));
        }
        if tick >= 13 {
            assert_eq!(player.speed, Vec2::new(0, 0));
        }
        last = now;
    }
}

#[test]
fn braking_a_diagonal_never_turns_a_sign() {
    let config = Configuration::default();
    let mut player = fresh_player();
    player.speed = Vec2::new(-282_842, 282_842);
    keyboard_input_system(&config, TICK, none(), &mut player);
    assert_eq!(player.speed, Vec2::new(-260_214, 260_214));
    for _ in 0..11 {
        keyboard_input_system(&config, TICK, none(), &mut player);
        assert!(player.speed.x <= 0 && player.speed.y >= 0);
    }
    assert_eq!(player.speed, Vec2::new(-11_306, 11_306));
    keyboard_input_system(&config, TICK, none(), &mut player);
    assert_eq!(player.speed, Vec2::new(0, 0));
    keyboard_input_system(&config, TICK, none(), &mut player);
    assert_eq!(player.speed, Vec2::new(0, 0));
}

#[test]
fn input_keeps_everything_but_speed_direction_and_attack() {
    let config = Configuration::default();
    let mut player = fresh_player();
    let before = player;
    let held = Keys { movement: keys(false, true, false, false), dash: true, attack: false };
    keyboard_input(&config, TICK, held, &mut player);
    assert_eq!(player.position, before.position);
    assert_eq!(player.life, 5);
    assert_eq!(player.dash, None);
    assert_eq!(player.attack, None);
    assert_eq!(player.speed, Vec2::new(48_000, 0));
    assert!(player.is_wf());
}
