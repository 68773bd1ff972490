use topdown_combat::animation::animate;
use topdown_combat::camera::{
    camera_fit_inside_current_level, following_cam, view_size, Camera, Level, ScalingMode, Window,
};
use topdown_combat::combat::{
    damage_enemies, death, find_enemy, find_victim, is_attack, CollisionStarted, DeadBundle,
};
use topdown_combat::components::{Collider, Duration, LockedAxes, RigidBody, Spritesheet};
use topdown_combat::config::Configuration;
use topdown_combat::enemy::{
    enemies_follow_player, pursuit_velocity, spawn_enemies, Enemy, EnemyBundle, EnemySpawnTimer,
};
use topdown_combat::attack::AttackBundle;
use topdown_combat::phase::{update_phase, Sheets, World};
use topdown_combat::scene::{setup, MapHandle, PlayerBundle};
use topdown_combat::vec2::{Vec2, Vec3};
use topdown_combat::walls::{wall_e, Color, Rectangle, WallBundle};

fn enemy(id: u64, x: i64, y: i64) -> Enemy {
    Enemy { id, position: Vec3::new(x, y, 10_000), velocity: Vec2::new(0, 0) }
}

fn marker(at: Vec3) -> DeadBundle {
    DeadBundle::new(Spritesheet(9), at)
}

#[test]
fn timer_catches_up_over_a_long_tick() {
    let mut timer = EnemySpawnTimer::new(3_000_000);
    let spawned = spawn_enemies(&mut timer, 7_000_000, Spritesheet(4));
    assert_eq!(spawned.len(), 2);
    assert_eq!(timer.elapsed, 1_000_000);
    assert_eq!(timer.interval, 3_000_000);
    for bundle in spawned {
        assert_eq!(bundle, EnemyBundle::new(Spritesheet(4), Vec3::new(350_000, 970_000, 10_000)));
    }
}

#[test]
fn timer_counts_periods_across_ticks() {
    let mut timer = EnemySpawnTimer::new(3_000_000);
    let mut total = 0;
    for tick in 1..=375 {
        let n = timer.tick(16_000);
        assert!(n <= 1);
        total += n;
        if tick == 187 {
            assert_eq!(total, 0);
        }
        if tick == 188 {
            assert_eq!(total, 1);
            assert_eq!(timer.elapsed, 8_000);
        }
    }
    assert_eq!(total, 2);
    assert_eq!(timer.tick(0), 0);
    let mut exact = EnemySpawnTimer::new(3_000_000);
    assert_eq!(exact.tick(2_999_999), 0);
    assert_eq!(exact.tick(1), 1);
    assert_eq!(exact.elapsed, 0);
    let mut fine = EnemySpawnTimer::new(1);
    assert_eq!(fine.tick(u32::MAX), u32::MAX);
    let mut long = EnemySpawnTimer::new(18_446_744_073_709_551);
    long.elapsed = 18_446_744_073_709_550;
    assert!(long.is_wf());
    assert_eq!(long.tick(0), 0);
    assert_eq!(long.elapsed, 18_446_744_073_709_550);
    assert_eq!(long.tick(3), 1);
    assert_eq!(long.elapsed, 2);
    long.interval = 18_446_744_073_709_552;
    assert!(!long.is_wf());
    long.interval = 2;
    assert!(!long.is_wf());
}

#[test]
fn new_enemy_is_a_dynamic_capsule() {
    let e = EnemyBundle::new(Spritesheet(2), Vec3::new(1, 2, 3));
    assert_eq!(e.rigid_body, RigidBody::Dynamic);
    assert_eq!(e.locked_axes, LockedAxes::RotationLocked);
    assert_eq!(e.collider, Collider::Capsule { height: 15_000, radius: 20_000 });
    assert_eq!(e.animation, 5);
    assert_eq!(e.spritesheet, Spritesheet(2));
    assert_eq!(e.transform, Vec3::new(1, 2, 3));
    assert_eq!(e.velocity, Vec2::new(0, 0));
}

#[test]
fn enemy_runs_at_pawn_speed_toward_the_player() {
    let config = Configuration::default();
    let player = Vec3::new(3_000_000, 4_000_000, 20_000);
    let v = pursuit_velocity(&config, player, Vec3::new(0, 0, 10_000));
    assert_eq!(v, Vec2::new(180_000, 240_000));
    assert_eq!(v.length_squared(), 300_000u128 * 300_000u128);
    let v = pursuit_velocity(&config, Vec3::new(0, 0, 0), Vec3::new(123_456, -654_321, 0));
    assert_eq!(v, Vec2::new(-55_622, 294_798));
    assert!(v.length_squared() <= 300_000u128 * 300_000u128);
    assert!(Vec2::new(v.x - 1, v.y + 1).length_squared() >= 300_000u128 * 300_000u128);
}

#[test]
fn enemy_rests_inside_the_dead_zone() {
    let config = Configuration::default();
    let player = Vec3::new(700_000, 600_000, 20_000);
    let at = |dx: i64, dy: i64| {
        pursuit_velocity(&config, player, Vec3::new(700_000 - dx, 600_000 - dy, 0))
    };
    assert_eq!(at(0, 0), Vec2::new(0, 0));
    assert_eq!(at(10_000, 0), Vec2::new(0, 0));
    assert_eq!(at(6_000, 8_000), Vec2::new(0, 0));
    assert_eq!(at(10_001, 0), Vec2::new(300_000, 0));
    assert_eq!(at(0, -10_001), Vec2::new(0, -300_000));
    assert_eq!(at(7_071, 7_072), Vec2::new(212_117, 212_147));
}

#[test]
fn every_enemy_is_steered_and_nothing_else_changes() {
    let config = Configuration::default();
    let mut enemies = vec![enemy(1, 0, 0), enemy(2, 700_000, 605_000), enemy(3, 1_000_000, 600_000)];
    enemies[1].velocity = Vec2::new(5, 5);
    enemies_follow_player(&config, Vec3::new(700_000, 600_000, 20_000), &mut enemies);
    assert_eq!(enemies.len(), 3);
    assert_eq!(enemies[0].id, 1);
    assert_eq!(enemies[0].position, Vec3::new(0, 0, 10_000));
    assert_eq!(enemies[0].velocity, Vec2::new(227_776, 195_237));
    assert_eq!(enemies[1], enemy(2, 700_000, 605_000));
    assert_eq!(enemies[2].velocity, Vec2::new(-300_000, 0));
}

#[test]
fn hit_kills_the_enemy_and_leaves_one_marker() {
    let mut enemies = vec![enemy(10, 1, 2), enemy(11, 3, 4), enemy(12, 5, 6)];
    let dead = damage_enemies(
        &mut enemies,
        &vec![77],
        &vec![CollisionStarted(11, 77)],
        Spritesheet(9),
    );
    assert_eq!(dead, vec![marker(Vec3::new(3, 4, 10_000))]);
    assert_eq!(enemies, vec![enemy(10, 1, 2), enemy(12, 5, 6)]);
    assert_eq!(find_enemy(&enemies, 11), None);
}

#[test]
fn hit_counts_in_either_order() {
    let mut enemies = vec![enemy(10, 1, 2), enemy(11, 3, 4)];
    let dead = damage_enemies(
        &mut enemies,
        &vec![77],
        &vec![CollisionStarted(77, 10)],
        Spritesheet(9),
    );
    assert_eq!(dead, vec![marker(Vec3::new(1, 2, 10_000))]);
    assert_eq!(enemies, vec![enemy(11, 3, 4)]);
}

#[test]
fn second_hit_on_a_dead_enemy_is_ignored() {
    let mut enemies = vec![enemy(10, 1, 2), enemy(11, 3, 4)];
    let events = vec![
        CollisionStarted(10, 77),
        CollisionStarted(77, 10),
        CollisionStarted(10, 78),
        CollisionStarted(10, 77),
    ];
    let dead = damage_enemies(&mut enemies, &vec![77, 78], &events, Spritesheet(9));
    assert_eq!(dead.len(), 1);
    assert_eq!(dead[0].transform, Vec3::new(1, 2, 10_000));
    assert_eq!(enemies, vec![enemy(11, 3, 4)]);
    let again = damage_enemies(&mut enemies, &vec![77, 78], &events, Spritesheet(9));
    assert_eq!(again, vec![]);
    assert_eq!(enemies, vec![enemy(11, 3, 4)]);
}

#[test]
fn other_collisions_are_ignored() {
    let mut enemies = vec![enemy(10, 1, 2), enemy(11, 3, 4)];
    let events = vec![
        CollisionStarted(10, 11),
        CollisionStarted(10, 500),
        CollisionStarted(500, 77),
        CollisionStarted(77, 77),
        CollisionStarted(99, 77),
    ];
    let dead = damage_enemies(&mut enemies, &vec![77], &events, Spritesheet(9));
    assert_eq!(dead, vec![]);
    assert_eq!(enemies.len(), 2);
    let none = damage_enemies(&mut enemies, &vec![], &vec![CollisionStarted(10, 77)], Spritesheet(9));
    assert_eq!(none, vec![]);
    let empty = damage_enemies(&mut enemies, &vec![77], &vec![], Spritesheet(9));
    assert_eq!(empty, vec![]);
    assert_eq!(enemies.len(), 2);
}

#[test]
fn batch_kills_each_enemy_once_in_event_order() {
    let mut enemies = vec![enemy(1, 10, 0), enemy(2, 20, 0), enemy(3, 30, 0), enemy(4, 40, 0)];
    let events = vec![
        CollisionStarted(3, 77),
        CollisionStarted(77, 1),
        CollisionStarted(3, 77),
        CollisionStarted(4, 5),
    ];
    let dead = damage_enemies(&mut enemies, &vec![77], &events, Spritesheet(9));
    assert_eq!(dead, vec![marker(Vec3::new(30, 0, 10_000)), marker(Vec3::new(10, 0, 10_000))]);
    assert_eq!(enemies, vec![enemy(2, 20, 0), enemy(4, 40, 0)]);
}

#[test]
fn lookups_find_the_first_match() {
    let enemies = vec![enemy(5, 0, 0), enemy(6, 0, 0), enemy(5, 9, 9)];
    assert_eq!(find_enemy(&enemies, 5), Some(0));
    assert_eq!(find_enemy(&enemies, 6), Some(1));
    assert_eq!(find_enemy(&enemies, 7), None);
    assert!(is_attack(&vec![1, 2, 3], 3));
    assert!(!is_attack(&vec![1, 2, 3], 4));
    assert_eq!(find_victim(&enemies, &vec![77], CollisionStarted(6, 77)), Some(1));
    assert_eq!(find_victim(&enemies, &vec![77], CollisionStarted(77, 5)), Some(0));
    assert_eq!(find_victim(&enemies, &vec![77], CollisionStarted(77, 8)), None);
    assert_eq!(find_victim(&enemies, &vec![5, 6], CollisionStarted(5, 6)), Some(0));
    assert_eq!(find_victim(&enemies, &vec![5], CollisionStarted(5, 6)), Some(1));
}

#[test]
fn new_marker_lasts_one_point_six_seconds() {
    let m = marker(Vec3::new(1, 2, 3));
    assert_eq!(m.duration, Duration(1_600_000));
    assert_eq!(m.animation, 0);
    assert_eq!(m.spritesheet, Spritesheet(9));
    assert_eq!(m.transform, Vec3::new(1, 2, 3));
}

#[test]
fn marker_is_gone_once_its_time_has_passed() {
    let mut markers = vec![marker(Vec3::new(0, 0, 0))];
    for tick in 1..=99 {
        death(16_000, &mut markers);
        assert_eq!(markers.len(), 1);
        assert_eq!(markers[0].duration, Duration(1_600_000 - 16_000 * tick));
    }
    death(16_000, &mut markers);
    assert_eq!(markers, vec![]);
    let mut markers = vec![marker(Vec3::new(0, 0, 0))];
    for _ in 0..3 {
        death(500_000, &mut markers);
        assert_eq!(markers.len(), 1);
    }
    death(500_000, &mut markers);
    assert_eq!(markers.len(), 0);
    let mut markers = vec![marker(Vec3::new(0, 0, 0))];
    death(1_599_999, &mut markers);
    assert_eq!(markers[0].duration, Duration(1));
    death(0, &mut markers);
    assert_eq!(markers.len(), 1);
    death(1, &mut markers);
    assert_eq!(markers.len(), 0);
}

#[test]
fn markers_age_together_and_keep_their_order() {
    let mut a = marker(Vec3::new(1, 0, 0));
    a.duration = Duration(10);
    let mut b = marker(Vec3::new(2, 0, 0));
    b.duration = Duration(5);
    let mut c = marker(Vec3::new(3, 0, 0));
    c.duration = Duration(30);
    let mut markers = vec![a, b, c];
    death(5, &mut markers);
    assert_eq!(markers.len(), 2);
    assert_eq!(markers[0].transform, Vec3::new(1, 0, 0));
    assert_eq!(markers[0].duration, Duration(5));
    assert_eq!(markers[1].transform, Vec3::new(3, 0, 0));
    assert_eq!(markers[1].duration, Duration(25));
}

#[test]
fn camera_follows_the_player() {
    let mut camera = setup(MapHandle(1), Spritesheet(1)).camera;
    following_cam(Vec3::new(5, 6, 7), &mut camera);
    assert_eq!(camera.transform, Vec3::new(5, 6, 7));
    assert_eq!(camera.scaling_mode, ScalingMode::WindowSize);
}

fn fit(window: Window, level: Level, player: Vec3) -> Camera {
    let mut camera = setup(MapHandle(1), Spritesheet(1)).camera;
    assert!(view_size(window, level).is_some());
    camera_fit_inside_current_level(window, Some(player), level, &mut camera);
    camera
}

#[test]
fn camera_fits_a_wide_level() {
    let window = Window { width: 1280, height: 720 };
    let level = Level { transform: Vec3::new(0, 0, 0), px_wid: 2000, px_hei: 720 };
    assert_eq!(view_size(window, level), Some((1_280_000, 720_000)));
    let cam = fit(window, level, Vec3::new(1_000_000, 300_000, 20_000));
    assert_eq!(cam.scaling_mode, ScalingMode::Fixed { width: 1_280_000, height: 720_000 });
    assert_eq!(cam.viewport_origin, Vec2::new(0, 0));
    assert_eq!(cam.transform, Vec3::new(360_000, 0, 999_900));
    let cam = fit(window, level, Vec3::new(100_000, 300_000, 20_000));
    assert_eq!(cam.transform, Vec3::new(0, 0, 999_900));
    let cam = fit(window, level, Vec3::new(1_900_000, 300_000, 20_000));
    assert_eq!(cam.transform, Vec3::new(720_000, 0, 999_900));
}

#[test]
fn camera_fits_a_tall_level() {
    let window = Window { width: 1280, height: 720 };
    let level = Level { transform: Vec3::new(100_000, -50_000, 0), px_wid: 644, px_hei: 1000 };
    assert_eq!(view_size(window, level), Some((640_000, 360_000)));
    let cam = fit(window, level, Vec3::new(400_000, 450_000, 20_000));
    assert_eq!(cam.scaling_mode, ScalingMode::Fixed { width: 640_000, height: 360_000 });
    assert_eq!(cam.transform, Vec3::new(100_000, 270_000, 999_900));
    let cam = fit(window, level, Vec3::new(400_000, 5_000_000, 20_000));
    assert_eq!(cam.transform, Vec3::new(100_000, 590_000, 999_900));
    let cam = fit(window, level, Vec3::new(400_000, -5_000_000, 20_000));
    assert_eq!(cam.transform, Vec3::new(100_000, -50_000, 999_900));
}

#[test]
fn camera_snaps_the_view_to_its_grid() {
    let window = Window { width: 100, height: 100 };
    let wide = |hei: i32| Level { transform: Vec3::new(0, 0, 0), px_wid: 100_000, px_hei: hei };
    assert_eq!(view_size(window, wide(13)), Some((9_000, 9_000)));
    assert_eq!(view_size(window, wide(14)), Some((18_000, 18_000)));
    let tall = |wid: i32| Level { transform: Vec3::new(0, 0, 0), px_wid: wid, px_hei: 100_000 };
    assert_eq!(view_size(window, tall(23)), Some((16_000, 16_000)));
    assert_eq!(view_size(window, tall(24)), Some((32_000, 32_000)));
}

#[test]
fn view_that_cannot_fit_is_reported() {
    let level = Level { transform: Vec3::new(0, 0, 0), px_wid: 6, px_hei: 5 };
    assert_eq!(view_size(Window { width: 1, height: 1 }, level), None);
    let ok = Level { transform: Vec3::new(0, 0, 0), px_wid: 2000, px_hei: 720 };
    assert_eq!(view_size(Window { width: 0, height: 720 }, ok), None);
    assert_eq!(view_size(Window { width: 1280, height: 0 }, ok), None);
    let flat = Level { transform: Vec3::new(0, 0, 0), px_wid: 2000, px_hei: 0 };
    assert_eq!(view_size(Window { width: 1280, height: 720 }, flat), None);
    let far = Level { transform: Vec3::new(0x8000_0001, 0, 0), px_wid: 2000, px_hei: 720 };
    assert_eq!(view_size(Window { width: 1280, height: 720 }, far), None);
}

#[test]
fn camera_without_a_player_is_left_alone() {
    let window = Window { width: 1280, height: 720 };
    let level = Level { transform: Vec3::new(0, 0, 0), px_wid: 2000, px_hei: 720 };
    let mut camera = setup(MapHandle(1), Spritesheet(1)).camera;
    let before = camera;
    camera_fit_inside_current_level(window, None, level, &mut camera);
    assert_eq!(camera, before);
}

#[test]
fn animation_follows_the_decision_table() {
    let mut player = PlayerBundle::new(Spritesheet(1)).player;
    let mut pick = |x: i64, y: i64, attacking: bool| {
        player.direction = Vec2::new(x, y);
        player.attack = if attacking { Some(AttackBundle::default()) } else { None };
        animate(&player)
    };
    assert_eq!(pick(0, 0, false), 1);
    assert_eq!(pick(-1, 0, false), 2);
    assert_eq!(pick(0, 1, false), 2);
    assert_eq!(pick(0, -1, false), 2);
    assert_eq!(pick(-1, -1, false), 2);
    assert_eq!(pick(1, 0, false), 4);
    assert_eq!(pick(1, 1, false), 4);
    assert_eq!(pick(1, -1, false), 4);
    assert_eq!(pick(0, 1, true), 7);
    assert_eq!(pick(1, 1, true), 7);
    assert_eq!(pick(-1, -1, true), 6);
    assert_eq!(pick(1, -1, true), 6);
    assert_eq!(pick(1, 0, true), 5);
    assert_eq!(pick(-1, 0, true), 8);
    assert_eq!(pick(0, 0, true), 8);
}

#[test]
fn animation_ignores_a_dash() {
    let config = Configuration::default();
    let mut player = PlayerBundle::new(Spritesheet(1)).player;
    player.direction = Vec2::new(1, 0);
    let before = animate(&player);
    topdown_combat::dash::dash(&config, 16_000, true, &mut player);
    assert!(player.dash.is_some());
    assert_eq!(animate(&player), before);
}

#[test]
fn arena_has_three_walls() {
    let walls = wall_e();
    assert_eq!(walls.len(), 3);
    let tall = Rectangle::new(20_000, 850_000);
    assert_eq!(walls[0], WallBundle::new(tall, Vec3::new(-600_000, 0, 0), Color::Purple));
    assert_eq!(walls[1], WallBundle::new(tall, Vec3::new(600_000, 0, 0), Color::Purple));
    assert_eq!(
        walls[2],
        WallBundle::new(Rectangle::new(1_200_000, 20_000), Vec3::new(0, -350_000, 0), Color::Purple)
    );
}

#[test]
fn wall_is_a_static_unit_box_stretched_to_size() {
    let w = WallBundle::new(Rectangle::new(20_000, 850_000), Vec3::new(1, 2, 3), Color::White);
    assert_eq!(w.rigid_body, RigidBody::Static);
    assert_eq!(w.collider, Collider::Cuboid { width: 1_000, height: 1_000 });
    assert_eq!(w.material.mesh, Rectangle::new(1_000, 1_000));
    assert_eq!(w.material.transform.translation, Vec3::new(1, 2, 3));
    assert_eq!(w.material.transform.scale, Vec3::new(20_000, 850_000, 1_000));
    assert_eq!(w.material.material, Color::White);
}

#[test]
fn scene_starts_with_camera_map_and_player() {
    let scene = setup(MapHandle(3), Spritesheet(8));
    assert_eq!(scene.map.map, MapHandle(3));
    assert_eq!(scene.map.transform, Vec3::new(0, 0, -1_000));
    assert_eq!(scene.camera.scaling_mode, ScalingMode::WindowSize);
    assert_eq!(scene.player, PlayerBundle::new(Spritesheet(8)));
    let p = scene.player;
    assert_eq!(p.player.position, Vec3::new(700_000, 600_000, 20_000));
    assert_eq!(p.player.speed, Vec2::new(0, 0));
    assert_eq!(p.player.direction, Vec2::new(0, 0));
    assert_eq!(p.player.life, 5);
    assert_eq!(p.player.dash, None);
    assert_eq!(p.player.attack, None);
    assert_eq!(p.rigid_body, RigidBody::Dynamic);
    assert_eq!(p.locked_axes, LockedAxes::RotationLocked);
    assert_eq!(p.collider, Collider::Capsule { height: 15_000, radius: 20_000 });
    assert_eq!(p.animation, 1);
    assert_eq!(p.spritesheet, Spritesheet(8));
    assert!(p.player.is_wf());
}

fn world_with(player: bool) -> World {
    let scene = setup(MapHandle(1), Spritesheet(1));
    World {
        player: if player { Some(scene.player.player) } else { None },
        enemies: vec![enemy(1, 0, 600_000), enemy(2, 700_000, 1_000_000)],
        dead: vec![marker(Vec3::new(9, 9, 9))],
        spawn_timer: EnemySpawnTimer::new(3_000_000),
        camera: scene.camera,
    }
}

#[test]
fn world_checks_its_own_shape() {
    let mut world = world_with(true);
    assert!(world.is_wf());
    world.enemies.push(enemy(3, 0x8000_0001, 0));
    assert!(!world.is_wf());
    world.enemies.pop();
    world.enemies.push(enemy(3, -0x8000_0000, 0x8000_0000));
    assert!(world.is_wf());
    world.spawn_timer.elapsed = 3_000_000;
    assert!(!world.is_wf());
    world.spawn_timer.elapsed = 0;
    let mut player = world.player.unwrap();
    player.speed = Vec2::new(0, -0x8000_0001);
    world.player = Some(player);
    assert!(!world.is_wf());
    world.player = None;
    assert!(world.is_wf());
}

#[test]
fn update_phase_runs_every_step() {
    let config = Configuration::default();
    let window = Window { width: 1280, height: 720 };
    let level = Level { transform: Vec3::new(0, 0, 0), px_wid: 2000, px_hei: 720 };
    let sheets = Sheets { enemy: Spritesheet(4), dead: Spritesheet(9) };
    let mut world = world_with(true);
    let update = update_phase(
        &mut world,
        &config,
        3_500_000,
        window,
        level,
        &vec![77],
        &vec![CollisionStarted(77, 2), CollisionStarted(2, 77)],
        sheets,
    );
    assert_eq!(update.spawned.len(), 1);
    assert_eq!(update.spawned[0].spritesheet, Spritesheet(4));
    assert_eq!(update.animation, Some(1));
    assert_eq!(world.spawn_timer.elapsed, 500_000);
    assert_eq!(world.enemies.len(), 1);
    assert_eq!(world.enemies[0].id, 1);
    assert_eq!(world.enemies[0].velocity, Vec2::new(300_000, 0));
    assert_eq!(world.dead, vec![marker(Vec3::new(700_000, 1_000_000, 10_000))]);
    assert_eq!(world.camera.transform, Vec3::new(60_000, 0, 999_900));
    assert_eq!(world.camera.scaling_mode, ScalingMode::Fixed { width: 1_280_000, height: 720_000 });
}

#[test]
fn update_phase_without_player_skips_what_needs_one() {
    let config = Configuration::default();
    let window = Window { width: 1280, height: 720 };
    let level = Level { transform: Vec3::new(0, 0, 0), px_wid: 2000, px_hei: 720 };
    let sheets = Sheets { enemy: Spritesheet(4), dead: Spritesheet(9) };
    let mut world = world_with(false);
    let camera = world.camera;
    let update = update_phase(&mut world, &config, 16_000, window, level, &vec![], &vec![], sheets);
    assert_eq!(update.spawned.len(), 0);
    assert_eq!(update.animation, None);
    assert_eq!(world.enemies, vec![enemy(1, 0, 600_000), enemy(2, 700_000, 1_000_000)]);
    assert_eq!(world.dead.len(), 1);
    assert_eq!(world.dead[0].duration, Duration(1_584_000));
    assert_eq!(world.camera, camera);
}
