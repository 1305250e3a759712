use arena_shooter::entities::{Bullet, Enemy, EnemyKind, GameState};
use arena_shooter::geometry::{distance_squared, int_sqrt, move_along, Pos, WORLD_LIMIT};
use arena_shooter::model::{MoveKeys, PLAYER_LIMIT};
use arena_shooter::spawn::{is_spawn_offset, kind_from_roll, random_kind, tick_spawn_timer};
use arena_shooter::world::{first_hit, travel_distance, FrameInput, World};

fn no_keys() -> MoveKeys {
    MoveKeys { up: false, down: false, left: false, right: false }
}

fn at(x: i64, y: i64) -> Pos {
    Pos { x, y }
}

fn enemy(x: i64, y: i64, kind: EnemyKind, health: u8) -> Enemy {
    Enemy { pos: at(x, y), kind, health }
}

fn bullet(x: i64, y: i64) -> Bullet {
    Bullet { pos: at(x, y), dx: 1000, dy: 0 }
}

fn idle_frame(delta_us: u64) -> FrameInput {
    FrameInput { delta_us, keys: no_keys(), restart: false, shots: Vec::new() }
}

#[test]
fn new_world_has_one_player_at_origin() {
    let w = World::new();
    assert_eq!(w.state, GameState::Playing);
    assert_eq!(w.player, Some(at(0, 0)));
    assert_eq!(w.score, 0);
    assert!(w.enemies.is_empty());
    assert!(w.bullets.is_empty());
    assert!(!w.game_over_message);
}

#[test]
fn integer_square_root() {
    assert_eq!(int_sqrt(0), 0);
    assert_eq!(int_sqrt(1), 1);
    assert_eq!(int_sqrt(2_000_000), 1414);
    assert_eq!(int_sqrt(24), 4);
    assert_eq!(int_sqrt(25), 5);
    assert_eq!(int_sqrt(16_000_000_000_000_000_000_000_000), 4_000_000_000_000);
}

#[test]
fn squared_distance() {
    assert_eq!(distance_squared(at(3000, 4000), at(0, 0)), 25_000_000);
}

#[test]
fn travel_in_one_second() {
    assert_eq!(travel_distance(300, 1_000_000), 300_000);
    assert_eq!(travel_distance(600, 16_667), 10_000);
}

#[test]
fn movement_along_axis_and_diagonal() {
    let lim = WORLD_LIMIT;
    assert_eq!(move_along(at(0, 0), 1000, 0, 300_000, lim), at(300_000, 0));
    assert_eq!(move_along(at(0, 0), 1000, 1000, 300_000, lim), at(212_132, 212_132));
    assert_eq!(move_along(at(0, 0), 1, 1, 300_000, lim), at(212_132, 212_132));
    assert_eq!(move_along(at(0, 0), 3, -4, 500_000, lim), at(300_000, -400_000));
    assert_eq!(move_along(at(0, 0), -1000, 0, 300_000, lim), at(-300_000, 0));
    assert_eq!(move_along(at(5, 7), 0, 0, 300_000, lim), at(5, 7));
    assert_eq!(move_along(at(0, 0), 1, 0, 300_000, 100_000), at(100_000, 0));
}

#[test]
fn player_moves_with_keys() {
    let mut w = World::new();
    let keys = MoveKeys { up: false, down: false, left: false, right: true };
    w.move_player(keys, 1_000_000);
    assert_eq!(w.player, Some(at(300_000, 0)));
    let diag = MoveKeys { up: true, down: false, left: false, right: true };
    let mut w2 = World::new();
    w2.move_player(diag, 1_000_000);
    assert_eq!(w2.player, Some(at(212_132, 212_132)));
}

#[test]
fn player_without_keys_stays() {
    let mut w = World::new();
    w.player = Some(at(1234, -5678));
    w.move_player(no_keys(), 1_000_000);
    assert_eq!(w.player, Some(at(1234, -5678)));
    let opposite = MoveKeys { up: true, down: true, left: true, right: true };
    w.move_player(opposite, 1_000_000);
    assert_eq!(w.player, Some(at(1234, -5678)));
}

#[test]
fn enemies_home_at_kind_speed() {
    let mut w = World::new();
    w.enemies = vec![
        enemy(400_000, 0, EnemyKind::Basic, 1),
        enemy(0, 400_000, EnemyKind::Fast, 1),
        enemy(-400_000, 0, EnemyKind::Tank, 3),
    ];
    w.move_enemies(1_000_000);
    assert_eq!(w.enemies[0].pos, at(250_000, 0));
    assert_eq!(w.enemies[1].pos, at(0, 100_000));
    assert_eq!(w.enemies[2].pos, at(-325_000, 0));
}

#[test]
fn fired_bullet_flies_toward_target() {
    let mut w = World::new();
    w.fire(at(10_000, 0));
    assert_eq!(w.bullets.len(), 1);
    assert_eq!(w.bullets[0].pos, at(0, 0));
    w.move_bullets(1_000_000);
    assert_eq!(w.bullets[0].pos, at(600_000, 0));
}

#[test]
fn bullet_aimed_close_by_keeps_its_speed() {
    let mut w = World::new();
    w.fire(at(1, 1));
    w.move_bullets(1_000_000);
    assert_eq!(w.bullets[0].pos, at(424_264, 424_264));
}

#[test]
fn enemy_next_to_player_moves_at_its_speed() {
    let mut w = World::new();
    w.enemies = vec![enemy(1, 1, EnemyKind::Basic, 1)];
    w.move_enemies(1_000);
    assert_eq!(w.enemies[0].pos, at(-105, -105));
}

#[test]
fn player_is_held_inside_the_spawn_margin() {
    let mut w = World::new();
    w.player = Some(at(PLAYER_LIMIT - 1, 0));
    let keys = MoveKeys { up: false, down: false, left: false, right: true };
    w.move_player(keys, 1_000_000);
    assert_eq!(w.player, Some(at(PLAYER_LIMIT, 0)));
}

#[test]
fn firing_at_the_player_does_nothing() {
    let mut w = World::new();
    w.fire(at(0, 0));
    assert!(w.bullets.is_empty());
}

#[test]
fn bullet_past_range_is_removed() {
    let mut w = World::new();
    w.fire(at(10_000, 0));
    w.fire(at(10_000, 0));
    w.move_bullets(8_000_000);
    assert_eq!(w.bullets.len(), 2);
    assert_eq!(w.bullets[0].pos, at(4_800_000, 0));
    w.move_bullets(1_000_000);
    assert!(w.bullets.is_empty());
}

#[test]
fn bullet_at_exactly_range_is_kept() {
    let mut w = World::new();
    w.bullets = vec![Bullet { pos: at(4_400_000, 0), dx: 1, dy: 0 }];
    w.move_bullets(1_000_000);
    assert_eq!(w.bullets.len(), 1);
    assert_eq!(w.bullets[0].pos, at(5_000_000, 0));
}

#[test]
fn one_of_each_kind_scores_eight() {
    let mut w = World::new();
    w.score_changed = false;
    w.enemies = vec![
        enemy(100_000, 0, EnemyKind::Basic, 1),
        enemy(200_000, 0, EnemyKind::Fast, 1),
        enemy(300_000, 0, EnemyKind::Tank, 1),
    ];
    w.bullets = vec![bullet(100_000, 0), bullet(200_000, 0), bullet(300_000, 0)];
    w.resolve_bullet_hits();
    assert_eq!(w.score, 8);
    assert!(w.enemies.is_empty());
    assert!(w.bullets.is_empty());
    assert_eq!(w.take_score_update(), Some(8));
    assert_eq!(w.take_score_update(), None);
}

#[test]
fn tank_takes_three_hits() {
    let mut w = World::new();
    w.enemies = vec![enemy(100_000, 0, EnemyKind::Tank, 3)];
    w.bullets = vec![bullet(100_000, 0), bullet(100_000, 0)];
    w.resolve_bullet_hits();
    assert_eq!(w.enemies.len(), 1);
    assert_eq!(w.enemies[0].health, 1);
    assert_eq!(w.score, 0);
    w.bullets = vec![bullet(100_000, 0)];
    w.resolve_bullet_hits();
    assert!(w.enemies.is_empty());
    assert_eq!(w.score, 5);
}

#[test]
fn one_bullet_kills_one_of_stacked_enemies() {
    let mut w = World::new();
    w.enemies = vec![
        enemy(100_000, 0, EnemyKind::Basic, 1),
        enemy(100_000, 0, EnemyKind::Fast, 1),
    ];
    w.bullets = vec![bullet(100_000, 0)];
    w.resolve_bullet_hits();
    assert_eq!(w.enemies.len(), 1);
    assert_eq!(w.enemies[0].kind, EnemyKind::Fast);
    assert_eq!(w.score, 1);
    assert!(w.bullets.is_empty());
}

#[test]
fn hit_radius_is_fifteen_units() {
    let b = bullet(0, 0);
    let near = vec![enemy(14_999, 0, EnemyKind::Basic, 1)];
    let edge = vec![enemy(15_000, 0, EnemyKind::Basic, 1)];
    assert_eq!(first_hit(&b, &near), Some(0));
    assert_eq!(first_hit(&b, &edge), None);
}

#[test]
fn missing_bullet_is_kept() {
    let mut w = World::new();
    w.enemies = vec![enemy(100_000, 0, EnemyKind::Basic, 1)];
    w.bullets = vec![bullet(0, 0)];
    w.resolve_bullet_hits();
    assert_eq!(w.bullets.len(), 1);
    assert_eq!(w.enemies.len(), 1);
}

#[test]
fn touch_ends_round_and_clears_everything() {
    let mut w = World::new();
    w.enemies = vec![enemy(19_999, 0, EnemyKind::Basic, 1), enemy(900_000, 0, EnemyKind::Tank, 3)];
    w.bullets = vec![bullet(500_000, 500_000)];
    assert!(w.player_touched());
    w.apply_transitions(false);
    assert_eq!(w.state, GameState::GameOver);
    assert_eq!(w.player, None);
    assert!(w.enemies.is_empty());
    assert!(w.bullets.is_empty());
    assert!(w.game_over_message);
}

#[test]
fn enemy_at_twenty_units_does_not_touch() {
    let mut w = World::new();
    w.enemies = vec![enemy(20_000, 0, EnemyKind::Basic, 1)];
    assert!(!w.player_touched());
    w.apply_transitions(false);
    assert_eq!(w.state, GameState::Playing);
}

#[test]
fn restart_resets_score_and_player() {
    let mut w = World::new();
    w.score = 42;
    w.player = Some(at(7_000, 7_000));
    w.enemies = vec![enemy(7_000, 7_000, EnemyKind::Fast, 1)];
    w.apply_transitions(false);
    assert_eq!(w.state, GameState::GameOver);
    w.apply_transitions(false);
    assert_eq!(w.state, GameState::GameOver);
    w.apply_transitions(true);
    assert_eq!(w.state, GameState::Playing);
    assert_eq!(w.score, 0);
    assert_eq!(w.player, Some(at(0, 0)));
    assert!(!w.game_over_message);
    assert_eq!(w.take_score_update(), Some(0));
}

#[test]
fn game_over_suppresses_input_and_spawning() {
    let mut w = World::new();
    w.enter_game_over();
    let input = FrameInput {
        delta_us: 2_000_000,
        keys: MoveKeys { up: true, down: false, left: false, right: false },
        restart: false,
        shots: vec![at(1000, 0)],
    };
    w.step_with_kind(&input, 400_000, 0, EnemyKind::Basic);
    assert_eq!(w.player, None);
    assert!(w.enemies.is_empty());
    assert!(w.bullets.is_empty());
    assert_eq!(w.spawn_elapsed_us, 0);
}

#[test]
fn spawn_timer_repeats_each_second() {
    assert_eq!(tick_spawn_timer(0, 999_999), (999_999, false));
    assert_eq!(tick_spawn_timer(999_999, 1), (0, true));
    assert_eq!(tick_spawn_timer(500_000, 2_700_000), (200_000, true));
}

#[test]
fn spawn_happens_once_a_second() {
    let mut w = World::new();
    w.step_with_kind(&idle_frame(600_000), 400_000, 0, EnemyKind::Tank);
    assert!(w.enemies.is_empty());
    w.step_with_kind(&idle_frame(600_000), 400_000, 0, EnemyKind::Tank);
    assert_eq!(w.enemies.len(), 1);
    assert_eq!(w.enemies[0].kind, EnemyKind::Tank);
    assert_eq!(w.enemies[0].health, 3);
    assert_eq!(w.spawn_elapsed_us, 200_000);
    // the enemy spawned at 400 units and then moved 0.6 s at 75 units/s toward the player
    assert_eq!(w.enemies[0].pos, at(355_000, 0));
}

#[test]
fn spawned_enemy_keeps_random_draw() {
    let mut w = World::new();
    w.spawn_elapsed_us = 999_999;
    w.step(&idle_frame(1), 0, -300_000);
    assert_eq!(w.enemies.len(), 1);
    let e = w.enemies[0];
    assert_eq!(e.pos, at(0, -300_000));
    assert_eq!(e.health as i64, if e.kind == EnemyKind::Tank { 3 } else { 1 });
}

#[test]
fn spawn_ring_bounds() {
    assert!(is_spawn_offset(300_000, 0));
    assert!(!is_spawn_offset(299_999, 0));
    assert!(is_spawn_offset(0, -499_999));
    assert!(!is_spawn_offset(500_000, 0));
    assert!(is_spawn_offset(300_000, 300_000));
    assert!(!is_spawn_offset(i64::MIN, i64::MIN));
}

#[test]
fn rolls_map_to_kinds() {
    assert_eq!(kind_from_roll(0), EnemyKind::Basic);
    assert_eq!(kind_from_roll(1), EnemyKind::Fast);
    assert_eq!(kind_from_roll(2), EnemyKind::Tank);
}

#[test]
fn kind_tables() {
    assert_eq!(EnemyKind::Basic.initial_health(), 1);
    assert_eq!(EnemyKind::Fast.initial_health(), 1);
    assert_eq!(EnemyKind::Tank.initial_health(), 3);
    assert_eq!(EnemyKind::Basic.kill_reward(), 1);
    assert_eq!(EnemyKind::Fast.kill_reward(), 2);
    assert_eq!(EnemyKind::Tank.kill_reward(), 5);
    assert_eq!(EnemyKind::Basic.speed(), 150);
    assert_eq!(EnemyKind::Fast.speed(), 300);
    assert_eq!(EnemyKind::Tank.speed(), 75);
}

#[test]
fn random_kinds_are_about_equally_frequent() {
    let mut counts = [0u32; 3];
    for _ in 0..10_000 {
        match random_kind() {
            EnemyKind::Basic => counts[0] += 1,
            EnemyKind::Fast => counts[1] += 1,
            EnemyKind::Tank => counts[2] += 1,
        }
    }
    for c in counts {
        assert!(c > 3000 && c < 3700, "count {} far from a third", c);
    }
}

#[test]
fn full_frame_kills_and_scores() {
    let mut w = World::new();
    w.score_changed = false;
    w.enemies = vec![enemy(100_000, 0, EnemyKind::Fast, 1)];
    let input = FrameInput {
        delta_us: 0,
        keys: no_keys(),
        restart: false,
        shots: vec![at(100_000, 0)],
    };
    w.step_with_kind(&input, 400_000, 0, EnemyKind::Basic);
    // a zero-length frame leaves the fresh bullet at the player, out of reach of the enemy
    assert_eq!(w.bullets.len(), 1);
    w.step_with_kind(&idle_frame(100_000), 400_000, 0, EnemyKind::Basic);
    // bullet moved 60 units, enemy (speed 300) moved 30 units toward the player: they meet
    assert!(w.enemies.is_empty());
    assert!(w.bullets.is_empty());
    assert_eq!(w.score, 2);
    assert_eq!(w.take_score_update(), Some(2));
}
