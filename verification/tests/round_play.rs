use shooter_game::config::GameConfig;
use shooter_game::entities::{Bullet, Enemy};
use shooter_game::geom::Vec2i;
use shooter_game::round::{FrameInput, RoundState};

// Screen of 800 x 600 pixels, in millipixels. A fresh round places the
// player at x = (800_000 - 64_000) / 2 = 368_000, y = 526_000.

fn test_config() -> GameConfig {
    GameConfig::new(800_000, 600_000).expect("test screen fits the simulation")
}

fn idle(dt_ms: u32) -> FrameInput {
    FrameInput { dt_ms, left: false, right: false, fire: false }
}

#[test]
fn new_round_starts_centered_and_clean() {
    let r = RoundState::new(test_config());
    assert_eq!(r.player.pos, Vec2i { x: 368_000, y: 526_000 });
    assert_eq!(r.player.size, Vec2i { x: 64_000, y: 64_000 });
    assert_eq!(r.bullets.len(), 0);
    assert_eq!(r.enemies.len(), 0);
    assert_eq!(r.score, 0);
    assert_eq!(r.spawn_timer, 500);
    assert_eq!(r.shoot_timer, 0);
}

#[test]
fn entities_move_at_fixed_speeds() {
    let mut r = RoundState::new(test_config());
    r.spawn_timer = 10_000_000;
    r.bullets.push(Bullet { pos: Vec2i { x: 395_000, y: 300_000 } });
    r.enemies.push(Enemy { pos: Vec2i { x: 200_000, y: 100_000 } });
    let out = r.step(idle(10));
    assert!(!out.game_over);
    // Bullet rises 800 millipx/ms, enemy descends 400 millipx/ms.
    assert_eq!(r.bullets[0].pos, Vec2i { x: 395_000, y: 292_000 });
    assert_eq!(r.enemies[0].pos, Vec2i { x: 200_000, y: 104_000 });
}

#[test]
fn fired_bullet_spawns_centered_on_player() {
    let mut r = RoundState::new(test_config());
    r.spawn_timer = 10_000_000;
    let out = r.step(FrameInput { dt_ms: 0, left: false, right: false, fire: true });
    assert!(out.fired);
    assert_eq!(r.bullets.len(), 1);
    // Centered: player x + 32_000 - 5_000, at the player's top edge.
    assert_eq!(r.bullets[0].pos, Vec2i { x: 395_000, y: 526_000 });
    assert_eq!(r.shoot_timer, 400);
}

#[test]
fn bullet_destroys_enemy_in_its_path() {
    // One enemy directly in front of the fired bullet's path.
    let mut r = RoundState::new(test_config());
    r.spawn_timer = 10_000_000;
    r.enemies.push(Enemy { pos: Vec2i { x: 368_000, y: 100_000 } });
    let mut kills_total: u64 = 0;
    let mut last_score: u64 = 0;
    for frame in 0..100 {
        let out = r.step(FrameInput {
            dt_ms: 16,
            left: false,
            right: false,
            fire: frame == 0,
        });
        assert!(!out.game_over);
        // Score never decreases within a round.
        assert!(r.score >= last_score);
        last_score = r.score;
        kills_total += out.kills;
        if out.kills > 0 {
            break;
        }
    }
    assert_eq!(kills_total, 1);
    assert_eq!(r.score, 1);
    assert_eq!(r.enemies.len(), 0);
    assert_eq!(r.bullets.len(), 0);
}

#[test]
fn bullet_destroys_only_the_enemy_in_its_path() {
    // One enemy in the fired bullet's path and one bystander far to the
    // left: the shot consumes exactly the one in its path.
    let mut r = RoundState::new(test_config());
    r.spawn_timer = 10_000_000;
    r.enemies.push(Enemy { pos: Vec2i { x: 368_000, y: 100_000 } });
    r.enemies.push(Enemy { pos: Vec2i { x: 100_000, y: 100_000 } });
    let mut kills_total: u64 = 0;
    for frame in 0..100 {
        let out = r.step(FrameInput {
            dt_ms: 16,
            left: false,
            right: false,
            fire: frame == 0,
        });
        assert!(!out.game_over);
        kills_total += out.kills;
        if out.kills > 0 {
            break;
        }
    }
    assert_eq!(kills_total, 1);
    assert_eq!(r.score, 1);
    assert_eq!(r.bullets.len(), 0);
    // The bystander survives, untouched in x.
    assert_eq!(r.enemies.len(), 1);
    assert_eq!(r.enemies[0].pos.x, 100_000);
}

#[test]
fn player_clamps_at_left_edge_under_sustained_input() {
    // Sustained left input for many frames would carry the player far past
    // x = -500 pixels; the clamp holds it at exactly zero, never negative.
    let mut r = RoundState::new(test_config());
    r.spawn_timer = 10_000_000;
    for _ in 0..100 {
        let out = r.step(FrameInput { dt_ms: 16, left: true, right: false, fire: false });
        assert!(!out.game_over);
        assert!(r.player.pos.x >= 0);
    }
    assert_eq!(r.player.pos.x, 0);
}

#[test]
fn player_clamps_at_right_edge_under_sustained_input() {
    let mut r = RoundState::new(test_config());
    r.spawn_timer = 10_000_000;
    for _ in 0..100 {
        let out = r.step(FrameInput { dt_ms: 16, left: false, right: true, fire: false });
        assert!(!out.game_over);
        assert!(r.player.pos.x <= 800_000 - 64_000);
    }
    assert_eq!(r.player.pos.x, 800_000 - 64_000);
}

#[test]
fn spawn_timer_zero_spawns_exactly_one_enemy_in_range() {
    let mut r = RoundState::new(test_config());
    let out = r.step(idle(500));
    assert!(out.spawned);
    assert!(!out.game_over);
    assert_eq!(r.enemies.len(), 1);
    let x = r.enemies[0].pos.x;
    assert!(x >= 0);
    assert!(x < 800_000 - 64_000);
    assert_eq!(r.enemies[0].pos.y, -64_000);
    assert_eq!(r.spawn_timer, 1_500);
}

#[test]
fn spawn_positions_vary_across_rounds() {
    let mut seen = Vec::new();
    for _ in 0..10 {
        let mut r = RoundState::new(test_config());
        let out = r.step(idle(500));
        assert!(out.spawned);
        assert_eq!(r.enemies.len(), 1);
        let x = r.enemies[0].pos.x;
        assert!(x >= 0 && x < 736_000);
        seen.push(x);
    }
    assert!(seen.iter().any(|&x| x != seen[0]));
}

#[test]
fn enemy_past_bottom_is_removed_without_score_change() {
    let mut r = RoundState::new(test_config());
    r.spawn_timer = 10_000_000;
    r.enemies.push(Enemy { pos: Vec2i { x: 0, y: 580_000 } });
    // Still on screen after one short frame: kept.
    let out = r.step(idle(16));
    assert!(!out.game_over);
    assert_eq!(r.enemies.len(), 1);
    // It crosses y = 600_000 on a later frame and is removed that frame.
    let mut frames_to_removal = 0;
    for _ in 0..100 {
        let out = r.step(idle(16));
        assert!(!out.game_over);
        assert_eq!(out.kills, 0);
        frames_to_removal += 1;
        if r.enemies.is_empty() {
            break;
        }
        assert!(r.enemies[0].pos.y < 600_000);
    }
    assert!(r.enemies.is_empty());
    // 580_000 + 6_400 per frame crosses 600_000 on the fourth move.
    assert_eq!(frames_to_removal, 3);
    assert_eq!(r.score, 0);
}

#[test]
fn held_fire_emits_no_faster_than_the_cooldown() {
    let mut r = RoundState::new(test_config());
    r.spawn_timer = 10_000_000;
    let mut fire_times: Vec<u64> = Vec::new();
    let mut now_ms: u64 = 0;
    for _ in 0..80 {
        let out = r.step(FrameInput { dt_ms: 16, left: false, right: false, fire: true });
        assert!(!out.game_over);
        if out.fired {
            fire_times.push(now_ms);
        }
        now_ms += 16;
    }
    assert!(fire_times.len() >= 2);
    for pair in fire_times.windows(2) {
        assert!(pair[1] - pair[0] >= 400);
    }
}

#[test]
fn enemy_reaching_player_ends_round_with_final_score() {
    let mut r = RoundState::new(test_config());
    r.spawn_timer = 10_000_000;
    r.score = 7;
    // Directly above the player, close enough to touch within a few frames.
    r.enemies.push(Enemy { pos: Vec2i { x: 368_000, y: 450_000 } });
    let mut over_at_frame = 0;
    for frame in 1..=100 {
        let out = r.step(idle(16));
        assert_eq!(out.kills, 0);
        if out.game_over {
            over_at_frame = frame;
            break;
        }
    }
    // The enemy descends 6_400 per frame from 450_000; its hitbox bottom
    // y + 56_000 first reaches the player hitbox top 536_000 at y =
    // 482_000, on the fifth frame, and the round ends that frame.
    assert_eq!(over_at_frame, 5);
    assert_eq!(r.score, 7);
}
