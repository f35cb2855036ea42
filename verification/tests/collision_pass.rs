use shooter_game::collision::handle_collisions;
use shooter_game::entities::{Bullet, Enemy};
use shooter_game::geom::Vec2i;

// A bullet at (100_000, 100_000) spans x in [100_000, 110_000] and y in
// [100_000, 120_000]; an enemy at (ex, ey) presents the inset hitbox
// [ex + 8_000, ex + 56_000] x [ey + 8_000, ey + 56_000].

#[test]
fn one_bullet_matches_only_first_of_two_overlapping_enemies() {
    let mut bullets = vec![Bullet { pos: Vec2i { x: 100_000, y: 100_000 } }];
    let mut enemies = vec![
        Enemy { pos: Vec2i { x: 80_000, y: 80_000 } },
        Enemy { pos: Vec2i { x: 90_000, y: 90_000 } },
    ];
    let kills = handle_collisions(&mut bullets, &mut enemies);
    assert_eq!(kills, 1);
    assert_eq!(bullets.len(), 0);
    assert_eq!(enemies.len(), 1);
    // The first enemy in list order was consumed; the second survives.
    assert_eq!(enemies[0].pos, Vec2i { x: 90_000, y: 90_000 });
}

#[test]
fn consumed_enemy_is_not_matched_by_a_later_bullet() {
    let mut bullets = vec![
        Bullet { pos: Vec2i { x: 100_000, y: 100_000 } },
        Bullet { pos: Vec2i { x: 105_000, y: 100_000 } },
    ];
    let mut enemies = vec![Enemy { pos: Vec2i { x: 80_000, y: 80_000 } }];
    let kills = handle_collisions(&mut bullets, &mut enemies);
    assert_eq!(kills, 1);
    // The first bullet consumed the only enemy; the second hit nothing and
    // survives.
    assert_eq!(bullets.len(), 1);
    assert_eq!(bullets[0].pos, Vec2i { x: 105_000, y: 100_000 });
    assert_eq!(enemies.len(), 0);
}

#[test]
fn no_overlap_changes_nothing() {
    let mut bullets = vec![Bullet { pos: Vec2i { x: 0, y: 0 } }];
    let mut enemies = vec![Enemy { pos: Vec2i { x: 500_000, y: 500_000 } }];
    let kills = handle_collisions(&mut bullets, &mut enemies);
    assert_eq!(kills, 0);
    assert_eq!(bullets.len(), 1);
    assert_eq!(enemies.len(), 1);
}

#[test]
fn touching_hitbox_edge_counts_as_hit() {
    // Bullet bottom edge y = 120_000 exactly meets the enemy hitbox top
    // edge ey + 8_000 with ey = 112_000.
    let mut bullets = vec![Bullet { pos: Vec2i { x: 100_000, y: 100_000 } }];
    let mut enemies = vec![Enemy { pos: Vec2i { x: 100_000, y: 112_000 } }];
    let kills = handle_collisions(&mut bullets, &mut enemies);
    assert_eq!(kills, 1);
    assert_eq!(bullets.len(), 0);
    assert_eq!(enemies.len(), 0);
}

#[test]
fn each_bullet_kills_its_own_enemy() {
    // Two bullets, each over its own enemy and far from the other's.
    let mut bullets = vec![
        Bullet { pos: Vec2i { x: 100_000, y: 100_000 } },
        Bullet { pos: Vec2i { x: 400_000, y: 100_000 } },
    ];
    let mut enemies = vec![
        Enemy { pos: Vec2i { x: 80_000, y: 80_000 } },
        Enemy { pos: Vec2i { x: 380_000, y: 80_000 } },
    ];
    let kills = handle_collisions(&mut bullets, &mut enemies);
    assert_eq!(kills, 2);
    assert_eq!(bullets.len(), 0);
    assert_eq!(enemies.len(), 0);
}
