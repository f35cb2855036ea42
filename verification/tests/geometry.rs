use shooter_game::config::GameConfig;
use shooter_game::geom::{get_hitbox, Rect, Vec2i};

#[test]
fn hitbox_is_inset_and_centered() {
    let r = get_hitbox(
        Vec2i { x: 100_000, y: 200_000 },
        Vec2i { x: 64_000, y: 64_000 },
        8_000,
    );
    assert_eq!(r, Rect { x: 108_000, y: 208_000, w: 48_000, h: 48_000 });
}

#[test]
fn hitbox_player_inset() {
    let r = get_hitbox(Vec2i { x: 0, y: 0 }, Vec2i { x: 64_000, y: 64_000 }, 10_000);
    assert_eq!(r, Rect { x: 10_000, y: 10_000, w: 44_000, h: 44_000 });
}

#[test]
fn overlaps_disjoint_is_false() {
    let a = Rect { x: 0, y: 0, w: 10_000, h: 10_000 };
    let b = Rect { x: 20_001, y: 0, w: 10_000, h: 10_000 };
    assert!(!a.overlaps(&b));
    assert!(!b.overlaps(&a));
}

#[test]
fn overlaps_touching_edges_counts() {
    let a = Rect { x: 0, y: 0, w: 10_000, h: 10_000 };
    let b = Rect { x: 10_000, y: 0, w: 10_000, h: 10_000 };
    assert!(a.overlaps(&b));
    assert!(b.overlaps(&a));
}

#[test]
fn overlaps_contained_is_true() {
    let a = Rect { x: 0, y: 0, w: 50_000, h: 50_000 };
    let b = Rect { x: 10_000, y: 10_000, w: 5_000, h: 5_000 };
    assert!(a.overlaps(&b));
    assert!(b.overlaps(&a));
}

#[test]
fn config_rejects_screens_too_small() {
    assert!(GameConfig::new(64_000, 600_000).is_none());
    assert!(GameConfig::new(800_000, 74_000).is_none());
    assert!(GameConfig::new(800_000, 600_000).is_some());
}
