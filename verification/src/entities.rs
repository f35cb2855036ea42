use vstd::prelude::*;
use crate::config::{BULLET_H, BULLET_W, ENEMY_INSET, ENTITY_SIZE, PLAYER_INSET};
use crate::geom::{inset_rect, RectM, Vec2i};

verus! {

// The three kinds of game object. Bullets and enemies carry only a position;
// their sizes are shared constants. The player also records its size, fixed
// at `ENTITY_SIZE` for the whole round.

/// Mathematical bullet: its top-left corner.
pub struct BulletM {
    pub x: int,
    pub y: int,
}

/// Mathematical enemy: its top-left corner.
pub struct EnemyM {
    pub x: int,
    pub y: int,
}

/// The player avatar.
#[derive(Clone, Copy, PartialEq, Eq, Structural, Debug)]
pub struct Player {
    pub pos: Vec2i,
    pub size: Vec2i,
}

/// A projectile fired by the player, moving straight up.
#[derive(Clone, Copy, PartialEq, Eq, Structural, Debug)]
pub struct Bullet {
    pub pos: Vec2i,
}

/// An adversary descending from above the screen.
#[derive(Clone, Copy, PartialEq, Eq, Structural, Debug)]
pub struct Enemy {
    pub pos: Vec2i,
}

impl View for Bullet {
    type V = BulletM;

    open spec fn view(&self) -> BulletM {
        BulletM { x: self.pos.x as int, y: self.pos.y as int }
    }
}

impl View for Enemy {
    type V = EnemyM;

    open spec fn view(&self) -> EnemyM {
        EnemyM { x: self.pos.x as int, y: self.pos.y as int }
    }
}

/// The sequence of bullet models behind a sequence of bullets.
pub open spec fn bullet_models(s: Seq<Bullet>) -> Seq<BulletM> {
    s.map_values(|b: Bullet| b@)
}

/// The sequence of enemy models behind a sequence of enemies.
pub open spec fn enemy_models(s: Seq<Enemy>) -> Seq<EnemyM> {
    s.map_values(|e: Enemy| e@)
}

/// The full (un-inset) rectangle of a bullet.
pub open spec fn bullet_rect(b: BulletM) -> RectM {
    RectM { x: b.x, y: b.y, w: BULLET_W as int, h: BULLET_H as int }
}

/// The inset hitbox of an enemy, used both against bullets and against the
/// player.
pub open spec fn enemy_hitbox(e: EnemyM) -> RectM {
    inset_rect(e.x, e.y, ENTITY_SIZE as int, ENTITY_SIZE as int, ENEMY_INSET as int)
}

/// The inset hitbox of the player at position `(px, py)`.
pub open spec fn player_hitbox(px: int, py: int) -> RectM {
    inset_rect(px, py, ENTITY_SIZE as int, ENTITY_SIZE as int, PLAYER_INSET as int)
}

} // verus!
