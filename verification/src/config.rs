use vstd::prelude::*;

verus! {

// All distances are measured in millipixels (one thousandth of a pixel) and
// all times in milliseconds, so that per-frame displacement `speed * dt` is
// exact integer arithmetic: a speed of 700 pixels per second is exactly
// 700 millipixels per millisecond.

/// Millipixels per pixel.
pub const MILLIPX: i64 = 1_000;

/// Width and height of the player and enemy sprites.
pub const ENTITY_SIZE: i64 = 64_000;

/// Width of a bullet.
pub const BULLET_W: i64 = 10_000;

/// Height of a bullet.
pub const BULLET_H: i64 = 20_000;

/// Hitbox inset used for the player in the player-enemy check.
pub const PLAYER_INSET: i64 = 10_000;

/// Hitbox inset used for enemies, both against bullets and against the player.
pub const ENEMY_INSET: i64 = 8_000;

/// Gap between the bottom of the player sprite and the bottom of the screen
/// at round start.
pub const PLAYER_BOTTOM_MARGIN: i64 = 10_000;

/// Horizontal player speed, in millipixels per millisecond.
pub const PLAYER_SPEED: i64 = 700;

/// Upward bullet speed, in millipixels per millisecond.
pub const BULLET_SPEED: i64 = 800;

/// Downward enemy speed, in millipixels per millisecond.
pub const ENEMY_SPEED: i64 = 400;

/// Minimum delay between two shots, in milliseconds.
pub const SHOOT_COOLDOWN_MS: i64 = 400;

/// Delay before the first enemy spawn of a round, in milliseconds.
pub const SPAWN_FIRST_MS: i64 = 500;

/// Delay between enemy spawns after the first one, in milliseconds.
pub const SPAWN_INTERVAL_MS: i64 = 1_500;

/// Largest screen dimension the simulation accepts, in millipixels
/// (two million pixels).
pub const MAX_DIM: i64 = 2_000_000_000;

/// Largest frame time, in milliseconds (every `u32` value is accepted).
pub const DT_MAX_MS: i64 = 4_294_967_295;

/// Bullets whose `y` falls below this can never again reach an enemy hitbox
/// (enemies enter at `y == -ENTITY_SIZE` and only descend, bullets only rise),
/// so they are culled once they cross it.
pub const BULLET_KEEP_MIN_Y: i64 = ENEMY_INSET - ENTITY_SIZE - BULLET_H;

/// A bound that every coordinate of a live or in-flight entity stays under
/// during one frame: screen coordinates are at most `MAX_DIM` and one frame
/// moves an entity by at most `BULLET_SPEED * DT_MAX_MS`.
pub const POS_LIMIT: i64 = 20_000_000_000_000;

/// Per-round configuration: the fixed screen size, in millipixels.
///
/// The screen size is read once from the environment when a session starts
/// and stays fixed for its lifetime.
#[derive(Clone, Copy, PartialEq, Eq, Structural, Debug)]
pub struct GameConfig {
    pub screen_w: i64,
    pub screen_h: i64,
}

impl GameConfig {
    /// The screen must have room for one entity horizontally (so the player
    /// clamp range and the enemy spawn range are non-empty) and for the
    /// player with its bottom margin vertically.
    pub open spec fn wf(self) -> bool {
        &&& ENTITY_SIZE < self.screen_w <= MAX_DIM
        &&& ENTITY_SIZE + PLAYER_BOTTOM_MARGIN < self.screen_h <= MAX_DIM
    }

    /// Builds a configuration, rejecting screen sizes the simulation cannot
    /// host.
    pub fn new(screen_w: i64, screen_h: i64) -> (r: Option<GameConfig>)
        ensures
            r is Some <==> (GameConfig { screen_w, screen_h }).wf(),
            r is Some ==> r->0 == (GameConfig { screen_w, screen_h }),
    {
        if ENTITY_SIZE < screen_w && screen_w <= MAX_DIM && ENTITY_SIZE + PLAYER_BOTTOM_MARGIN
            < screen_h && screen_h <= MAX_DIM {
            Some(GameConfig { screen_w, screen_h })
        } else {
            None
        }
    }
}

} // verus!
