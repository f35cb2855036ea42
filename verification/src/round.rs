use vstd::prelude::*;
use crate::collision::{
    bullets_in_bounds, collide, enemies_in_bounds, handle_collisions, mask_filter,
};
use crate::config::{
    BULLET_KEEP_MIN_Y, BULLET_SPEED, BULLET_W, DT_MAX_MS, ENEMY_INSET, ENEMY_SPEED,
    ENTITY_SIZE, GameConfig, MAX_DIM, PLAYER_BOTTOM_MARGIN, PLAYER_INSET, PLAYER_SPEED, POS_LIMIT,
    SHOOT_COOLDOWN_MS, SPAWN_FIRST_MS, SPAWN_INTERVAL_MS,
};
use crate::entities::{
    bullet_models, enemy_hitbox, enemy_models, player_hitbox, Bullet, BulletM, Enemy, EnemyM,
    Player,
};
use crate::geom::{get_hitbox, rects_overlap, Vec2i};
use crate::rng::random_in_range;

verus! {

// The round simulator: one playthrough's state, advanced exactly once per
// rendered frame until an enemy touches the player. Each frame applies, in
// this order: fire-cooldown tick, player movement with clamping, firing,
// entity movement, timed enemy spawning, bullet-enemy collision resolution,
// the player-enemy terminal check, and off-screen culling. The ordering is
// load-bearing: it defines the observable behavior.

/// The input sampled by the environment for one frame.
#[derive(Clone, Copy, Debug)]
pub struct FrameInput {
    /// Elapsed time since the previous frame, in milliseconds.
    pub dt_ms: u32,
    /// The left movement key is held.
    pub left: bool,
    /// The right movement key is held.
    pub right: bool,
    /// The fire key is held.
    pub fire: bool,
}

/// What one frame decided, for the environment to act on: which one-shot
/// sounds to play and whether the round just ended.
#[derive(Clone, Copy, Debug)]
pub struct FrameOutput {
    /// A bullet was fired this frame (fire sound).
    pub fired: bool,
    /// An enemy was spawned this frame.
    pub spawned: bool,
    /// How many enemies bullets destroyed this frame (explosion sounds).
    pub kills: u64,
    /// An enemy reached the player: the round is over (game-over sound) and
    /// the state's score is final.
    pub game_over: bool,
}

/// Mathematical model of a round's state.
#[verifier::ext_equal]
pub struct RoundModel {
    pub player_x: int,
    pub player_y: int,
    pub bullets: Seq<BulletM>,
    pub enemies: Seq<EnemyM>,
    pub score: int,
    pub spawn_timer: int,
    pub shoot_timer: int,
}

/// Mathematical outcome of one frame step.
#[verifier::ext_equal]
pub struct StepOut {
    pub state: RoundModel,
    pub fired: bool,
    pub spawned: bool,
    pub kills: int,
    pub game_over: bool,
}

/// The fire-cooldown timer after its per-frame tick: it only counts down
/// while positive.
pub open spec fn cooled(shoot_timer: int, dt: int) -> int {
    if shoot_timer > 0 {
        shoot_timer - dt
    } else {
        shoot_timer
    }
}

/// The player's horizontal position after applying held keys at fixed speed
/// and clamping to `[0, screen_w - ENTITY_SIZE]`.
pub open spec fn moved_x(cfg: GameConfig, x0: int, left: bool, right: bool, dt: int) -> int {
    let x1 = if left {
        x0 - PLAYER_SPEED * dt
    } else {
        x0
    };
    let x2 = if right {
        x1 + PLAYER_SPEED * dt
    } else {
        x1
    };
    let x3 = if x2 < 0 {
        0
    } else {
        x2
    };
    if x3 > cfg.screen_w - ENTITY_SIZE {
        cfg.screen_w - ENTITY_SIZE
    } else {
        x3
    }
}

/// A freshly fired bullet: horizontally centered on the player, at the
/// player's top edge.
pub open spec fn spawned_bullet(px: int, py: int) -> BulletM {
    BulletM { x: px + ENTITY_SIZE / 2 - BULLET_W / 2, y: py }
}

/// All bullets after one frame of upward motion.
pub open spec fn moved_bullets(bs: Seq<BulletM>, dt: int) -> Seq<BulletM> {
    bs.map_values(|b: BulletM| BulletM { x: b.x, y: b.y - BULLET_SPEED * dt })
}

/// All enemies after one frame of downward motion.
pub open spec fn moved_enemies(es: Seq<EnemyM>, dt: int) -> Seq<EnemyM> {
    es.map_values(|e: EnemyM| EnemyM { x: e.x, y: e.y + ENEMY_SPEED * dt })
}

/// Whether the spawn timer runs out this frame.
pub open spec fn spawn_due(s: RoundModel, dt: int) -> bool {
    s.spawn_timer - dt <= 0
}

/// Whether any live enemy's inset hitbox overlaps the player's inset
/// hitbox.
pub open spec fn hits_player(px: int, py: int, es: Seq<EnemyM>) -> bool {
    exists|i: int|
        0 <= i < es.len() && rects_overlap(player_hitbox(px, py), enemy_hitbox(#[trigger] es[i]))
}

/// The enemies still on screen: those whose top edge has not passed the
/// bottom of the screen.
pub open spec fn culled_enemies(es: Seq<EnemyM>, screen_h: int) -> Seq<EnemyM>
    decreases es.len(),
{
    if es.len() == 0 {
        Seq::empty()
    } else {
        let rest = culled_enemies(es.drop_last(), screen_h);
        if es.last().y < screen_h {
            rest.push(es.last())
        } else {
            rest
        }
    }
}

/// The bullets still worth keeping: those that could still reach an enemy
/// hitbox. A bullet above `BULLET_KEEP_MIN_Y` can never again overlap one,
/// since enemies enter at `y == -ENTITY_SIZE` and only descend while
/// bullets only rise, so culling there is unobservable in play and keeps
/// the live set bounded.
pub open spec fn culled_bullets(bs: Seq<BulletM>) -> Seq<BulletM>
    decreases bs.len(),
{
    if bs.len() == 0 {
        Seq::empty()
    } else {
        let rest = culled_bullets(bs.drop_last());
        if bs.last().y >= BULLET_KEEP_MIN_Y {
            rest.push(bs.last())
        } else {
            rest
        }
    }
}

/// Saturating score update: the kill count is added to the score, capping
/// at the largest representable value.
pub open spec fn sat_add_u64(a: int, k: int) -> int {
    if a + k > u64::MAX {
        u64::MAX as int
    } else {
        a + k
    }
}

/// One whole frame of the round, as a function of the previous state, the
/// frame input, and the horizontal position `sx` used if an enemy spawns
/// this frame. The phases run in the order given at the top of this module;
/// on game over the step ends right after the terminal check, so the
/// culling phases do not run.
pub open spec fn step_model(cfg: GameConfig, s: RoundModel, input: FrameInput, sx: int) -> StepOut {
    let dt = input.dt_ms as int;
    let st1 = cooled(s.shoot_timer, dt);
    let px = moved_x(cfg, s.player_x, input.left, input.right, dt);
    let fired = input.fire && st1 <= 0;
    let st2 = if fired {
        SHOOT_COOLDOWN_MS as int
    } else {
        st1
    };
    let bs1 = if fired {
        s.bullets.push(spawned_bullet(px, s.player_y))
    } else {
        s.bullets
    };
    let bs2 = moved_bullets(bs1, dt);
    let es1 = moved_enemies(s.enemies, dt);
    let sp1 = s.spawn_timer - dt;
    let was_spawned = sp1 <= 0;
    let sp2 = if was_spawned {
        SPAWN_INTERVAL_MS as int
    } else {
        sp1
    };
    let es2 = if was_spawned {
        es1.push(EnemyM { x: sx, y: -ENTITY_SIZE as int })
    } else {
        es1
    };
    let p = collide(bs2, es2);
    let bs3 = mask_filter(bs2, p.surv);
    let es3 = mask_filter(es2, p.alive);
    let sc = sat_add_u64(s.score, p.kills);
    let over = hits_player(px, s.player_y, es3);
    let bs4 = if over {
        bs3
    } else {
        culled_bullets(bs3)
    };
    let es4 = if over {
        es3
    } else {
        culled_enemies(es3, cfg.screen_h as int)
    };
    StepOut {
        state: RoundModel {
            player_x: px,
            player_y: s.player_y,
            bullets: bs4,
            enemies: es4,
            score: sc,
            spawn_timer: sp2,
            shoot_timer: st2,
        },
        fired,
        spawned: was_spawned,
        kills: p.kills,
        game_over: over,
    }
}

/// The state a fresh round starts from: player centered at the bottom, no
/// entities, score zero, timers at their initial values.
pub open spec fn init_model(cfg: GameConfig) -> RoundModel {
    RoundModel {
        player_x: (cfg.screen_w - ENTITY_SIZE) / 2,
        player_y: cfg.screen_h - ENTITY_SIZE - PLAYER_BOTTOM_MARGIN,
        bullets: Seq::empty(),
        enemies: Seq::empty(),
        score: 0,
        spawn_timer: SPAWN_FIRST_MS as int,
        shoot_timer: 0,
    }
}

/// Whether one frame step from `pre` with `input` and spawn position `sx`
/// produced exactly the state `post` and the output `out`.
pub open spec fn step_matches(
    cfg: GameConfig,
    pre: RoundModel,
    input: FrameInput,
    sx: int,
    post: RoundModel,
    out: FrameOutput,
) -> bool {
    let m = step_model(cfg, pre, input, sx);
    &&& post == m.state
    &&& out.fired == m.fired
    &&& out.spawned == m.spawned
    &&& out.kills as int == m.kills
    &&& out.game_over == m.game_over
}

/// A bullet that may sit in the state between frames.
pub open spec fn bullet_live_ok(b: BulletM, cfg: GameConfig) -> bool {
    &&& 0 <= b.x <= cfg.screen_w
    &&& BULLET_KEEP_MIN_Y <= b.y <= cfg.screen_h
}

/// An enemy that may sit in the state between frames.
pub open spec fn enemy_live_ok(e: EnemyM, cfg: GameConfig) -> bool {
    &&& 0 <= e.x <= cfg.screen_w - ENTITY_SIZE
    &&& -ENTITY_SIZE <= e.y < cfg.screen_h
}

/// One round's state: the entity store plus the two countdown timers and
/// the score.
pub struct RoundState {
    /// The fixed per-session configuration.
    pub cfg: GameConfig,
    pub player: Player,
    pub bullets: Vec<Bullet>,
    pub enemies: Vec<Enemy>,
    /// Enemies destroyed so far this round.
    pub score: u64,
    /// Milliseconds until the next enemy spawn.
    pub spawn_timer: i64,
    /// Milliseconds until firing is allowed again.
    pub shoot_timer: i64,
}

impl View for RoundState {
    type V = RoundModel;

    open spec fn view(&self) -> RoundModel {
        RoundModel {
            player_x: self.player.pos.x as int,
            player_y: self.player.pos.y as int,
            bullets: bullet_models(self.bullets@),
            enemies: enemy_models(self.enemies@),
            score: self.score as int,
            spawn_timer: self.spawn_timer as int,
            shoot_timer: self.shoot_timer as int,
        }
    }
}

impl RoundState {
    /// Well-formedness between frames: the player is clamped on screen at
    /// its fixed height and size, every entity sits in its live range, and
    /// the timers are in their countdown ranges.
    pub open spec fn wf(self) -> bool {
        &&& self.cfg.wf()
        &&& self.player.size == (Vec2i { x: ENTITY_SIZE, y: ENTITY_SIZE })
        &&& 0 <= self.player.pos.x <= self.cfg.screen_w - ENTITY_SIZE
        &&& self.player.pos.y == self.cfg.screen_h - ENTITY_SIZE - PLAYER_BOTTOM_MARGIN
        &&& forall|i: int|
            0 <= i < self.bullets@.len() ==> bullet_live_ok((#[trigger] self.bullets@[i])@, self.cfg)
        &&& forall|i: int|
            0 <= i < self.enemies@.len() ==> enemy_live_ok((#[trigger] self.enemies@[i])@, self.cfg)
        &&& -DT_MAX_MS <= self.shoot_timer <= SHOOT_COOLDOWN_MS
        &&& 0 < self.spawn_timer <= SPAWN_INTERVAL_MS
    }

    /// Starts a fresh round: player horizontally centered and bottom
    /// anchored, no bullets or enemies, score reset to zero.
    pub fn new(cfg: GameConfig) -> (s: RoundState)
        requires
            cfg.wf(),
        ensures
            s.wf(),
            s.cfg == cfg,
            s@ == init_model(cfg),
    {
        let px: i64 = (cfg.screen_w - ENTITY_SIZE) / 2;
        let py: i64 = cfg.screen_h - ENTITY_SIZE - PLAYER_BOTTOM_MARGIN;
        let s = RoundState {
            cfg,
            player: Player {
                pos: Vec2i { x: px, y: py },
                size: Vec2i { x: ENTITY_SIZE, y: ENTITY_SIZE },
            },
            bullets: Vec::new(),
            enemies: Vec::new(),
            score: 0,
            spawn_timer: SPAWN_FIRST_MS,
            shoot_timer: 0,
        };
        proof {
            assert(s@ =~~= init_model(cfg));
        }
        s
    }
}

impl RoundState {
    /// Advances the round by exactly one frame: cooldown tick, input and
    /// clamped movement, firing, entity motion, timed spawning, collision
    /// resolution, the terminal player-enemy check, and off-screen culling,
    /// in that order. Returns what the frame decided; when `out.game_over`
    /// is set the round is over and `self.score` is its final score.
    ///
    /// The post-state and output are exactly `step_model` of the pre-state,
    /// with the spawn position existentially quantified over the valid
    /// range on frames where the spawn timer runs out.
    #[verifier::rlimit(60)]
    pub fn step(&mut self, input: FrameInput) -> (out: FrameOutput)
        requires
            old(self).wf(),
        ensures
            final(self).cfg == old(self).cfg,
            final(self).player.size == old(self).player.size,
            0 <= final(self).player.pos.x <= old(self).cfg.screen_w - ENTITY_SIZE,
            final(self).score >= old(self).score,
            final(self).score as int == sat_add_u64(old(self)@.score, out.kills as int),
            out.game_over == hits_player(
                final(self)@.player_x,
                final(self)@.player_y,
                final(self)@.enemies,
            ),
            !out.game_over ==> final(self).wf(),
            out.spawned == spawn_due(old(self)@, input.dt_ms as int),
            spawn_due(old(self)@, input.dt_ms as int) ==> exists|sx: int|
                0 <= sx < old(self).cfg.screen_w - ENTITY_SIZE && step_matches(
                    old(self).cfg,
                    old(self)@,
                    input,
                    sx,
                    final(self)@,
                    out,
                ),
            !spawn_due(old(self)@, input.dt_ms as int) ==> step_matches(
                old(self).cfg,
                old(self)@,
                input,
                0,
                final(self)@,
                out,
            ),
    {
        let ghost pre = old(self)@;
        let ghost cfg = old(self).cfg;
        let ghost dt: int = input.dt_ms as int;
        let dt_i: i64 = input.dt_ms as i64;

        // Fire-cooldown tick: the timer only counts down while positive.
        if self.shoot_timer > 0 {
            self.shoot_timer = self.shoot_timer - dt_i;
        }
        let ghost st1 = cooled(pre.shoot_timer, dt);
        proof {
            assert(self.shoot_timer as int == st1);
        }

        // Horizontal movement from held keys, clamped to the screen.
        let mut x: i64 = self.player.pos.x;
        if input.left {
            x = x - PLAYER_SPEED * dt_i;
        }
        if input.right {
            x = x + PLAYER_SPEED * dt_i;
        }
        if x < 0 {
            x = 0;
        }
        let max_x: i64 = self.cfg.screen_w - ENTITY_SIZE;
        if x > max_x {
            x = max_x;
        }
        self.player.pos.x = x;
        let ghost px = moved_x(cfg, pre.player_x, input.left, input.right, dt);
        proof {
            assert(x as int == px);
            assert(0 <= px <= cfg.screen_w - ENTITY_SIZE);
        }

        // Firing: allowed once the cooldown has run out.
        let fired: bool = input.fire && self.shoot_timer <= 0;
        if fired {
            self.shoot_timer = SHOOT_COOLDOWN_MS;
            let bx: i64 = x + ENTITY_SIZE / 2 - BULLET_W / 2;
            self.bullets.push(Bullet { pos: Vec2i { x: bx, y: self.player.pos.y } });
        }
        let ghost bs1 = if fired {
            pre.bullets.push(spawned_bullet(px, pre.player_y))
        } else {
            pre.bullets
        };
        proof {
            assert(bullet_models(self.bullets@) =~= bs1);
            assert forall|i: int|
                0 <= i < self.bullets@.len() implies -MAX_DIM <= (#[trigger] self.bullets@[i]).pos.x
                <= MAX_DIM && -MAX_DIM <= self.bullets@[i].pos.y <= MAX_DIM by {
                if i < old(self).bullets@.len() {
                    assert(self.bullets@[i] == old(self).bullets@[i]);
                    assert(bullet_live_ok(old(self).bullets@[i]@, cfg));
                }
            }
        }

        // Entity motion: bullets rise, enemies descend.
        move_bullets(&mut self.bullets, dt_i);
        move_enemies(&mut self.enemies, dt_i);
        let ghost bs2 = moved_bullets(bs1, dt);
        let ghost es1 = moved_enemies(pre.enemies, dt);

        // Timed enemy spawning at a random horizontal position.
        self.spawn_timer = self.spawn_timer - dt_i;
        let spawned: bool = self.spawn_timer <= 0;
        proof {
            assert(spawned == spawn_due(pre, dt));
        }
        let ghost mut sxg: int = 0;
        if spawned {
            self.spawn_timer = SPAWN_INTERVAL_MS;
            let sx: i64 = random_in_range(0, self.cfg.screen_w - ENTITY_SIZE);
            proof {
                sxg = sx as int;
            }
            self.enemies.push(Enemy { pos: Vec2i { x: sx, y: -ENTITY_SIZE } });
        }
        let ghost es2 = if spawn_due(pre, dt) {
            es1.push(EnemyM { x: sxg, y: -ENTITY_SIZE as int })
        } else {
            es1
        };
        proof {
            assert(enemy_models(self.enemies@) =~= es2);
            assert(bullets_in_bounds(self.bullets@));
            assert forall|i: int|
                0 <= i < self.enemies@.len() implies -POS_LIMIT <= (
                #[trigger] self.enemies@[i]).pos.x <= POS_LIMIT && -POS_LIMIT
                <= self.enemies@[i].pos.y <= POS_LIMIT by {}
        }

        // Collision resolution and score accumulation.
        let kills: u64 = handle_collisions(&mut self.bullets, &mut self.enemies);
        let ghost cp = collide(bs2, es2);
        let ghost bs3 = mask_filter(bs2, cp.surv);
        let ghost es3 = mask_filter(es2, cp.alive);
        proof {
            assert(bullet_models(self.bullets@) == bs3);
            assert(enemy_models(self.enemies@) == es3);
            assert(kills as int == cp.kills);
        }
        let new_score: u64 = if kills > u64::MAX - self.score {
            u64::MAX
        } else {
            self.score + kills
        };
        self.score = new_score;
        proof {
            assert(self.score as int == sat_add_u64(pre.score, cp.kills));
        }

        // Terminal check: any enemy touching the player ends the round.
        let game_over: bool = player_collides(&self.player, &self.enemies);
        let ghost over = hits_player(px, pre.player_y, es3);
        proof {
            assert(game_over == over);
        }

        // Off-screen culling, skipped on the terminal frame.
        if !game_over {
            cull_enemies(&mut self.enemies, self.cfg.screen_h);
            cull_bullets(&mut self.bullets);
        }
        let ghost bs4 = if over {
            bs3
        } else {
            culled_bullets(bs3)
        };
        let ghost es4 = if over {
            es3
        } else {
            culled_enemies(es3, cfg.screen_h as int)
        };
        proof {
            assert(bullet_models(self.bullets@) == bs4);
            assert(enemy_models(self.enemies@) == es4);
        }

        let out = FrameOutput { fired, spawned, kills, game_over };
        proof {
            let m = step_model(cfg, pre, input, sxg);
            assert(self@ =~~= m.state);
            assert(step_matches(cfg, pre, input, sxg, self@, out));
            if spawn_due(pre, dt) {
                assert(0 <= sxg < cfg.screen_w - ENTITY_SIZE);
            }
            if !game_over {
                // The terminal check was already clear of the pre-cull
                // enemies; culling only removes enemies, so it stays clear.
                let pred_nohit = |e: EnemyM|
                    !rects_overlap(player_hitbox(px, pre.player_y), enemy_hitbox(e));
                assert(forall|i: int| 0 <= i < es3.len() ==> pred_nohit(#[trigger] es3[i]));
                lemma_culled_enemies_all(es3, cfg.screen_h as int, pred_nohit);
                assert(!hits_player(px, pre.player_y, es4));
            }
            if !game_over {
                let pred_b = |b: BulletM| 0 <= b.x <= cfg.screen_w && b.y <= cfg.screen_h;
                assert forall|i: int| 0 <= i < bs2.len() implies pred_b(#[trigger] bs2[i]) by {
                    assert(bs2[i].x == bs1[i].x && bs2[i].y == bs1[i].y - BULLET_SPEED * dt);
                    if fired && i == pre.bullets.len() {
                        assert(bs1[i] == spawned_bullet(px, pre.player_y));
                    } else {
                        assert(bs1[i] == pre.bullets[i]);
                        assert(bullet_live_ok(pre.bullets[i], cfg));
                    }
                }
                crate::collision::lemma_mask_filter_all(bs2, cp.surv, pred_b);
                lemma_culled_bullets_all(bs3, pred_b);
                let pred_e = |e: EnemyM| 0 <= e.x <= cfg.screen_w - ENTITY_SIZE && -ENTITY_SIZE
                    <= e.y;
                assert forall|i: int| 0 <= i < es2.len() implies pred_e(#[trigger] es2[i]) by {
                    if spawn_due(pre, dt) && i == es1.len() {
                        assert(es2[i] == EnemyM { x: sxg, y: -ENTITY_SIZE as int });
                    } else {
                        assert(es2[i].x == pre.enemies[i].x && es2[i].y == pre.enemies[i].y
                            + ENEMY_SPEED * dt);
                        assert(enemy_live_ok(pre.enemies[i], cfg));
                    }
                }
                crate::collision::lemma_mask_filter_all(es2, cp.alive, pred_e);
                lemma_culled_enemies_all(es3, cfg.screen_h as int, pred_e);
                assert forall|i: int|
                    0 <= i < self.bullets@.len() implies bullet_live_ok(
                    (#[trigger] self.bullets@[i])@,
                    self.cfg,
                ) by {
                    assert(self.bullets@[i]@ == bs4[i]);
                    assert(pred_b(bs4[i]) && bs4[i].y >= BULLET_KEEP_MIN_Y);
                }
                assert forall|i: int|
                    0 <= i < self.enemies@.len() implies enemy_live_ok(
                    (#[trigger] self.enemies@[i])@,
                    self.cfg,
                ) by {
                    assert(self.enemies@[i]@ == es4[i]);
                    assert(pred_e(es4[i]) && es4[i].y < cfg.screen_h);
                }
                assert(final(self).wf());
            }
        }
        out
    }
}

/// Culling only removes elements: whatever holds of every enemy before the
/// cull holds of every survivor, and every survivor is above the bottom of
/// the screen.
proof fn lemma_culled_enemies_all(es: Seq<EnemyM>, screen_h: int, pred: spec_fn(EnemyM) -> bool)
    requires
        forall|i: int| 0 <= i < es.len() ==> pred(#[trigger] es[i]),
    ensures
        forall|i: int|
            0 <= i < culled_enemies(es, screen_h).len() ==> pred(
                #[trigger] culled_enemies(es, screen_h)[i],
            ) && culled_enemies(es, screen_h)[i].y < screen_h,
    decreases es.len(),
{
    if es.len() > 0 {
        assert(forall|i: int| 0 <= i < es.drop_last().len() ==> pred(#[trigger] es.drop_last()[i]));
        lemma_culled_enemies_all(es.drop_last(), screen_h, pred);
        let r = culled_enemies(es, screen_h);
        let rest = culled_enemies(es.drop_last(), screen_h);
        assert forall|i: int| 0 <= i < r.len() implies pred(#[trigger] r[i]) && r[i].y
            < screen_h by {
            if es.last().y < screen_h && i == rest.len() {
                assert(r[i] == es.last());
            } else {
                assert(r[i] == rest[i]);
            }
        }
    }
}

/// Culling only removes elements: whatever holds of every bullet before the
/// cull holds of every survivor, and every survivor is at or below the
/// keep line.
proof fn lemma_culled_bullets_all(bs: Seq<BulletM>, pred: spec_fn(BulletM) -> bool)
    requires
        forall|i: int| 0 <= i < bs.len() ==> pred(#[trigger] bs[i]),
    ensures
        forall|i: int|
            0 <= i < culled_bullets(bs).len() ==> pred(#[trigger] culled_bullets(bs)[i])
                && culled_bullets(bs)[i].y >= BULLET_KEEP_MIN_Y,
    decreases bs.len(),
{
    if bs.len() > 0 {
        assert(forall|i: int| 0 <= i < bs.drop_last().len() ==> pred(#[trigger] bs.drop_last()[i]));
        lemma_culled_bullets_all(bs.drop_last(), pred);
        let r = culled_bullets(bs);
        let rest = culled_bullets(bs.drop_last());
        assert forall|i: int| 0 <= i < r.len() implies pred(#[trigger] r[i]) && r[i].y
            >= BULLET_KEEP_MIN_Y by {
            if bs.last().y >= BULLET_KEEP_MIN_Y && i == rest.len() {
                assert(r[i] == bs.last());
            } else {
                assert(r[i] == rest[i]);
            }
        }
    }
}

/// Advances every bullet one frame upward.
fn move_bullets(bullets: &mut Vec<Bullet>, dt: i64)
    requires
        0 <= dt <= DT_MAX_MS,
        forall|i: int|
            0 <= i < old(bullets)@.len() ==> -MAX_DIM <= (#[trigger] old(
                bullets,
            )@[i]).pos.x <= MAX_DIM && -MAX_DIM <= old(bullets)@[i].pos.y <= MAX_DIM,
    ensures
        bullet_models(final(bullets)@) == moved_bullets(bullet_models(old(bullets)@), dt as int),
        bullets_in_bounds(final(bullets)@),
{
    let n: usize = bullets.len();
    let mut i: usize = 0;
    while i < n
        invariant
            0 <= dt <= DT_MAX_MS,
            n == bullets@.len(),
            bullets@.len() == old(bullets)@.len(),
            0 <= i <= n,
            forall|k: int| i <= k < n ==> bullets@[k] == old(bullets)@[k],
            forall|k: int|
                0 <= k < n ==> -MAX_DIM <= (#[trigger] old(bullets)@[k]).pos.x <= MAX_DIM
                    && -MAX_DIM <= old(bullets)@[k].pos.y <= MAX_DIM,
            forall|k: int|
                0 <= k < i ==> (#[trigger] bullets@[k])@ == moved_bullets(
                    bullet_models(old(bullets)@),
                    dt as int,
                )[k],
            forall|k: int|
                0 <= k < i ==> -POS_LIMIT <= (#[trigger] bullets@[k]).pos.x <= POS_LIMIT
                    && -POS_LIMIT <= bullets@[k].pos.y <= POS_LIMIT,
        decreases n - i,
    {
        let b = bullets[i];
        bullets.set(i, Bullet { pos: Vec2i { x: b.pos.x, y: b.pos.y - BULLET_SPEED * dt } });
        i = i + 1;
    }
    proof {
        assert(bullet_models(bullets@) =~= moved_bullets(bullet_models(old(bullets)@), dt as int));
    }
}

/// Advances every enemy one frame downward.
fn move_enemies(enemies: &mut Vec<Enemy>, dt: i64)
    requires
        0 <= dt <= DT_MAX_MS,
        forall|i: int|
            0 <= i < old(enemies)@.len() ==> -MAX_DIM <= (#[trigger] old(
                enemies,
            )@[i]).pos.x <= MAX_DIM && -MAX_DIM <= old(enemies)@[i].pos.y <= MAX_DIM,
    ensures
        enemy_models(final(enemies)@) == moved_enemies(enemy_models(old(enemies)@), dt as int),
        enemies_in_bounds(final(enemies)@),
{
    let n: usize = enemies.len();
    let mut i: usize = 0;
    while i < n
        invariant
            0 <= dt <= DT_MAX_MS,
            n == enemies@.len(),
            enemies@.len() == old(enemies)@.len(),
            0 <= i <= n,
            forall|k: int| i <= k < n ==> enemies@[k] == old(enemies)@[k],
            forall|k: int|
                0 <= k < n ==> -MAX_DIM <= (#[trigger] old(enemies)@[k]).pos.x <= MAX_DIM
                    && -MAX_DIM <= old(enemies)@[k].pos.y <= MAX_DIM,
            forall|k: int|
                0 <= k < i ==> (#[trigger] enemies@[k])@ == moved_enemies(
                    enemy_models(old(enemies)@),
                    dt as int,
                )[k],
            forall|k: int|
                0 <= k < i ==> -POS_LIMIT <= (#[trigger] enemies@[k]).pos.x <= POS_LIMIT
                    && -POS_LIMIT <= enemies@[k].pos.y <= POS_LIMIT,
        decreases n - i,
    {
        let e = enemies[i];
        enemies.set(i, Enemy { pos: Vec2i { x: e.pos.x, y: e.pos.y + ENEMY_SPEED * dt } });
        i = i + 1;
    }
    proof {
        assert(enemy_models(enemies@) =~= moved_enemies(enemy_models(old(enemies)@), dt as int));
    }
}

/// Removes every enemy whose top edge has passed below the bottom of the
/// screen.
fn cull_enemies(enemies: &mut Vec<Enemy>, screen_h: i64)
    ensures
        enemy_models(final(enemies)@) == culled_enemies(
            enemy_models(old(enemies)@),
            screen_h as int,
        ),
{
    let ghost em = enemy_models(old(enemies)@);
    let n: usize = enemies.len();
    let mut kept: Vec<Enemy> = Vec::new();
    let mut j: usize = 0;
    while j < n
        invariant
            n == enemies@.len(),
            enemies@ == old(enemies)@,
            em == enemy_models(enemies@),
            0 <= j <= n,
            enemy_models(kept@) == culled_enemies(em.take(j as int), screen_h as int),
        decreases n - j,
    {
        let e = enemies[j];
        if e.pos.y < screen_h {
            kept.push(e);
        }
        proof {
            assert(em.take(j as int + 1).drop_last() =~= em.take(j as int));
            assert(em.take(j as int + 1).last() == em[j as int]);
            if e.pos.y < screen_h {
                assert(enemy_models(kept@) =~= culled_enemies(
                    em.take(j as int),
                    screen_h as int,
                ).push(em[j as int]));
            }
        }
        j = j + 1;
    }
    proof {
        assert(em.take(n as int) =~= em);
    }
    *enemies = kept;
}

/// Removes every bullet that has risen past the point where it could still
/// reach an enemy hitbox.
fn cull_bullets(bullets: &mut Vec<Bullet>)
    ensures
        bullet_models(final(bullets)@) == culled_bullets(bullet_models(old(bullets)@)),
{
    let ghost bm = bullet_models(old(bullets)@);
    let n: usize = bullets.len();
    let mut kept: Vec<Bullet> = Vec::new();
    let mut j: usize = 0;
    while j < n
        invariant
            n == bullets@.len(),
            bullets@ == old(bullets)@,
            bm == bullet_models(bullets@),
            0 <= j <= n,
            bullet_models(kept@) == culled_bullets(bm.take(j as int)),
        decreases n - j,
    {
        let b = bullets[j];
        if b.pos.y >= BULLET_KEEP_MIN_Y {
            kept.push(b);
        }
        proof {
            assert(bm.take(j as int + 1).drop_last() =~= bm.take(j as int));
            assert(bm.take(j as int + 1).last() == bm[j as int]);
            if b.pos.y >= BULLET_KEEP_MIN_Y {
                assert(bullet_models(kept@) =~= culled_bullets(bm.take(j as int)).push(
                    bm[j as int],
                ));
            }
        }
        j = j + 1;
    }
    proof {
        assert(bm.take(n as int) =~= bm);
    }
    *bullets = kept;
}

/// Tests the player's inset hitbox against every live enemy's inset hitbox.
fn player_collides(player: &Player, enemies: &Vec<Enemy>) -> (r: bool)
    requires
        -MAX_DIM <= player.pos.x <= MAX_DIM,
        -MAX_DIM <= player.pos.y <= MAX_DIM,
        player.size == (Vec2i { x: ENTITY_SIZE, y: ENTITY_SIZE }),
        enemies_in_bounds(enemies@),
    ensures
        r == hits_player(player.pos.x as int, player.pos.y as int, enemy_models(enemies@)),
{
    let ghost em = enemy_models(enemies@);
    let ghost px = player.pos.x as int;
    let ghost py = player.pos.y as int;
    let phb = get_hitbox(player.pos, player.size, PLAYER_INSET);
    proof {
        assert(phb@ == player_hitbox(px, py));
    }
    let n: usize = enemies.len();
    let mut j: usize = 0;
    while j < n
        invariant
            n == enemies@.len(),
            enemies_in_bounds(enemies@),
            em == enemy_models(enemies@),
            px == player.pos.x as int,
            py == player.pos.y as int,
            phb@ == player_hitbox(px, py),
            -2 * MAX_DIM <= phb.x <= 2 * MAX_DIM,
            -2 * MAX_DIM <= phb.y <= 2 * MAX_DIM,
            0 <= phb.w <= MAX_DIM,
            0 <= phb.h <= MAX_DIM,
            0 <= j <= n,
            forall|k: int| 0 <= k < j ==> !rects_overlap(phb@, enemy_hitbox(#[trigger] em[k])),
        decreases n - j,
    {
        let e = enemies[j];
        let ehb = get_hitbox(e.pos, Vec2i { x: ENTITY_SIZE, y: ENTITY_SIZE }, ENEMY_INSET);
        proof {
            assert(ehb@ == enemy_hitbox(em[j as int]));
        }
        if phb.overlaps(&ehb) {
            proof {
                assert(0 <= (j as int) < em.len());
                assert(rects_overlap(player_hitbox(px, py), enemy_hitbox(em[j as int])));
                assert(hits_player(px, py, em));
            }
            return true;
        }
        j = j + 1;
    }
    proof {
        assert(!hits_player(px, py, em));
    }
    false
}

/// Law: held fire cannot emit faster than the cooldown. A frame fires only
/// while the fire key is held and the cooldown timer has run out; firing
/// rearms the timer to the full `SHOOT_COOLDOWN_MS`, and a non-firing frame
/// lowers it by at most that frame's `dt` — so between two fired frames at
/// least `SHOOT_COOLDOWN_MS` of simulated time elapses.
pub proof fn lemma_fire_cooldown(cfg: GameConfig, s: RoundModel, input: FrameInput, sx: int)
    ensures
        ({
            let m = step_model(cfg, s, input, sx);
            &&& m.fired ==> input.fire && cooled(s.shoot_timer, input.dt_ms as int) <= 0
            &&& m.fired ==> m.state.shoot_timer == SHOOT_COOLDOWN_MS
            &&& !m.fired ==> m.state.shoot_timer >= s.shoot_timer - input.dt_ms
        }),
{
}

/// Law: enemies spawn on the timer and only then. A frame spawns exactly
/// when the spawn timer runs out; spawning rearms the timer to the full
/// `SPAWN_INTERVAL_MS`, and any other frame lowers it by exactly `dt`.
pub proof fn lemma_spawn_schedule(cfg: GameConfig, s: RoundModel, input: FrameInput, sx: int)
    ensures
        ({
            let m = step_model(cfg, s, input, sx);
            &&& m.spawned == spawn_due(s, input.dt_ms as int)
            &&& m.spawned ==> m.state.spawn_timer == SPAWN_INTERVAL_MS
            &&& !m.spawned ==> m.state.spawn_timer == s.spawn_timer - input.dt_ms
        }),
{
}

/// Law: on a frame with `dt > 0`, every bullet's vertical coordinate
/// strictly decreases and its horizontal coordinate is unchanged, until the
/// bullet is removed.
pub proof fn lemma_bullets_monotonic(bs: Seq<BulletM>, dt: int)
    requires
        dt > 0,
    ensures
        moved_bullets(bs, dt).len() == bs.len(),
        forall|i: int|
            0 <= i < bs.len() ==> (#[trigger] moved_bullets(bs, dt)[i]).y < bs[i].y && moved_bullets(
                bs,
                dt,
            )[i].x == bs[i].x,
{
}

/// Law: on a frame with `dt > 0`, every enemy's vertical coordinate
/// strictly increases and its horizontal coordinate is unchanged, until the
/// enemy is removed.
pub proof fn lemma_enemies_monotonic(es: Seq<EnemyM>, dt: int)
    requires
        dt > 0,
    ensures
        moved_enemies(es, dt).len() == es.len(),
        forall|i: int|
            0 <= i < es.len() ==> (#[trigger] moved_enemies(es, dt)[i]).y > es[i].y && moved_enemies(
                es,
                dt,
            )[i].x == es[i].x,
{
}

} // verus!
