use vstd::prelude::*;
use crate::config::{BULLET_H, BULLET_W, ENEMY_INSET, ENTITY_SIZE, POS_LIMIT};
use crate::entities::{
    bullet_models, bullet_rect, enemy_hitbox, enemy_models, Bullet, BulletM, Enemy, EnemyM,
};
use crate::geom::{get_hitbox, rects_overlap, Rect, RectM, Vec2i};

verus! {

// Bullet-enemy collision resolution. Each live bullet is tested against the
// enemies in list order; the first live enemy whose inset hitbox overlaps
// the bullet's rectangle is consumed, the bullet is removed, and the scan
// for that bullet stops, so one bullet destroys at most one enemy per frame
// and an enemy consumed earlier in the same pass is never matched again.
// Consumed enemies are tracked with an explicit liveness mask and compacted
// out at the end of the pass.

/// A mask of `n` entries, all live.
pub open spec fn all_true(n: nat) -> Seq<bool> {
    Seq::new(n, |i: int| true)
}

/// How many entries of a mask are true.
pub open spec fn count_true(m: Seq<bool>) -> int
    decreases m.len(),
{
    if m.len() == 0 {
        0
    } else if m.last() {
        count_true(m.drop_last()) + 1
    } else {
        count_true(m.drop_last())
    }
}

/// The elements of `s` whose mask entry is true, in order.
pub open spec fn mask_filter<T>(s: Seq<T>, m: Seq<bool>) -> Seq<T>
    recommends
        s.len() == m.len(),
    decreases s.len(),
{
    if s.len() == 0 {
        Seq::empty()
    } else if m.len() == s.len() && m.last() {
        mask_filter(s.drop_last(), m.drop_last()).push(s.last())
    } else {
        mask_filter(s.drop_last(), m.drop_last())
    }
}

/// The first index at or after `j` of a live enemy whose hitbox overlaps
/// `brect`, if any.
pub open spec fn first_hit_from(brect: RectM, es: Seq<EnemyM>, alive: Seq<bool>, j: int) -> Option<
    int,
>
    recommends
        alive.len() == es.len(),
    decreases es.len() - j,
{
    if j < 0 || j >= es.len() {
        None
    } else if alive[j] && rects_overlap(brect, enemy_hitbox(es[j])) {
        Some(j)
    } else {
        first_hit_from(brect, es, alive, j + 1)
    }
}

/// The first live enemy whose hitbox overlaps `brect`, if any.
pub open spec fn first_hit(brect: RectM, es: Seq<EnemyM>, alive: Seq<bool>) -> Option<int> {
    first_hit_from(brect, es, alive, 0)
}

/// Outcome of a collision pass: which bullets survive, which enemies are
/// still live, and how many enemies were killed.
#[verifier::ext_equal]
pub struct PassOut {
    /// One entry per bullet processed: true iff the bullet hit nothing.
    pub surv: Seq<bool>,
    /// The liveness mask of the enemies after the pass.
    pub alive: Seq<bool>,
    /// The number of enemies consumed during the pass.
    pub kills: int,
}

/// Processes bullets `i`, `i+1`, ... against the enemies, starting from the
/// given liveness mask. Each bullet consumes the first live enemy it
/// overlaps, if any, and is then removed itself.
pub open spec fn run_pass(bs: Seq<BulletM>, es: Seq<EnemyM>, alive: Seq<bool>, i: int) -> PassOut
    recommends
        alive.len() == es.len(),
    decreases bs.len() - i,
{
    if i < 0 || i >= bs.len() {
        PassOut { surv: Seq::empty(), alive, kills: 0 }
    } else {
        match first_hit(bullet_rect(bs[i]), es, alive) {
            Some(j) => {
                let rest = run_pass(bs, es, alive.update(j, false), i + 1);
                PassOut { surv: seq![false] + rest.surv, alive: rest.alive, kills: 1 + rest.kills }
            },
            None => {
                let rest = run_pass(bs, es, alive, i + 1);
                PassOut { surv: seq![true] + rest.surv, alive: rest.alive, kills: rest.kills }
            },
        }
    }
}

/// One whole collision pass: all bullets in order, all enemies initially
/// live.
pub open spec fn collide(bs: Seq<BulletM>, es: Seq<EnemyM>) -> PassOut {
    run_pass(bs, es, all_true(es.len()), 0)
}

/// Every coordinate of the bullet is within the frame-local bound.
pub open spec fn bullet_in_bounds(b: Bullet) -> bool {
    &&& -POS_LIMIT <= b.pos.x <= POS_LIMIT
    &&& -POS_LIMIT <= b.pos.y <= POS_LIMIT
}

/// Every coordinate of the enemy is within the frame-local bound.
pub open spec fn enemy_in_bounds(e: Enemy) -> bool {
    &&& -POS_LIMIT <= e.pos.x <= POS_LIMIT
    &&& -POS_LIMIT <= e.pos.y <= POS_LIMIT
}

pub open spec fn bullets_in_bounds(s: Seq<Bullet>) -> bool {
    forall|i: int| 0 <= i < s.len() ==> bullet_in_bounds(#[trigger] s[i])
}

pub open spec fn enemies_in_bounds(s: Seq<Enemy>) -> bool {
    forall|i: int| 0 <= i < s.len() ==> enemy_in_bounds(#[trigger] s[i])
}

proof fn lemma_count_true_all(n: nat)
    ensures
        count_true(all_true(n)) == n,
    decreases n,
{
    if n > 0 {
        assert(all_true(n).drop_last() =~= all_true((n - 1) as nat));
        lemma_count_true_all((n - 1) as nat);
    }
}

proof fn lemma_mask_filter_len<T>(s: Seq<T>, m: Seq<bool>)
    requires
        s.len() == m.len(),
    ensures
        mask_filter(s, m).len() == count_true(m),
        0 <= count_true(m) <= m.len(),
    decreases s.len(),
{
    if s.len() > 0 {
        lemma_mask_filter_len(s.drop_last(), m.drop_last());
    }
}

proof fn lemma_count_true_update(m: Seq<bool>, j: int)
    requires
        0 <= j < m.len(),
        m[j],
    ensures
        count_true(m.update(j, false)) == count_true(m) - 1,
    decreases m.len(),
{
    if j == m.len() - 1 {
        assert(m.update(j, false).drop_last() =~= m.drop_last());
        assert(!m.update(j, false).last());
    } else {
        assert(m.update(j, false).drop_last() =~= m.drop_last().update(j, false));
        assert(m.update(j, false).last() == m.last());
        lemma_count_true_update(m.drop_last(), j);
    }
}

/// Masking only removes elements: whatever holds of every element of `s`
/// holds of every element of `mask_filter(s, m)`.
pub proof fn lemma_mask_filter_all<T>(s: Seq<T>, m: Seq<bool>, pred: spec_fn(T) -> bool)
    requires
        forall|i: int| 0 <= i < s.len() ==> pred(#[trigger] s[i]),
    ensures
        forall|i: int|
            0 <= i < mask_filter(s, m).len() ==> pred(#[trigger] mask_filter(s, m)[i]),
    decreases s.len(),
{
    if s.len() > 0 {
        assert(forall|i: int|
            0 <= i < s.drop_last().len() ==> pred(#[trigger] s.drop_last()[i]));
        lemma_mask_filter_all(s.drop_last(), m.drop_last(), pred);
        let r = mask_filter(s, m);
        let rest = mask_filter(s.drop_last(), m.drop_last());
        assert forall|i: int| 0 <= i < r.len() implies pred(#[trigger] r[i]) by {
            if m.len() == s.len() && m.last() && i == rest.len() {
                assert(r[i] == s.last());
            } else {
                assert(r[i] == rest[i]);
            }
        }
    }
}

/// Full characterization of the scan order: a hit is the least live
/// overlapping index at or after `j0`; a miss means there is none.
pub proof fn lemma_first_hit_from_props(brect: RectM, es: Seq<EnemyM>, alive: Seq<bool>, j0: int)
    requires
        0 <= j0 <= es.len(),
    ensures
        match first_hit_from(brect, es, alive, j0) {
            Some(j) => {
                &&& j0 <= j < es.len()
                &&& alive[j]
                &&& rects_overlap(brect, enemy_hitbox(es[j]))
                &&& forall|k: int|
                    j0 <= k < j ==> !(alive[k] && rects_overlap(
                        brect,
                        enemy_hitbox(#[trigger] es[k]),
                    ))
            },
            None => forall|k: int|
                j0 <= k < es.len() ==> !(alive[k] && rects_overlap(
                    brect,
                    enemy_hitbox(#[trigger] es[k]),
                )),
        },
    decreases es.len() - j0,
{
    if j0 < es.len() {
        if !(alive[j0] && rects_overlap(brect, enemy_hitbox(es[j0]))) {
            lemma_first_hit_from_props(brect, es, alive, j0 + 1);
        }
    }
}

/// Bookkeeping of a pass: mask lengths are preserved, each kill flips
/// exactly one live entry to dead, consumed enemies stay consumed, and the
/// kill count matches both masks.
pub proof fn lemma_run_pass_props(bs: Seq<BulletM>, es: Seq<EnemyM>, alive: Seq<bool>, i: int)
    requires
        0 <= i <= bs.len(),
        alive.len() == es.len(),
    ensures
        ({
            let p = run_pass(bs, es, alive, i);
            &&& p.surv.len() == bs.len() - i
            &&& p.alive.len() == es.len()
            &&& 0 <= p.kills <= bs.len() - i
            &&& count_true(p.alive) == count_true(alive) - p.kills
            &&& count_true(p.surv) == (bs.len() - i) - p.kills
        }),
    decreases bs.len() - i,
{
    if i < bs.len() {
        match first_hit(bullet_rect(bs[i]), es, alive) {
            Some(j) => {
                lemma_first_hit_from_props(bullet_rect(bs[i]), es, alive, 0);
                lemma_count_true_update(alive, j);
                lemma_run_pass_props(bs, es, alive.update(j, false), i + 1);
                let rest = run_pass(bs, es, alive.update(j, false), i + 1);
                lemma_count_true_prepend(false, rest.surv);
            },
            None => {
                lemma_run_pass_props(bs, es, alive, i + 1);
                let rest = run_pass(bs, es, alive, i + 1);
                lemma_count_true_prepend(true, rest.surv);
            },
        }
    }
}

proof fn lemma_count_true_prepend(b: bool, m: Seq<bool>)
    ensures
        count_true(seq![b] + m) == count_true(m) + if b {
            1int
        } else {
            0int
        },
    decreases m.len(),
{
    if m.len() == 0 {
        assert(seq![b] + m =~= seq![b]);
        assert(seq![b].drop_last() =~= Seq::<bool>::empty());
        assert(count_true(Seq::<bool>::empty()) == 0);
        assert(count_true(seq![b]) == count_true(Seq::<bool>::empty()) + if b {
            1int
        } else {
            0int
        });
    } else {
        assert((seq![b] + m).drop_last() =~= seq![b] + m.drop_last());
        assert((seq![b] + m).last() == m.last());
        lemma_count_true_prepend(b, m.drop_last());
    }
}

/// Law (collision symmetry): when some live enemy's inset hitbox overlaps a
/// bullet's rectangle, the pass consumes for that bullet exactly one enemy —
/// the first live overlapping one in list order — the kill count rises by
/// exactly one, the bullet itself does not survive, and no enemy before the
/// consumed one is touched by that bullet.
pub proof fn lemma_collision_symmetry(bs: Seq<BulletM>, es: Seq<EnemyM>, alive: Seq<bool>, i: int)
    requires
        0 <= i < bs.len(),
        alive.len() == es.len(),
        exists|j: int|
            0 <= j < es.len() && alive[j] && rects_overlap(
                bullet_rect(bs[i]),
                enemy_hitbox(#[trigger] es[j]),
            ),
    ensures
        first_hit(bullet_rect(bs[i]), es, alive) is Some,
        ({
            let j = first_hit(bullet_rect(bs[i]), es, alive)->0;
            let p = run_pass(bs, es, alive, i);
            let q = run_pass(bs, es, alive.update(j, false), i + 1);
            &&& 0 <= j < es.len()
            &&& alive[j]
            &&& rects_overlap(bullet_rect(bs[i]), enemy_hitbox(es[j]))
            &&& forall|k: int|
                0 <= k < j ==> !(alive[k] && rects_overlap(
                    bullet_rect(bs[i]),
                    enemy_hitbox(#[trigger] es[k]),
                ))
            &&& p.kills == 1 + q.kills
            &&& p.surv == seq![false] + q.surv
            &&& p.alive == q.alive
        }),
{
    let brect = bullet_rect(bs[i]);
    lemma_first_hit_from_props(brect, es, alive, 0);
    if first_hit(brect, es, alive) is None {
        let w = choose|j: int|
            0 <= j < es.len() && alive[j] && rects_overlap(brect, enemy_hitbox(#[trigger] es[j]));
        assert(!(alive[w] && rects_overlap(brect, enemy_hitbox(es[w]))));
        assert(false);
    }
}

/// Finds the first live enemy whose inset hitbox overlaps `brect`, scanning
/// in list order.
fn find_first_hit(brect: Rect, enemies: &Vec<Enemy>, alive: &Vec<bool>) -> (r: Option<usize>)
    requires
        alive@.len() == enemies@.len(),
        enemies_in_bounds(enemies@),
        -2 * POS_LIMIT <= brect.x <= 2 * POS_LIMIT,
        -2 * POS_LIMIT <= brect.y <= 2 * POS_LIMIT,
        0 <= brect.w <= POS_LIMIT,
        0 <= brect.h <= POS_LIMIT,
    ensures
        match r {
            Some(j) => j < enemies@.len() && first_hit(brect@, enemy_models(enemies@), alive@)
                == Some(j as int),
            None => first_hit(brect@, enemy_models(enemies@), alive@) is None,
        },
{
    let ghost em = enemy_models(enemies@);
    let n = enemies.len();
    let mut j: usize = 0;
    while j < n
        invariant
            n == enemies@.len(),
            alive@.len() == n,
            enemies_in_bounds(enemies@),
            -2 * POS_LIMIT <= brect.x <= 2 * POS_LIMIT,
            -2 * POS_LIMIT <= brect.y <= 2 * POS_LIMIT,
            0 <= brect.w <= POS_LIMIT,
            0 <= brect.h <= POS_LIMIT,
            0 <= j <= n,
            em == enemy_models(enemies@),
            first_hit(brect@, em, alive@) == first_hit_from(brect@, em, alive@, j as int),
        decreases n - j,
    {
        if alive[j] {
            let e = enemies[j];
            let ehb = get_hitbox(e.pos, Vec2i { x: ENTITY_SIZE, y: ENTITY_SIZE }, ENEMY_INSET);
            proof {
                assert(ehb@ == enemy_hitbox(em[j as int]));
            }
            if brect.overlaps(&ehb) {
                proof {
                    assert(first_hit_from(brect@, em, alive@, j as int) == Some(j as int));
                }
                return Some(j);
            }
        }
        proof {
            assert(first_hit_from(brect@, em, alive@, j as int) == first_hit_from(
                brect@,
                em,
                alive@,
                j as int + 1,
            ));
        }
        j = j + 1;
    }
    None
}

/// Resolves all bullet-enemy collisions for one frame and returns the
/// number of enemies destroyed. Hit bullets and consumed enemies are
/// removed; surviving entities keep their order.
pub fn handle_collisions(bullets: &mut Vec<Bullet>, enemies: &mut Vec<Enemy>) -> (kills: u64)
    requires
        bullets_in_bounds(old(bullets)@),
        enemies_in_bounds(old(enemies)@),
    ensures
        ({
            let p = collide(bullet_models(old(bullets)@), enemy_models(old(enemies)@));
            &&& bullet_models(final(bullets)@) == mask_filter(bullet_models(old(bullets)@), p.surv)
            &&& enemy_models(final(enemies)@) == mask_filter(enemy_models(old(enemies)@), p.alive)
            &&& kills as int == p.kills
            &&& 0 <= p.kills <= old(bullets)@.len()
            &&& final(bullets)@.len() + p.kills == old(bullets)@.len()
            &&& final(enemies)@.len() + p.kills == old(enemies)@.len()
        }),
        bullets_in_bounds(final(bullets)@),
        enemies_in_bounds(final(enemies)@),
{
    let ghost bs0 = bullet_models(old(bullets)@);
    let ghost es0 = enemy_models(old(enemies)@);
    let ghost p0 = collide(bs0, es0);

    let n_enemies = enemies.len();
    let mut alive: Vec<bool> = Vec::new();
    while alive.len() < n_enemies
        invariant
            bullets@ == old(bullets)@,
            enemies@ == old(enemies)@,
            n_enemies == enemies@.len(),
            alive@.len() <= n_enemies,
            forall|k: int| 0 <= k < alive@.len() ==> alive@[k],
        decreases n_enemies - alive.len(),
    {
        alive.push(true);
    }
    proof {
        assert(alive@ =~= all_true(es0.len()));
    }

    let n_bullets = bullets.len();
    let mut surviving: Vec<Bullet> = Vec::new();
    let mut kills: u64 = 0;
    let ghost mut surv_mask: Seq<bool> = Seq::empty();
    let mut i: usize = 0;
    while i < n_bullets
        invariant
            bullets@ == old(bullets)@,
            enemies@ == old(enemies)@,
            bs0 == bullet_models(bullets@),
            es0 == enemy_models(enemies@),
            p0 == collide(bs0, es0),
            bullets_in_bounds(bullets@),
            enemies_in_bounds(enemies@),
            n_bullets == bullets@.len(),
            n_enemies == enemies@.len(),
            alive@.len() == n_enemies,
            0 <= i <= n_bullets,
            surv_mask.len() == i as int,
            kills as int <= i as int,
            ({
                let rem = run_pass(bs0, es0, alive@, i as int);
                &&& p0.surv == surv_mask + rem.surv
                &&& p0.alive == rem.alive
                &&& p0.kills == kills as int + rem.kills
            }),
            bullet_models(surviving@) == mask_filter(bs0.take(i as int), surv_mask),
            bullets_in_bounds(surviving@),
        decreases n_bullets - i,
    {
        let b = bullets[i];
        let brect = Rect { x: b.pos.x, y: b.pos.y, w: BULLET_W, h: BULLET_H };
        proof {
            assert(brect@ == bullet_rect(bs0[i as int]));
        }
        let ghost alive_pre = alive@;
        let ghost rem_pre = run_pass(bs0, es0, alive_pre, i as int);
        let hit = find_first_hit(brect, enemies, &alive);
        match hit {
            Some(j) => {
                alive.set(j, false);
                kills = kills + 1;
                proof {
                    let mask_pre = surv_mask;
                    let rest = run_pass(bs0, es0, alive_pre.update(j as int, false), i as int + 1);
                    assert(rem_pre == PassOut {
                        surv: seq![false] + rest.surv,
                        alive: rest.alive,
                        kills: 1 + rest.kills,
                    });
                    surv_mask = surv_mask.push(false);
                    assert(p0.surv =~= surv_mask + rest.surv);
                    assert(bs0.take(i as int + 1).drop_last() =~= bs0.take(i as int));
                    assert(surv_mask.drop_last() =~= mask_pre);
                    assert(mask_filter(bs0.take(i as int + 1), surv_mask) == mask_filter(
                        bs0.take(i as int),
                        mask_pre,
                    ));
                }
            },
            None => {
                surviving.push(b);
                proof {
                    let mask_pre = surv_mask;
                    let rest = run_pass(bs0, es0, alive_pre, i as int + 1);
                    assert(rem_pre == PassOut {
                        surv: seq![true] + rest.surv,
                        alive: rest.alive,
                        kills: rest.kills,
                    });
                    surv_mask = surv_mask.push(true);
                    assert(p0.surv =~= surv_mask + rest.surv);
                    assert(bs0.take(i as int + 1).drop_last() =~= bs0.take(i as int));
                    assert(bs0.take(i as int + 1).last() == bs0[i as int]);
                    assert(surv_mask.drop_last() =~= mask_pre);
                    assert(bullet_models(surviving@) =~= mask_filter(
                        bs0.take(i as int),
                        mask_pre,
                    ).push(bs0[i as int]));
                    assert(mask_filter(bs0.take(i as int + 1), surv_mask) == mask_filter(
                        bs0.take(i as int),
                        mask_pre,
                    ).push(bs0.take(i as int + 1).last()));
                }
            },
        }
        i = i + 1;
    }
    proof {
        let rem = run_pass(bs0, es0, alive@, n_bullets as int);
        assert(rem == PassOut { surv: Seq::<bool>::empty(), alive: alive@, kills: 0 });
        assert(p0.surv =~= surv_mask);
        assert(bs0.take(n_bullets as int) =~= bs0);
    }

    let mut remaining: Vec<Enemy> = Vec::new();
    let mut j: usize = 0;
    while j < n_enemies
        invariant
            enemies@ == old(enemies)@,
            enemies_in_bounds(enemies@),
            es0 == enemy_models(enemies@),
            n_enemies == enemies@.len(),
            alive@.len() == n_enemies,
            alive@ == p0.alive,
            0 <= j <= n_enemies,
            enemy_models(remaining@) == mask_filter(es0.take(j as int), alive@.take(j as int)),
            enemies_in_bounds(remaining@),
        decreases n_enemies - j,
    {
        let keep = alive[j];
        if keep {
            remaining.push(enemies[j]);
        }
        proof {
            assert(es0.take(j as int + 1).drop_last() =~= es0.take(j as int));
            assert(alive@.take(j as int + 1).drop_last() =~= alive@.take(j as int));
            assert(es0.take(j as int + 1).last() == es0[j as int]);
            assert(alive@.take(j as int + 1).last() == alive@[j as int]);
            if keep {
                assert(enemy_models(remaining@) =~= mask_filter(
                    es0.take(j as int),
                    alive@.take(j as int),
                ).push(es0[j as int]));
            }
        }
        j = j + 1;
    }
    proof {
        assert(es0.take(n_enemies as int) =~= es0);
        assert(alive@.take(n_enemies as int) =~= alive@);
    }

    *bullets = surviving;
    *enemies = remaining;

    proof {
        lemma_run_pass_props(bs0, es0, all_true(es0.len()), 0);
        lemma_count_true_all(es0.len());
        lemma_mask_filter_len(bs0, p0.surv);
        lemma_mask_filter_len(es0, p0.alive);
    }
    kills
}

} // verus!
