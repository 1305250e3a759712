use vstd::prelude::*;
use crate::entities::{Bullet, Enemy, EnemyKind, kind_health, kind_reward};
use crate::geometry::{Pos, UNIT, WORLD_LIMIT, dist2, moved};
use crate::model::{
    BULLET_RANGE, BULLET_SPEED, HitState, PLAYER_LIMIT, PLAYER_SPEED, bullet_kill, key_axis,
    killed_kinds, reward_total, MoveKeys, WorldModel, advance_bullets, bullet_moved, bullet_resolved,
    first_hit_from, hits, origin, out_of_range, resolve_hits, travel,
};
use crate::spawn::{in_spawn_ring, lemma_ring_offset_bounded, timer_fires};

verus! {

/// The first enemy a bullet overlaps lies in the sequence and is overlapped.
pub proof fn lemma_first_hit_bounds(b: Bullet, es: Seq<Enemy>, j: int)
    ensures
        first_hit_from(b, es, j) matches Some(k) ==> j <= k < es.len() && 0 <= k && hits(b, es[k]),
    decreases es.len() - j,
{
    if 0 <= j < es.len() && !hits(b, es[j]) {
        lemma_first_hit_bounds(b, es, j + 1);
    }
}

/// Movement never leaves the bounds it is held to.
pub proof fn lemma_moved_within(p: Pos, dx: int, dy: int, s: int, lim: int)
    requires
        p.within(lim),
        0 <= lim <= WORLD_LIMIT,
    ensures
        moved(p, dx, dy, s, lim).within(lim),
{
}

/// With no movement key held, the player stays where it is.
pub proof fn lemma_no_keys_no_move(m: WorldModel, delta_us: int)
    ensures
        m.player_moved(MoveKeys { up: false, down: false, left: false, right: false }, delta_us) == m,
{
}

/// A bullet destroys at most one enemy: resolving it removes at most one enemy, and the
/// bullet is either kept, when it overlaps none, or spent.
pub proof fn lemma_one_kill_per_bullet(st: HitState, b: Bullet)
    ensures
        st.enemies.len() - 1 <= bullet_resolved(st, b).enemies.len() <= st.enemies.len(),
        first_hit_from(b, st.enemies, 0) is None ==> bullet_resolved(st, b).bullets == st.bullets.push(b)
            && bullet_resolved(st, b).enemies == st.enemies,
        first_hit_from(b, st.enemies, 0) is Some ==> bullet_resolved(st, b).bullets == st.bullets,
{
    lemma_first_hit_bounds(b, st.enemies, 0);
}

/// An enemy whose health runs out is removed by the same bullet's resolution; every enemy
/// left keeps a health of at least one.
pub proof fn lemma_spent_enemy_removed(st: HitState, b: Bullet)
    requires
        forall|j: int| 0 <= j < st.enemies.len() ==> (#[trigger] st.enemies[j]).health >= 1,
    ensures
        first_hit_from(b, st.enemies, 0) matches Some(j) ==> (st.enemies[j].health <= 1
            ==> bullet_resolved(st, b).enemies == st.enemies.remove(j)),
        forall|j: int|
            0 <= j < bullet_resolved(st, b).enemies.len() ==> (#[trigger] bullet_resolved(
                st,
                b,
            ).enemies[j]).health >= 1,
{
    lemma_first_hit_bounds(b, st.enemies, 0);
}

/// The score never falls, and rises only when an enemy is destroyed, by exactly that enemy's
/// kill reward.
pub proof fn lemma_score_by_reward(st: HitState, b: Bullet)
    requires
        0 <= st.score,
        st.score + 5 <= u64::MAX,
    ensures
        bullet_resolved(st, b).score >= st.score,
        bullet_resolved(st, b).enemies.len() == st.enemies.len() ==> bullet_resolved(st, b).score
            == st.score,
        bullet_resolved(st, b).enemies.len() < st.enemies.len() ==> exists|j: int|
            0 <= j < st.enemies.len() && bullet_resolved(st, b).enemies == st.enemies.remove(j)
                && #[trigger] bullet_resolved(st, b).score == st.score + kind_reward(st.enemies[j].kind),
{
    lemma_first_hit_bounds(b, st.enemies, 0);
}

/// Over a whole resolution pass the score rises by exactly the sum of the kill rewards of the
/// enemies destroyed; one enemy leaves per enemy destroyed, and at most one per bullet.
pub proof fn lemma_pass_score_is_reward_sum(bs: Seq<Bullet>, es: Seq<Enemy>, score: int)
    requires
        0 <= score,
        score + 5 * bs.len() <= u64::MAX,
    ensures
        resolve_hits(bs, es, score).score == score + reward_total(killed_kinds(bs, es, score)),
        resolve_hits(bs, es, score).enemies.len() + killed_kinds(bs, es, score).len() == es.len(),
        killed_kinds(bs, es, score).len() <= bs.len(),
        0 <= reward_total(killed_kinds(bs, es, score)) <= 5 * killed_kinds(bs, es, score).len(),
    decreases bs.len(),
{
    if bs.len() > 0 {
        let init = bs.drop_last();
        lemma_pass_score_is_reward_sum(init, es, score);
        let st = resolve_hits(init, es, score);
        lemma_first_hit_bounds(bs.last(), st.enemies, 0);
        let prev = killed_kinds(init, es, score);
        if let Some(k) = bullet_kill(st, bs.last()) {
            let ks = killed_kinds(bs, es, score);
            assert(ks == prev.push(k));
            assert(ks.drop_last() =~= prev);
        }
    }
}

/// No enemy left by a resolution pass has run out of health: an enemy whose health reaches
/// zero is removed in the same pass.
pub proof fn lemma_pass_leaves_no_spent_enemy(bs: Seq<Bullet>, es: Seq<Enemy>, score: int)
    requires
        forall|j: int| 0 <= j < es.len() ==> (#[trigger] es[j]).health >= 1,
    ensures
        forall|j: int|
            0 <= j < resolve_hits(bs, es, score).enemies.len() ==> (#[trigger] resolve_hits(
                bs,
                es,
                score,
            ).enemies[j]).health >= 1,
    decreases bs.len(),
{
    if bs.len() > 0 {
        lemma_pass_leaves_no_spent_enemy(bs.drop_last(), es, score);
        lemma_spent_enemy_removed(resolve_hits(bs.drop_last(), es, score), bs.last());
    }
}

/// Over a whole resolution pass the score never falls.
pub proof fn lemma_resolve_score_never_falls(bs: Seq<Bullet>, es: Seq<Enemy>, score: int)
    requires
        0 <= score <= u64::MAX,
    ensures
        score <= resolve_hits(bs, es, score).score <= u64::MAX,
    decreases bs.len(),
{
    if bs.len() > 0 {
        lemma_resolve_score_never_falls(bs.drop_last(), es, score);
        lemma_first_hit_bounds(bs.last(), resolve_hits(bs.drop_last(), es, score).enemies, 0);
    }
}

/// A resolution pass keeps every enemy in the world with a health of at least one, and every
/// bullet left well formed.
pub proof fn lemma_resolve_keeps_wf(bs: Seq<Bullet>, es: Seq<Enemy>, score: int)
    requires
        forall|j: int| 0 <= j < bs.len() ==> (#[trigger] bs[j]).wf(),
        forall|j: int| 0 <= j < es.len() ==> (#[trigger] es[j]).wf(),
    ensures
        forall|j: int|
            0 <= j < resolve_hits(bs, es, score).bullets.len() ==> (#[trigger] resolve_hits(
                bs,
                es,
                score,
            ).bullets[j]).wf(),
        forall|j: int|
            0 <= j < resolve_hits(bs, es, score).enemies.len() ==> (#[trigger] resolve_hits(
                bs,
                es,
                score,
            ).enemies[j]).wf(),
    decreases bs.len(),
{
    if bs.len() > 0 {
        let init = bs.drop_last();
        assert forall|j: int| 0 <= j < init.len() implies (#[trigger] init[j]).wf() by {
            assert(init[j] == bs[j]);
        }
        lemma_resolve_keeps_wf(init, es, score);
        let st = resolve_hits(init, es, score);
        assert(bs.last() == bs[bs.len() - 1]);
        lemma_first_hit_bounds(bs.last(), st.enemies, 0);
    }
}

/// Every bullet left after movement is within range of the origin, and none left is out of
/// the world or without a direction.
pub proof fn lemma_bullets_within_range(bs: Seq<Bullet>, delta_us: int)
    requires
        forall|j: int| 0 <= j < bs.len() ==> (#[trigger] bs[j]).wf(),
    ensures
        forall|j: int|
            0 <= j < advance_bullets(bs, delta_us).len() ==> dist2(
                #[trigger] advance_bullets(bs, delta_us)[j].pos,
                origin(),
            ) <= (BULLET_RANGE * UNIT) * (BULLET_RANGE * UNIT),
        forall|j: int|
            0 <= j < advance_bullets(bs, delta_us).len() ==> (#[trigger] advance_bullets(
                bs,
                delta_us,
            )[j]).wf(),
    decreases bs.len(),
{
    if bs.len() > 0 {
        let init = bs.drop_last();
        assert forall|j: int| 0 <= j < init.len() implies (#[trigger] init[j]).wf() by {
            assert(init[j] == bs[j]);
        }
        lemma_bullets_within_range(init, delta_us);
        assert(bs.last() == bs[bs.len() - 1]);
        let b = bs.last();
        let m = bullet_moved(b, delta_us);
        lemma_moved_within(
            b.pos,
            b.dx as int,
            b.dy as int,
            travel(BULLET_SPEED as int, delta_us),
            WORLD_LIMIT as int,
        );
        let rest = advance_bullets(init, delta_us);
        let r = advance_bullets(bs, delta_us);
        if !out_of_range(m) {
            assert(r == rest.push(m));
            assert forall|j: int| 0 <= j < r.len() implies #[trigger] r[j].wf() && dist2(r[j].pos, origin())
                <= (BULLET_RANGE * UNIT) * (BULLET_RANGE * UNIT) by {
                if j < rest.len() {
                    assert(r[j] == rest[j]);
                } else {
                    assert(r[j] == m);
                }
            }
        }
    }
}

/// A touch between player and enemy ends the round with nothing of it left: no player, no
/// enemy, no bullet.
pub proof fn lemma_game_over_clears(m: WorldModel, restart: bool)
    requires
        m.state is Playing,
        m.player_touched(),
    ensures
        m.transitioned(restart).state is GameOver,
        m.transitioned(restart).player is None,
        m.transitioned(restart).enemies.len() == 0,
        m.transitioned(restart).bullets.len() == 0,
        m.transitioned(restart).game_over_message,
{
}

/// A restart from game over sets the score to zero and puts exactly one player at the
/// origin, in a world without enemies or bullets.
pub proof fn lemma_restart_resets(m: WorldModel)
    requires
        m.wf(),
        m.state is GameOver,
    ensures
        m.transitioned(true).state is Playing,
        m.transitioned(true).score == 0,
        m.transitioned(true).player == Some(origin()),
        m.transitioned(true).enemies.len() == 0,
        m.transitioned(true).bullets.len() == 0,
        !m.transitioned(true).game_over_message,
{
}

/// An enemy spawned at an offset in the spawn ring appears at exactly that offset from the
/// player, so its distance from the player lies in the ring.
pub proof fn lemma_spawn_distance(m: WorldModel, delta_us: int, ox: int, oy: int, kind: EnemyKind)
    requires
        m.wf(),
        m.state is Playing,
        timer_fires(m.spawn_elapsed, delta_us),
        in_spawn_ring(ox, oy),
    ensures
        m.spawn_ticked(delta_us, ox, oy, kind).enemies.len() == m.enemies.len() + 1,
        m.spawn_ticked(delta_us, ox, oy, kind).enemies.last().kind == kind,
        m.spawn_ticked(delta_us, ox, oy, kind).enemies.last().health == kind_health(kind),
        m.spawn_ticked(delta_us, ox, oy, kind).enemies.last().pos.x - m.player->Some_0.x == ox,
        m.spawn_ticked(delta_us, ox, oy, kind).enemies.last().pos.y - m.player->Some_0.y == oy,
        in_spawn_ring(
            m.spawn_ticked(delta_us, ox, oy, kind).enemies.last().pos.x - m.player->Some_0.x,
            m.spawn_ticked(delta_us, ox, oy, kind).enemies.last().pos.y - m.player->Some_0.y,
        ),
{
    lemma_ring_offset_bounded(ox, oy);
}

/// The game's invariant holds after every frame: in particular a player exists exactly while
/// playing, and every enemy has positive health.
pub proof fn lemma_frame_keeps_wf(
    m: WorldModel,
    delta_us: int,
    keys: MoveKeys,
    restart: bool,
    shots: Seq<Pos>,
    ox: int,
    oy: int,
    kind: EnemyKind,
)
    requires
        m.wf(),
        0 <= delta_us,
        in_spawn_ring(ox, oy),
    ensures
        m.frame(delta_us, keys, restart, shots, ox, oy, kind).wf(),
{
    lemma_ring_offset_bounded(ox, oy);
    if let Some(p) = m.player {
        let dx = UNIT * key_axis(keys.left, keys.right);
        let dy = UNIT * key_axis(keys.down, keys.up);
        lemma_moved_within(p, dx, dy, travel(PLAYER_SPEED as int, delta_us), PLAYER_LIMIT as int);
    }
    let m1 = m.player_moved(keys, delta_us);
    let m2 = m1.fired_all(shots);
    lemma_fired_all_keeps_wf(m1, shots);
    let m3 = m2.spawn_ticked(delta_us, ox, oy, kind);
    assert(m3.wf()) by {
        if m2.state is Playing && m2.player is Some && timer_fires(m2.spawn_elapsed, delta_us) {
            assert forall|j: int| 0 <= j < m3.enemies.len() implies (#[trigger] m3.enemies[j]).wf() by {
                if j < m2.enemies.len() {
                    assert(m3.enemies[j] == m2.enemies[j]);
                }
            }
        }
    }
    let m4 = m3.enemies_moved(delta_us);
    assert(m4.wf()) by {
        if m3.state is Playing {
            assert forall|j: int| 0 <= j < m4.enemies.len() implies (#[trigger] m4.enemies[j]).wf() by {
                assert(m3.enemies[j].wf());
            }
        }
    }
    let m5 = m4.bullets_moved(delta_us);
    lemma_bullets_within_range(m4.bullets, delta_us);
    assert(m5.wf()) by {
        if m4.state is GameOver {
            assert(m4.bullets.len() == 0);
        }
    }
    let m6 = m5.hits_resolved();
    lemma_resolve_keeps_wf(m5.bullets, m5.enemies, m5.score);
    lemma_resolve_score_never_falls(m5.bullets, m5.enemies, m5.score);
    assert(m6.wf()) by {
        if m5.state is GameOver {
            assert(m5.bullets.len() == 0);
            assert(resolve_hits(m5.bullets, m5.enemies, m5.score).enemies == m5.enemies);
            assert(resolve_hits(m5.bullets, m5.enemies, m5.score).bullets.len() == 0);
        }
    }
    let m7 = m6.transitioned(restart);
    assert(m7.wf()) by {
        if m6.state is Playing && m6.player_touched() {
            assert(m7.enemies =~= seq![]);
        }
    }
}

proof fn lemma_fired_all_keeps_wf(m: WorldModel, targets: Seq<Pos>)
    requires
        m.wf(),
    ensures
        m.fired_all(targets).wf(),
        m.fired_all(targets).state == m.state,
        m.fired_all(targets).player == m.player,
        m.fired_all(targets).enemies == m.enemies,
        m.fired_all(targets).spawn_elapsed == m.spawn_elapsed,
        m.fired_all(targets).score == m.score,
    decreases targets.len(),
{
    if targets.len() > 0 {
        lemma_fired_all_keeps_wf(m, targets.drop_last());
        let prev = m.fired_all(targets.drop_last());
        let t = targets.last();
        if prev.can_fire_at(t) {
            let next = prev.fired(t);
            assert forall|j: int| 0 <= j < next.bullets.len() implies (#[trigger] next.bullets[j]).wf() by {
                if j < prev.bullets.len() {
                    assert(next.bullets[j] == prev.bullets[j]);
                }
            }
        }
    }
}

} // verus!
