use vstd::prelude::*;
use crate::entities::{Bullet, Enemy, EnemyKind, GameState, kind_health, kind_reward, kind_speed};
use crate::geometry::{Pos, UNIT, WORLD_LIMIT, dist2, moved};
use crate::spawn::{SPAWN_MAX_DISTANCE, SPAWN_PERIOD_US, timer_fires, timer_rest};

verus! {

/// The player stays within this magnitude, so that an enemy spawned near it is in the world.
pub const PLAYER_LIMIT: i64 = WORLD_LIMIT - SPAWN_MAX_DISTANCE * UNIT;

/// Longest frame the simulation advances in one step, in microseconds.
pub const MAX_FRAME_US: u64 = 3_000_000_000;

/// Player speed in world units per second.
pub const PLAYER_SPEED: u64 = 300;

/// Bullet speed in world units per second.
pub const BULLET_SPEED: u64 = 600;

pub const PLAYER_RADIUS: i64 = 10;

pub const ENEMY_RADIUS: i64 = 10;

pub const BULLET_RADIUS: i64 = 5;

/// Bullets farther than this from the origin, in world units, are removed.
pub const BULLET_RANGE: i64 = 5000;

/// Movement keys held during a frame.
#[derive(Clone, Copy, Debug, PartialEq, Eq, Structural)]
pub struct MoveKeys {
    pub up: bool,
    pub down: bool,
    pub left: bool,
    pub right: bool,
}

/// `1` toward the positive key, `-1` toward the negative one, `0` for both or neither.
pub open spec fn key_axis(neg: bool, pos: bool) -> int {
    (if pos { 1int } else { 0int }) - (if neg { 1int } else { 0int })
}

/// Fixed-point distance covered at `speed` units per second in `delta_us` microseconds.
pub open spec fn travel(speed: int, delta_us: int) -> int {
    speed * delta_us / 1000
}

pub open spec fn capped_add(a: int, b: int) -> int {
    if a + b > u64::MAX {
        u64::MAX as int
    } else {
        a + b
    }
}

pub open spec fn origin() -> Pos {
    Pos { x: 0, y: 0 }
}

/// A bullet overlaps an enemy.
pub open spec fn hits(b: Bullet, e: Enemy) -> bool {
    let r = (BULLET_RADIUS + ENEMY_RADIUS) * UNIT;
    dist2(b.pos, e.pos) < r * r
}

/// The player at `p` overlaps an enemy.
pub open spec fn touches(p: Pos, e: Enemy) -> bool {
    let r = (PLAYER_RADIUS + ENEMY_RADIUS) * UNIT;
    dist2(p, e.pos) < r * r
}

pub open spec fn out_of_range(b: Bullet) -> bool {
    let r = BULLET_RANGE * UNIT;
    dist2(b.pos, origin()) > r * r
}

/// Index of the first enemy from `j` on that the bullet overlaps.
pub open spec fn first_hit_from(b: Bullet, es: Seq<Enemy>, j: int) -> Option<int>
    decreases es.len() - j,
{
    if 0 <= j < es.len() {
        if hits(b, es[j]) {
            Some(j)
        } else {
            first_hit_from(b, es, j + 1)
        }
    } else {
        None
    }
}

pub open spec fn enemy_moved(e: Enemy, target: Pos, delta_us: int) -> Enemy {
    Enemy {
        pos: moved(
            e.pos,
            target.x - e.pos.x,
            target.y - e.pos.y,
            travel(kind_speed(e.kind), delta_us),
            WORLD_LIMIT as int,
        ),
        ..e
    }
}

pub open spec fn bullet_moved(b: Bullet, delta_us: int) -> Bullet {
    Bullet {
        pos: moved(
            b.pos,
            b.dx as int,
            b.dy as int,
            travel(BULLET_SPEED as int, delta_us),
            WORLD_LIMIT as int,
        ),
        ..b
    }
}

/// Every bullet moved, those out of range dropped, order kept.
pub open spec fn advance_bullets(bs: Seq<Bullet>, delta_us: int) -> Seq<Bullet>
    decreases bs.len(),
{
    if bs.len() == 0 {
        seq![]
    } else {
        let rest = advance_bullets(bs.drop_last(), delta_us);
        let m = bullet_moved(bs.last(), delta_us);
        if out_of_range(m) {
            rest
        } else {
            rest.push(m)
        }
    }
}

/// What collision resolution has produced so far: bullets kept, enemies, score.
pub struct HitState {
    pub bullets: Seq<Bullet>,
    pub enemies: Seq<Enemy>,
    pub score: int,
}

/// One bullet against the enemies: it is kept if it overlaps none; else it is spent on the
/// first it overlaps, which loses one health and, at zero, is removed and scored.
pub open spec fn bullet_resolved(st: HitState, b: Bullet) -> HitState {
    match first_hit_from(b, st.enemies, 0) {
        None => HitState { bullets: st.bullets.push(b), ..st },
        Some(j) => {
            let e = st.enemies[j];
            if e.health <= 1 {
                HitState {
                    enemies: st.enemies.remove(j),
                    score: capped_add(st.score, kind_reward(e.kind)),
                    ..st
                }
            } else {
                HitState { enemies: st.enemies.update(j, Enemy { health: (e.health - 1) as u8, ..e }), ..st }
            }
        },
    }
}

/// The bullets, in order, resolved against the enemies.
pub open spec fn resolve_hits(bs: Seq<Bullet>, es: Seq<Enemy>, score: int) -> HitState
    decreases bs.len(),
{
    if bs.len() == 0 {
        HitState { bullets: seq![], enemies: es, score }
    } else {
        bullet_resolved(resolve_hits(bs.drop_last(), es, score), bs.last())
    }
}

/// The kind of the enemy that a bullet destroys, if it destroys one.
pub open spec fn bullet_kill(st: HitState, b: Bullet) -> Option<EnemyKind> {
    match first_hit_from(b, st.enemies, 0) {
        Some(j) => if st.enemies[j].health <= 1 {
            Some(st.enemies[j].kind)
        } else {
            None
        },
        None => None,
    }
}

/// The kinds of the enemies destroyed by a resolution pass, in order.
pub open spec fn killed_kinds(bs: Seq<Bullet>, es: Seq<Enemy>, score: int) -> Seq<EnemyKind>
    decreases bs.len(),
{
    if bs.len() == 0 {
        seq![]
    } else {
        let prev = killed_kinds(bs.drop_last(), es, score);
        match bullet_kill(resolve_hits(bs.drop_last(), es, score), bs.last()) {
            Some(k) => prev.push(k),
            None => prev,
        }
    }
}

/// Sum of the kill rewards of the given kinds.
pub open spec fn reward_total(ks: Seq<EnemyKind>) -> int
    decreases ks.len(),
{
    if ks.len() == 0 {
        0
    } else {
        reward_total(ks.drop_last()) + kind_reward(ks.last())
    }
}

/// The state of the game as a mathematical value.
pub struct WorldModel {
    pub state: GameState,
    pub score: int,
    pub score_changed: bool,
    pub player: Option<Pos>,
    pub enemies: Seq<Enemy>,
    pub bullets: Seq<Bullet>,
    pub spawn_elapsed: int,
    pub game_over_message: bool,
}

impl WorldModel {
    /// The game's invariant: a player exactly while playing, nothing left of a round after
    /// it ends, every enemy alive with positive health, every bullet with a direction.
    pub open spec fn wf(self) -> bool {
        &&& (self.player is Some <==> self.state is Playing)
        &&& (self.player matches Some(p) ==> p.within(PLAYER_LIMIT as int))
        &&& (self.state is GameOver ==> self.enemies.len() == 0 && self.bullets.len() == 0)
        &&& forall|j: int| 0 <= j < self.enemies.len() ==> (#[trigger] self.enemies[j]).wf()
        &&& forall|j: int| 0 <= j < self.bullets.len() ==> (#[trigger] self.bullets[j]).wf()
        &&& 0 <= self.spawn_elapsed < SPAWN_PERIOD_US
        &&& 0 <= self.score <= u64::MAX
    }

    /// The state at start-up: a fresh round.
    pub open spec fn initial() -> WorldModel {
        WorldModel {
            state: GameState::Playing,
            score: 0,
            score_changed: true,
            player: Some(origin()),
            enemies: seq![],
            bullets: seq![],
            spawn_elapsed: 0,
            game_over_message: false,
        }
    }

    pub open spec fn player_moved(self, keys: MoveKeys, delta_us: int) -> WorldModel {
        match self.player {
            Some(p) => if self.state is Playing {
                let dx = UNIT * key_axis(keys.left, keys.right);
                let dy = UNIT * key_axis(keys.down, keys.up);
                let s = travel(PLAYER_SPEED as int, delta_us);
                WorldModel { player: Some(moved(p, dx, dy, s, PLAYER_LIMIT as int)), ..self }
            } else {
                self
            },
            None => self,
        }
    }

    /// A shot is fired only while playing, at a point of the world other than the player's.
    pub open spec fn can_fire_at(self, target: Pos) -> bool {
        &&& self.state is Playing
        &&& self.player is Some
        &&& target.in_world()
        &&& target != self.player->Some_0
    }

    pub open spec fn fired(self, target: Pos) -> WorldModel {
        if self.can_fire_at(target) {
            let p = self.player->Some_0;
            let b = Bullet { pos: p, dx: (target.x - p.x) as i64, dy: (target.y - p.y) as i64 };
            WorldModel { bullets: self.bullets.push(b), ..self }
        } else {
            self
        }
    }

    pub open spec fn fired_all(self, targets: Seq<Pos>) -> WorldModel
        decreases targets.len(),
    {
        if targets.len() == 0 {
            self
        } else {
            self.fired_all(targets.drop_last()).fired(targets.last())
        }
    }

    /// The spawn timer advanced while playing; when it completes a period, an enemy of
    /// `kind` appears at offset `(ox, oy)` from the player.
    pub open spec fn spawn_ticked(self, delta_us: int, ox: int, oy: int, kind: EnemyKind) -> WorldModel {
        if self.state is Playing {
            let t = WorldModel { spawn_elapsed: timer_rest(self.spawn_elapsed, delta_us), ..self };
            match self.player {
                Some(p) => if timer_fires(self.spawn_elapsed, delta_us) {
                    let e = Enemy {
                        pos: Pos { x: (p.x + ox) as i64, y: (p.y + oy) as i64 },
                        kind,
                        health: kind_health(kind) as u8,
                    };
                    WorldModel { enemies: t.enemies.push(e), ..t }
                } else {
                    t
                },
                None => t,
            }
        } else {
            self
        }
    }

    pub open spec fn enemies_moved(self, delta_us: int) -> WorldModel {
        match self.player {
            Some(p) => if self.state is Playing {
                WorldModel {
                    enemies: Seq::new(self.enemies.len(), |j: int| enemy_moved(self.enemies[j], p, delta_us)),
                    ..self
                }
            } else {
                self
            },
            None => self,
        }
    }

    pub open spec fn bullets_moved(self, delta_us: int) -> WorldModel {
        WorldModel { bullets: advance_bullets(self.bullets, delta_us), ..self }
    }

    pub open spec fn hits_resolved(self) -> WorldModel {
        let r = resolve_hits(self.bullets, self.enemies, self.score);
        WorldModel {
            bullets: r.bullets,
            enemies: r.enemies,
            score: r.score,
            score_changed: self.score_changed || r.score != self.score,
            ..self
        }
    }

    pub open spec fn player_touched(self) -> bool {
        match self.player {
            Some(p) => exists|j: int| 0 <= j < self.enemies.len() && touches(p, #[trigger] self.enemies[j]),
            None => false,
        }
    }

    /// The round ends: everything of it is removed and the message shown.
    pub open spec fn game_over_entered(self) -> WorldModel {
        WorldModel {
            state: GameState::GameOver,
            player: None,
            enemies: seq![],
            bullets: seq![],
            game_over_message: true,
            ..self
        }
    }

    /// A round starts: score back to zero, message gone, a player at the origin.
    pub open spec fn playing_entered(self) -> WorldModel {
        WorldModel {
            state: GameState::Playing,
            score: 0,
            score_changed: true,
            player: Some(origin()),
            game_over_message: false,
            ..self
        }
    }

    /// A touch ends a round; in game over, a restart starts one.
    pub open spec fn transitioned(self, restart: bool) -> WorldModel {
        if self.state is Playing && self.player_touched() {
            self.game_over_entered()
        } else if self.state is GameOver && restart {
            self.playing_entered()
        } else {
            self
        }
    }

    /// One frame: player movement, shots, spawning, enemy and bullet movement, collisions,
    /// then the state transition.
    pub open spec fn frame(
        self,
        delta_us: int,
        keys: MoveKeys,
        restart: bool,
        shots: Seq<Pos>,
        ox: int,
        oy: int,
        kind: EnemyKind,
    ) -> WorldModel {
        self.player_moved(keys, delta_us)
            .fired_all(shots)
            .spawn_ticked(delta_us, ox, oy, kind)
            .enemies_moved(delta_us)
            .bullets_moved(delta_us)
            .hits_resolved()
            .transitioned(restart)
    }
}

} // verus!
