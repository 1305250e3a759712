use vstd::prelude::*;
use crate::entities::{Bullet, Enemy, EnemyKind, GameState};
use crate::geometry::{MAX_TRAVEL, Pos, UNIT, WORLD_LIMIT, distance_squared, move_along};
use crate::model::{
    BULLET_RADIUS, BULLET_RANGE, BULLET_SPEED, ENEMY_RADIUS, HitState, MAX_FRAME_US, MoveKeys,
    PLAYER_LIMIT, PLAYER_RADIUS, PLAYER_SPEED, WorldModel, advance_bullets, bullet_moved, enemy_moved, first_hit_from, key_axis,
    resolve_hits, touches, travel,
};
use crate::spawn::{in_spawn_ring, lemma_ring_offset_bounded, random_kind, tick_spawn_timer};

verus! {

/// Fixed-point distance covered at `speed` units per second in `delta_us` microseconds.
pub fn travel_distance(speed: u64, delta_us: u64) -> (r: u128)
    requires
        speed <= BULLET_SPEED,
        delta_us <= MAX_FRAME_US,
    ensures
        r == travel(speed as int, delta_us as int),
        r <= MAX_TRAVEL,
{
    assert(speed * delta_us <= 600 * MAX_FRAME_US) by (nonlinear_arith)
        requires
            0 <= speed <= 600,
            0 <= delta_us <= MAX_FRAME_US,
    ;
    let p: u128 = speed as u128 * delta_us as u128;
    p / 1000
}

fn axis(neg: bool, pos: bool) -> (r: i128)
    ensures
        r == UNIT * key_axis(neg, pos),
{
    let mut v: i128 = 0;
    if pos {
        v = v + UNIT as i128;
    }
    if neg {
        v = v - UNIT as i128;
    }
    v
}

/// Index of the first enemy that the bullet overlaps.
pub fn first_hit(b: &Bullet, es: &Vec<Enemy>) -> (r: Option<usize>)
    requires
        b.wf(),
        forall|j: int| 0 <= j < es@.len() ==> (#[trigger] es@[j]).wf(),
    ensures
        match r {
            Some(j) => first_hit_from(*b, es@, 0) == Some(j as int),
            None => first_hit_from(*b, es@, 0) is None,
        },
        r matches Some(j) ==> j < es@.len(),
{
    let reach: i128 = (BULLET_RADIUS + ENEMY_RADIUS) as i128 * UNIT as i128;
    let reach2: i128 = reach * reach;
    let mut j: usize = 0;
    while j < es.len()
        invariant
            0 <= j <= es@.len(),
            b.wf(),
            forall|k: int| 0 <= k < es@.len() ==> (#[trigger] es@[k]).wf(),
            reach2 == ((BULLET_RADIUS + ENEMY_RADIUS) * UNIT) * ((BULLET_RADIUS + ENEMY_RADIUS) * UNIT),
            first_hit_from(*b, es@, 0) == first_hit_from(*b, es@, j as int),
        decreases es@.len() - j,
    {
        assert(es@[j as int].wf());
        if distance_squared(b.pos, es[j].pos) < reach2 {
            return Some(j);
        }
        j = j + 1;
    }
    None
}

/// What the input side hands over for one frame.
pub struct FrameInput {
    /// Time since the previous frame, in microseconds.
    pub delta_us: u64,
    pub keys: MoveKeys,
    /// The restart key was pressed this frame.
    pub restart: bool,
    /// World positions aimed at by this frame's fire presses, in order.
    pub shots: Vec<Pos>,
}

/// The whole simulation: game state, score, and every live entity.
pub struct World {
    pub state: GameState,
    pub score: u64,
    /// Set when the score changes, cleared when it is read for display.
    pub score_changed: bool,
    pub player: Option<Pos>,
    pub enemies: Vec<Enemy>,
    pub bullets: Vec<Bullet>,
    /// Microseconds elapsed in the spawn timer's current period.
    pub spawn_elapsed_us: u64,
    pub game_over_message: bool,
}

impl View for World {
    type V = WorldModel;

    open spec fn view(&self) -> WorldModel {
        WorldModel {
            state: self.state,
            score: self.score as int,
            score_changed: self.score_changed,
            player: self.player,
            enemies: self.enemies@,
            bullets: self.bullets@,
            spawn_elapsed: self.spawn_elapsed_us as int,
            game_over_message: self.game_over_message,
        }
    }
}

impl World {
    /// A world at start-up: playing, score zero, the player at the origin.
    pub fn new() -> (r: World)
        ensures
            r@ == WorldModel::initial(),
            r@.wf(),
    {
        let r = World {
            state: GameState::Playing,
            score: 0,
            score_changed: true,
            player: Some(Pos::origin()),
            enemies: Vec::new(),
            bullets: Vec::new(),
            spawn_elapsed_us: 0,
            game_over_message: false,
        };
        assert(r@.enemies =~= seq![]);
        assert(r@.bullets =~= seq![]);
        r
    }

    /// Moves the player by the held keys; no keys, no movement.
    pub fn move_player(&mut self, keys: MoveKeys, delta_us: u64)
        requires
            old(self)@.wf(),
            delta_us <= MAX_FRAME_US,
        ensures
            final(self)@ == old(self)@.player_moved(keys, delta_us as int),
            final(self)@.wf(),
    {
        if let Some(p) = self.player {
            if self.state == GameState::Playing {
                let dx: i128 = axis(keys.left, keys.right);
                let dy: i128 = axis(keys.down, keys.up);
                let s: u128 = travel_distance(PLAYER_SPEED, delta_us);
                self.player = Some(move_along(p, dx, dy, s, PLAYER_LIMIT));
            }
        }
    }

    /// Fires a bullet from the player toward `target`, if a shot can be fired there.
    pub fn fire(&mut self, target: Pos)
        requires
            old(self)@.wf(),
        ensures
            final(self)@ == old(self)@.fired(target),
            final(self)@.wf(),
    {
        if self.state == GameState::Playing {
            if let Some(p) = self.player {
                if -WORLD_LIMIT <= target.x && target.x <= WORLD_LIMIT && -WORLD_LIMIT <= target.y
                    && target.y <= WORLD_LIMIT && target != p {
                    let b = Bullet { pos: p, dx: target.x - p.x, dy: target.y - p.y };
                    self.bullets.push(b);
                }
            }
        }
    }

    /// Fires at each target in turn.
    pub fn fire_all(&mut self, targets: &Vec<Pos>)
        requires
            old(self)@.wf(),
        ensures
            final(self)@ == old(self)@.fired_all(targets@),
            final(self)@.wf(),
    {
        let ghost start = self@;
        let mut i: usize = 0;
        while i < targets.len()
            invariant
                0 <= i <= targets@.len(),
                self@.wf(),
                self@ == start.fired_all(targets@.subrange(0, i as int)),
            decreases targets@.len() - i,
        {
            proof {
                let next = targets@.subrange(0, i + 1);
                assert(next.drop_last() =~= targets@.subrange(0, i as int));
                assert(next.last() == targets@[i as int]);
            }
            self.fire(targets[i]);
            i = i + 1;
        }
        assert(targets@.subrange(0, i as int) =~= targets@);
    }

    /// Advances the spawn timer while playing and, when it completes a period, adds an enemy
    /// of `kind` at offset `(ox, oy)` from the player, which lies in the spawn ring.
    pub fn tick_spawner(&mut self, delta_us: u64, ox: i64, oy: i64, kind: EnemyKind)
        requires
            old(self)@.wf(),
            in_spawn_ring(ox as int, oy as int),
        ensures
            final(self)@ == old(self)@.spawn_ticked(delta_us as int, ox as int, oy as int, kind),
            final(self)@.wf(),
    {
        if self.state == GameState::Playing {
            let (rest, fired) = tick_spawn_timer(self.spawn_elapsed_us, delta_us);
            self.spawn_elapsed_us = rest;
            if let Some(p) = self.player {
                if fired {
                    proof {
                        lemma_ring_offset_bounded(ox as int, oy as int);
                    }
                    let e = Enemy {
                        pos: Pos { x: p.x + ox, y: p.y + oy },
                        kind,
                        health: kind.initial_health(),
                    };
                    self.enemies.push(e);
                }
            }
        }
    }

    /// Moves every enemy toward the player at its kind's speed, while playing.
    pub fn move_enemies(&mut self, delta_us: u64)
        requires
            old(self)@.wf(),
            delta_us <= MAX_FRAME_US,
        ensures
            final(self)@ == old(self)@.enemies_moved(delta_us as int),
            final(self)@.wf(),
    {
        if self.state != GameState::Playing {
            return;
        }
        let p = match self.player {
            Some(p) => p,
            None => {
                return;
            },
        };
        let mut moved_enemies: Vec<Enemy> = Vec::new();
        let mut i: usize = 0;
        while i < self.enemies.len()
            invariant
                self@.wf(),
                self.player == Some(p),
                delta_us <= MAX_FRAME_US,
                0 <= i <= self.enemies@.len(),
                moved_enemies@.len() == i,
                forall|j: int|
                    0 <= j < i ==> #[trigger] moved_enemies@[j] == enemy_moved(
                        self.enemies@[j],
                        p,
                        delta_us as int,
                    ),
                forall|j: int| 0 <= j < i ==> (#[trigger] moved_enemies@[j]).wf(),
            decreases self.enemies@.len() - i,
        {
            let e = self.enemies[i];
            assert(self@.enemies[i as int].wf());
            let s: u128 = travel_distance(e.kind.speed(), delta_us);
            let dx: i128 = p.x as i128 - e.pos.x as i128;
            let dy: i128 = p.y as i128 - e.pos.y as i128;
            let pos = move_along(e.pos, dx, dy, s, WORLD_LIMIT);
            moved_enemies.push(Enemy { pos, ..e });
            i = i + 1;
        }
        let ghost expected = Seq::new(self.enemies@.len(), |j: int| enemy_moved(self.enemies@[j], p, delta_us as int));
        assert(moved_enemies@ =~= expected);
        self.enemies = moved_enemies;
    }

    /// Moves every bullet along its direction and drops those beyond range of the origin.
    pub fn move_bullets(&mut self, delta_us: u64)
        requires
            old(self)@.wf(),
            delta_us <= MAX_FRAME_US,
        ensures
            final(self)@ == old(self)@.bullets_moved(delta_us as int),
            final(self)@.wf(),
    {
        let s: u128 = travel_distance(BULLET_SPEED, delta_us);
        let range: i128 = BULLET_RANGE as i128 * UNIT as i128;
        let range2: i128 = range * range;
        let mut kept: Vec<Bullet> = Vec::new();
        let mut i: usize = 0;
        while i < self.bullets.len()
            invariant
                self@.wf(),
                0 <= i <= self.bullets@.len(),
                s == travel(BULLET_SPEED as int, delta_us as int),
                s <= MAX_TRAVEL,
                range2 == (BULLET_RANGE * UNIT) * (BULLET_RANGE * UNIT),
                kept@ == advance_bullets(self.bullets@.subrange(0, i as int), delta_us as int),
                forall|j: int| 0 <= j < kept@.len() ==> (#[trigger] kept@[j]).wf(),
                self.state is GameOver ==> kept@.len() == 0,
            decreases self.bullets@.len() - i,
        {
            let b = self.bullets[i];
            assert(self@.bullets[i as int].wf());
            let pos = move_along(b.pos, b.dx as i128, b.dy as i128, s, WORLD_LIMIT);
            let m = Bullet { pos, ..b };
            proof {
                let next = self.bullets@.subrange(0, i + 1);
                assert(next.drop_last() =~= self.bullets@.subrange(0, i as int));
                assert(next.last() == self.bullets@[i as int]);
                assert(m == bullet_moved(b, delta_us as int));
            }
            let d = distance_squared(pos, Pos::origin());
            if !(d > range2) {
                kept.push(m);
            }
            i = i + 1;
        }
        assert(self.bullets@.subrange(0, i as int) =~= self.bullets@);
        self.bullets = kept;
    }

    /// Resolves every bullet, in order, against the enemies: a bullet that overlaps one is
    /// spent on the first, which loses one health and at zero is removed and scored.
    pub fn resolve_bullet_hits(&mut self)
        requires
            old(self)@.wf(),
        ensures
            final(self)@ == old(self)@.hits_resolved(),
            final(self)@.wf(),
    {
        let ghost start = self@;
        let start_score: u64 = self.score;
        let mut kept: Vec<Bullet> = Vec::new();
        let mut i: usize = 0;
        while i < self.bullets.len()
            invariant
                start.wf(),
                0 <= i <= self.bullets@.len(),
                self.bullets@ == start.bullets,
                self.state == start.state,
                self.player == start.player,
                self.score_changed == start.score_changed,
                self.spawn_elapsed_us == start.spawn_elapsed,
                self.game_over_message == start.game_over_message,
                start_score == start.score,
                resolve_hits(start.bullets.subrange(0, i as int), start.enemies, start.score) == (
                HitState { bullets: kept@, enemies: self.enemies@, score: self.score as int }),
                forall|j: int| 0 <= j < kept@.len() ==> (#[trigger] kept@[j]).wf(),
                forall|j: int| 0 <= j < self.enemies@.len() ==> (#[trigger] self.enemies@[j]).wf(),
            decreases self.bullets@.len() - i,
        {
            let b = self.bullets[i];
            assert(start.bullets[i as int].wf());
            proof {
                let next = start.bullets.subrange(0, i + 1);
                assert(next.drop_last() =~= start.bullets.subrange(0, i as int));
                assert(next.last() == start.bullets[i as int]);
            }
            match first_hit(&b, &self.enemies) {
                None => {
                    kept.push(b);
                },
                Some(j) => {
                    let e = self.enemies[j];
                    if e.health <= 1 {
                        self.enemies.remove(j);
                        self.score = self.score.saturating_add(e.kind.kill_reward());
                    } else {
                        self.enemies[j] = Enemy { health: e.health - 1, ..e };
                    }
                },
            }
            i = i + 1;
        }
        assert(start.bullets.subrange(0, i as int) =~= start.bullets);
        self.score_changed = self.score_changed || self.score != start_score;
        self.bullets = kept;
    }

    /// Whether the player overlaps any enemy.
    pub fn player_touched(&self) -> (r: bool)
        requires
            self@.wf(),
        ensures
            r == self@.player_touched(),
    {
        let p = match self.player {
            Some(p) => p,
            None => {
                return false;
            },
        };
        let reach: i128 = (PLAYER_RADIUS + ENEMY_RADIUS) as i128 * UNIT as i128;
        let reach2: i128 = reach * reach;
        let mut j: usize = 0;
        while j < self.enemies.len()
            invariant
                self@.wf(),
                self.player == Some(p),
                0 <= j <= self.enemies@.len(),
                reach2 == ((PLAYER_RADIUS + ENEMY_RADIUS) * UNIT) * ((PLAYER_RADIUS + ENEMY_RADIUS) * UNIT),
                forall|k: int| 0 <= k < j ==> !touches(p, #[trigger] self.enemies@[k]),
            decreases self.enemies@.len() - j,
        {
            assert(self@.enemies[j as int].wf());
            if distance_squared(p, self.enemies[j].pos) < reach2 {
                assert(touches(p, self@.enemies[j as int]));
                return true;
            }
            j = j + 1;
        }
        false
    }

    /// Ends the round: removes the player, every enemy and every bullet, and shows the
    /// game-over message.
    pub fn enter_game_over(&mut self)
        requires
            old(self)@.wf(),
        ensures
            final(self)@ == old(self)@.game_over_entered(),
            final(self)@.wf(),
    {
        self.state = GameState::GameOver;
        self.player = None;
        self.enemies = Vec::new();
        self.bullets = Vec::new();
        self.game_over_message = true;
        assert(self@.enemies =~= seq![]);
        assert(self@.bullets =~= seq![]);
    }

    /// Starts a round from game over: score to zero, message removed, a player at the origin.
    pub fn enter_playing(&mut self)
        requires
            old(self)@.wf(),
            old(self).state == GameState::GameOver,
        ensures
            final(self)@ == old(self)@.playing_entered(),
            final(self)@.wf(),
    {
        self.state = GameState::Playing;
        self.score = 0;
        self.score_changed = true;
        self.player = Some(Pos::origin());
        self.game_over_message = false;
    }

    /// A touch between player and enemy ends the round; in game over, `restart` starts one.
    pub fn apply_transitions(&mut self, restart: bool)
        requires
            old(self)@.wf(),
        ensures
            final(self)@ == old(self)@.transitioned(restart),
            final(self)@.wf(),
    {
        if self.state == GameState::Playing && self.player_touched() {
            self.enter_game_over();
        } else if self.state == GameState::GameOver && restart {
            self.enter_playing();
        }
    }

    /// The score, if it changed since it was last taken; taking it clears the change.
    pub fn take_score_update(&mut self) -> (r: Option<u64>)
        ensures
            r == (if old(self).score_changed { Some(old(self).score) } else { None::<u64> }),
            final(self)@ == (WorldModel { score_changed: false, ..old(self)@ }),
    {
        if self.score_changed {
            self.score_changed = false;
            Some(self.score)
        } else {
            None
        }
    }

    /// Runs one frame; an enemy spawned in it has kind `kind` and appears at offset
    /// `(ox, oy)` from the player.
    pub fn step_with_kind(&mut self, input: &FrameInput, ox: i64, oy: i64, kind: EnemyKind)
        requires
            old(self)@.wf(),
            input.delta_us <= MAX_FRAME_US,
            in_spawn_ring(ox as int, oy as int),
        ensures
            final(self)@ == old(self)@.frame(
                input.delta_us as int,
                input.keys,
                input.restart,
                input.shots@,
                ox as int,
                oy as int,
                kind,
            ),
            final(self)@.wf(),
    {
        self.move_player(input.keys, input.delta_us);
        self.fire_all(&input.shots);
        self.tick_spawner(input.delta_us, ox, oy, kind);
        self.move_enemies(input.delta_us);
        self.move_bullets(input.delta_us);
        self.resolve_bullet_hits();
        self.apply_transitions(input.restart);
    }

    /// Runs one frame; an enemy spawned in it appears at offset `(ox, oy)` from the player,
    /// of a kind drawn at random.
    pub fn step(&mut self, input: &FrameInput, ox: i64, oy: i64)
        requires
            old(self)@.wf(),
            input.delta_us <= MAX_FRAME_US,
            in_spawn_ring(ox as int, oy as int),
        ensures
            exists|kind: EnemyKind|
                final(self)@ == #[trigger] old(self)@.frame(
                    input.delta_us as int,
                    input.keys,
                    input.restart,
                    input.shots@,
                    ox as int,
                    oy as int,
                    kind,
                ),
            final(self)@.wf(),
    {
        let kind = random_kind();
        self.step_with_kind(input, ox, oy, kind);
    }
}

} // verus!
