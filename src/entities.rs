use vstd::prelude::*;
use crate::geometry::{Pos, WORLD_LIMIT};

verus! {

/// The two phases of the game.
#[derive(Clone, Copy, Debug, PartialEq, Eq, Structural)]
pub enum GameState {
    Playing,
    GameOver,
}

/// The kinds of enemy, which differ in health, speed and reward.
#[derive(Clone, Copy, Debug, PartialEq, Eq, Structural)]
pub enum EnemyKind {
    Basic,
    Fast,
    Tank,
}

pub open spec fn kind_health(k: EnemyKind) -> int {
    match k {
        EnemyKind::Basic => 1,
        EnemyKind::Fast => 1,
        EnemyKind::Tank => 3,
    }
}

pub open spec fn kind_reward(k: EnemyKind) -> int {
    match k {
        EnemyKind::Basic => 1,
        EnemyKind::Fast => 2,
        EnemyKind::Tank => 5,
    }
}

/// Speed in world units per second.
pub open spec fn kind_speed(k: EnemyKind) -> int {
    match k {
        EnemyKind::Basic => 150,
        EnemyKind::Fast => 300,
        EnemyKind::Tank => 75,
    }
}

impl EnemyKind {
    /// Health an enemy of this kind starts with.
    pub fn initial_health(self) -> (r: u8)
        ensures
            r == kind_health(self),
    {
        match self {
            EnemyKind::Basic => 1,
            EnemyKind::Fast => 1,
            EnemyKind::Tank => 3,
        }
    }

    /// Score awarded when an enemy of this kind is destroyed.
    pub fn kill_reward(self) -> (r: u64)
        ensures
            r == kind_reward(self),
    {
        match self {
            EnemyKind::Basic => 1,
            EnemyKind::Fast => 2,
            EnemyKind::Tank => 5,
        }
    }

    /// Speed in world units per second.
    pub fn speed(self) -> (r: u64)
        ensures
            r == kind_speed(self),
    {
        match self {
            EnemyKind::Basic => 150,
            EnemyKind::Fast => 300,
            EnemyKind::Tank => 75,
        }
    }
}

/// An enemy homing on the player.
#[derive(Clone, Copy, Debug, PartialEq, Eq, Structural)]
pub struct Enemy {
    pub pos: Pos,
    pub kind: EnemyKind,
    pub health: u8,
}

impl Enemy {
    pub open spec fn wf(self) -> bool {
        self.pos.in_world() && self.health >= 1
    }
}

/// A projectile flying in a fixed direction; `(dx, dy)` is the vector from where it was
/// fired to the point it was aimed at.
#[derive(Clone, Copy, Debug, PartialEq, Eq, Structural)]
pub struct Bullet {
    pub pos: Pos,
    pub dx: i64,
    pub dy: i64,
}

impl Bullet {
    pub open spec fn wf(self) -> bool {
        &&& self.pos.in_world()
        &&& -2 * WORLD_LIMIT <= self.dx <= 2 * WORLD_LIMIT
        &&& -2 * WORLD_LIMIT <= self.dy <= 2 * WORLD_LIMIT
        &&& !(self.dx == 0 && self.dy == 0)
    }
}

} // verus!
