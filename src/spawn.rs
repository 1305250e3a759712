use vstd::prelude::*;
use rand::Rng;
use crate::entities::EnemyKind;
use crate::geometry::UNIT;

verus! {

/// Time between two enemy spawns, in microseconds.
pub const SPAWN_PERIOD_US: u64 = 1_000_000;

/// Nearest distance from the player at which an enemy appears, in world units.
pub const SPAWN_MIN_DISTANCE: i64 = 300;

/// Distance from the player below which every enemy appears, in world units.
pub const SPAWN_MAX_DISTANCE: i64 = 500;

/// Time left in the current period after `elapsed + delta` microseconds.
pub open spec fn timer_rest(elapsed: int, delta: int) -> int {
    (elapsed + delta) % (SPAWN_PERIOD_US as int)
}

/// Whether the period completes during a tick of `delta` microseconds.
pub open spec fn timer_fires(elapsed: int, delta: int) -> bool {
    elapsed + delta >= SPAWN_PERIOD_US
}

/// Advances the repeating spawn timer; returns the new elapsed time within the period and
/// whether the period completed (once, however many periods the tick spans).
pub fn tick_spawn_timer(elapsed: u64, delta: u64) -> (r: (u64, bool))
    requires
        elapsed < SPAWN_PERIOD_US,
    ensures
        r.0 == timer_rest(elapsed as int, delta as int),
        r.1 == timer_fires(elapsed as int, delta as int),
        r.0 < SPAWN_PERIOD_US,
{
    let total: u128 = elapsed as u128 + delta as u128;
    let rest: u128 = total % (SPAWN_PERIOD_US as u128);
    (rest as u64, total >= SPAWN_PERIOD_US as u128)
}

pub open spec fn kind_of_roll(roll: int) -> EnemyKind {
    if roll == 0 {
        EnemyKind::Basic
    } else if roll == 1 {
        EnemyKind::Fast
    } else {
        EnemyKind::Tank
    }
}

/// Maps a roll drawn from `0..3` to an enemy kind, one kind per value.
pub fn kind_from_roll(roll: u64) -> (r: EnemyKind)
    ensures
        r == kind_of_roll(roll as int),
{
    if roll == 0 {
        EnemyKind::Basic
    } else if roll == 1 {
        EnemyKind::Fast
    } else {
        EnemyKind::Tank
    }
}

/// Relies on rand's `thread_rng` and `Rng::gen_range`: a value of `0..n`, which needs a
/// non-empty range.
#[verifier::external_body]
fn roll_below(n: u64) -> (r: u64)
    requires
        n > 0,
    ensures
        r < n,
{
    rand::thread_rng().gen_range(0..n)
}

/// Draws an enemy kind, each of the three with equal chance.
pub fn random_kind() -> (r: EnemyKind)
    ensures
        exists|roll: int| 0 <= roll < 3 && r == kind_of_roll(roll),
{
    let roll: u64 = roll_below(3);
    kind_from_roll(roll)
}

/// `(dx, dy)` lies in the ring around the player where enemies appear.
pub open spec fn in_spawn_ring(dx: int, dy: int) -> bool {
    let lo = SPAWN_MIN_DISTANCE * UNIT;
    let hi = SPAWN_MAX_DISTANCE * UNIT;
    lo * lo <= dx * dx + dy * dy < hi * hi
}

/// Whether an offset from the player is a valid spawn offset.
pub fn is_spawn_offset(dx: i64, dy: i64) -> (r: bool)
    ensures
        r == in_spawn_ring(dx as int, dy as int),
{
    let x: i128 = dx as i128;
    let y: i128 = dy as i128;
    assert(0 <= x * x <= 0x8000_0000_0000_0000 * 0x8000_0000_0000_0000) by (nonlinear_arith)
        requires
            -0x8000_0000_0000_0000 <= x <= 0x8000_0000_0000_0000,
    ;
    assert(0 <= y * y <= 0x8000_0000_0000_0000 * 0x8000_0000_0000_0000) by (nonlinear_arith)
        requires
            -0x8000_0000_0000_0000 <= y <= 0x8000_0000_0000_0000,
    ;
    let d: u128 = (x * x) as u128 + (y * y) as u128;
    let lo: u128 = (SPAWN_MIN_DISTANCE * UNIT) as u128;
    let hi: u128 = (SPAWN_MAX_DISTANCE * UNIT) as u128;
    lo * lo <= d && d < hi * hi
}

/// An offset in the spawn ring is shorter than the ring's outer radius on each axis.
pub proof fn lemma_ring_offset_bounded(ox: int, oy: int)
    requires
        in_spawn_ring(ox, oy),
    ensures
        -SPAWN_MAX_DISTANCE * UNIT < ox < SPAWN_MAX_DISTANCE * UNIT,
        -SPAWN_MAX_DISTANCE * UNIT < oy < SPAWN_MAX_DISTANCE * UNIT,
{
    assert(0 <= oy * oy && 0 <= ox * ox) by (nonlinear_arith);
    assert(-500_000 < ox < 500_000) by (nonlinear_arith)
        requires
            ox * ox < 500_000 * 500_000,
    ;
    assert(-500_000 < oy < 500_000) by (nonlinear_arith)
        requires
            oy * oy < 500_000 * 500_000,
    ;
}

} // verus!
