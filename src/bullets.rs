//! Projectiles: created at the muzzle, they fly in a straight line at constant
//! speed and are spent once they have covered their range.
//!
//! A projectile's position is computed from its origin and its whole flight
//! time, so the path does not depend on how time was cut into ticks.
use vstd::prelude::*;
use crate::geometry::{Point, div_trunc, div_toward_zero, WORLD_EDGE};
use crate::locomotion::MICROS_PER_SECOND;

verus! {

/// Length of a projectile's heading vector.
pub const DIR_UNIT: i64 = 65_536;

/// Longest flight time, in microseconds (one hour): a projectile that has
/// flown this long is spent, whatever its range.
pub const MAX_FLIGHT_MICROS: u64 = 3_600_000_000;

/// Flight statistics of a projectile.
#[derive(Clone, Copy, Debug, PartialEq, Eq, Structural)]
pub struct BulletStats {
    /// Direction of flight, `DIR_UNIT` steps long.
    pub heading: Point,
    /// Half the spacing of neighbouring pellets of one shot, in thousandths of
    /// the heading.
    pub spread: u16,
    /// Range, in coordinate steps.
    pub distance: u64,
    /// Speed, in coordinate steps per second.
    pub speed: u32,
}

/// A projectile in flight.
#[derive(Clone, Copy, Debug, PartialEq, Eq, Structural)]
pub struct BulletBundle {
    pub stats: BulletStats,
    /// Where it was fired from.
    pub origin: Point,
    pub position: Point,
    /// Flight time so far, in microseconds.
    pub age_micros: u64,
}

/// Distance flown along one heading coordinate `h` at `speed` for `age`
/// microseconds.
pub open spec fn flight(h: int, speed: int, age: int) -> int {
    div_trunc(h * speed * age, DIR_UNIT * MICROS_PER_SECOND)
}

/// Where a projectile is after `age` microseconds of flight.
pub open spec fn position_at(b: BulletBundle, age: int) -> (int, int) {
    (
        b.origin.x + flight(b.stats.heading.x as int, b.stats.speed as int, age),
        b.origin.y + flight(b.stats.heading.y as int, b.stats.speed as int, age),
    )
}

/// A projectile as the firing controller makes it and flight keeps it: a
/// heading at most `DIR_UNIT` long per coordinate, an origin near the field,
/// a bounded flight time, and its position on its straight line.
pub open spec fn bullet_wf(b: BulletBundle) -> bool {
    &&& -DIR_UNIT <= b.stats.heading.x <= DIR_UNIT
    &&& -DIR_UNIT <= b.stats.heading.y <= DIR_UNIT
    &&& -4 * WORLD_EDGE <= b.origin.x <= 4 * WORLD_EDGE
    &&& -4 * WORLD_EDGE <= b.origin.y <= 4 * WORLD_EDGE
    &&& b.age_micros <= MAX_FLIGHT_MICROS
    &&& b.position.x == position_at(b, b.age_micros as int).0
    &&& b.position.y == position_at(b, b.age_micros as int).1
}

/// Flight time after `dt` more microseconds.
pub open spec fn aged(age: int, dt: int) -> int {
    if age + dt > MAX_FLIGHT_MICROS {
        MAX_FLIGHT_MICROS as int
    } else {
        age + dt
    }
}

/// The projectile after `dt` more microseconds of flight.
pub open spec fn advanced(b: BulletBundle, dt: int) -> BulletBundle {
    let age = aged(b.age_micros as int, dt);
    BulletBundle {
        position: Point { x: position_at(b, age).0 as i64, y: position_at(b, age).1 as i64 },
        age_micros: age as u64,
        ..b
    }
}

/// Distance a projectile has flown, in coordinate steps.
pub open spec fn travelled(b: BulletBundle) -> int {
    (b.stats.speed as int) * (b.age_micros as int) / (MICROS_PER_SECOND as int)
}

/// The projectile has covered its range, or has flown for the longest flight
/// time, and is to be removed.
pub open spec fn spent(b: BulletBundle) -> bool {
    travelled(b) >= b.stats.distance || b.age_micros >= MAX_FLIGHT_MICROS
}

/// A new projectile at `origin`, flying along `heading`.
pub open spec fn launched(origin: Point, heading: Point, spread: u16, distance: u64, speed: u32) -> BulletBundle {
    BulletBundle {
        stats: BulletStats { heading, spread, distance, speed },
        origin,
        position: origin,
        age_micros: 0,
    }
}

proof fn lemma_flight_bounded(h: int, speed: int, age: int)
    requires
        -DIR_UNIT <= h <= DIR_UNIT,
        0 <= speed <= 0xffff_ffff,
        0 <= age <= MAX_FLIGHT_MICROS,
    ensures
        -0x10_0000_0000_0000_0000_0000 <= h * speed * age <= 0x10_0000_0000_0000_0000_0000,
        -16_000_000_000_000 <= flight(h, speed, age) <= 16_000_000_000_000,
{
    assert(-0x10_0000_0000_0000_0000_0000 <= h * speed * age <= 0x10_0000_0000_0000_0000_0000) by (nonlinear_arith)
        requires
            -65_536 <= h <= 65_536,
            0 <= speed <= 0xffff_ffff,
            0 <= age <= 3_600_000_000,
    ;
    let n = h * speed * age;
    assert(-65_536 * 0xffff_ffff * 3_600_000_000 <= n <= 65_536 * 0xffff_ffff * 3_600_000_000) by (nonlinear_arith)
        requires
            -65_536 <= h <= 65_536,
            0 <= speed <= 0xffff_ffff,
            0 <= age <= 3_600_000_000,
            n == h * speed * age,
    ;
    let d = DIR_UNIT * MICROS_PER_SECOND;
    if n >= 0 {
        assert(n / d <= 16_000_000_000_000) by (nonlinear_arith)
            requires
                0 <= n <= 65_536 * 0xffff_ffff * 3_600_000_000,
                d == 65_536_000_000,
        ;
        assert(n / d >= 0) by (nonlinear_arith)
            requires
                0 <= n,
                d == 65_536_000_000,
        ;
    } else {
        assert((-n) / d <= 16_000_000_000_000) by (nonlinear_arith)
            requires
                0 <= -n <= 65_536 * 0xffff_ffff * 3_600_000_000,
                d == 65_536_000_000,
        ;
        assert((-n) / d >= 0) by (nonlinear_arith)
            requires
                0 <= -n,
                d == 65_536_000_000,
        ;
    }
}

fn flight_along(h: i64, speed: u32, age: u64) -> (r: i64)
    requires
        -DIR_UNIT <= h <= DIR_UNIT,
        age <= MAX_FLIGHT_MICROS,
    ensures
        r as int == flight(h as int, speed as int, age as int),
        -16_000_000_000_000 <= r <= 16_000_000_000_000,
{
    proof {
        lemma_flight_bounded(h as int, speed as int, age as int);
    }
    let hi: i128 = h as i128;
    let si: i128 = speed as i128;
    assert(-0x1_0000_0000_0000 <= hi * si <= 0x1_0000_0000_0000) by (nonlinear_arith)
        requires
            -65_536 <= hi <= 65_536,
            0 <= si <= 0xffff_ffff,
    ;
    let hs: i128 = hi * si;
    let n: i128 = hs * (age as i128);
    div_toward_zero(n, 65_536_000_000u128) as i64
}

impl BulletBundle {
    /// The projectile of the marine's rifle, fired from `barrel_end` along
    /// `heading`.
    pub fn marine_bullet(barrel_end: Point, heading: Point) -> (r: BulletBundle)
        ensures
            r == launched(barrel_end, heading, 500, 15_000, 30_000),
    {
        BulletBundle::launch(barrel_end, heading, 500, 15_000, 30_000)
    }

    /// A new projectile at `origin`, flying along `heading`.
    pub fn launch(origin: Point, heading: Point, spread: u16, distance: u64, speed: u32) -> (r: BulletBundle)
        ensures
            r == launched(origin, heading, spread, distance, speed),
    {
        BulletBundle {
            stats: BulletStats { heading, spread, distance, speed },
            origin,
            position: origin,
            age_micros: 0,
        }
    }

    /// Moves the projectile along its line for `dt_micros` more microseconds.
    pub fn advance(&mut self, dt_micros: u64)
        requires
            bullet_wf(*old(self)),
        ensures
            *final(self) == advanced(*old(self), dt_micros as int),
            bullet_wf(*final(self)),
    {
        let age: u64 = if dt_micros > MAX_FLIGHT_MICROS - self.age_micros {
            MAX_FLIGHT_MICROS
        } else {
            self.age_micros + dt_micros
        };
        let fx: i64 = flight_along(self.stats.heading.x, self.stats.speed, age);
        let fy: i64 = flight_along(self.stats.heading.y, self.stats.speed, age);
        self.position = Point { x: self.origin.x + fx, y: self.origin.y + fy };
        self.age_micros = age;
    }

    /// Whether the projectile has covered its range.
    pub fn is_spent(&self) -> (r: bool)
        ensures
            r == spent(*self),
    {
        let s: u128 = self.stats.speed as u128;
        let a: u128 = self.age_micros as u128;
        assert(s * a <= 0xffff_ffff_ffff_ffff_ffff_ffff_ffff_ffff) by (nonlinear_arith)
            requires
                s <= 0xffff_ffff,
                a <= 0xffff_ffff_ffff_ffff,
        ;
        let flown: u128 = s * a / 1_000_000;
        flown >= self.stats.distance as u128 || self.age_micros >= MAX_FLIGHT_MICROS
    }
}

/// Moves every projectile along its line for `dt_micros` microseconds.
pub fn move_bullets(bullets: &mut Vec<BulletBundle>, dt_micros: u64)
    requires
        forall|i: int| 0 <= i < old(bullets)@.len() ==> bullet_wf(#[trigger] old(bullets)@[i]),
    ensures
        final(bullets)@.len() == old(bullets)@.len(),
        forall|i: int|
            0 <= i < final(bullets)@.len() ==> #[trigger] final(bullets)@[i] == advanced(old(bullets)@[i], dt_micros as int),
        forall|i: int| 0 <= i < final(bullets)@.len() ==> bullet_wf(#[trigger] final(bullets)@[i]),
{
    let n: usize = bullets.len();
    let mut i: usize = 0;
    while i < n
        invariant
            n == old(bullets)@.len(),
            bullets@.len() == n,
            0 <= i <= n,
            forall|j: int| 0 <= j < i ==> #[trigger] bullets@[j] == advanced(old(bullets)@[j], dt_micros as int),
            forall|j: int| i <= j < n ==> #[trigger] bullets@[j] == old(bullets)@[j],
            forall|j: int| 0 <= j < n ==> bullet_wf(#[trigger] bullets@[j]),
        decreases n - i,
    {
        let mut b: BulletBundle = bullets[i];
        b.advance(dt_micros);
        bullets.set(i, b);
        i = i + 1;
    }
}

/// Straight-line flight: advancing a projectile by `dt1` and then by `dt2`
/// gives the same projectile as advancing it once by `dt1 + dt2`; its
/// position is always its origin plus the distance flown in its whole flight
/// time along its heading; and until it is spent its flight time grows by
/// the whole of each tick, so no projectile stops short while in flight.
pub proof fn lemma_flight_is_straight(b: BulletBundle, dt1: int, dt2: int)
    requires
        bullet_wf(b),
        0 <= dt1,
        0 <= dt2,
    ensures
        advanced(advanced(b, dt1), dt2) == advanced(b, dt1 + dt2),
        advanced(b, dt1).position.x == b.origin.x + flight(
            b.stats.heading.x as int,
            b.stats.speed as int,
            aged(b.age_micros as int, dt1),
        ),
        advanced(b, dt1).position.y == b.origin.y + flight(
            b.stats.heading.y as int,
            b.stats.speed as int,
            aged(b.age_micros as int, dt1),
        ),
        !spent(advanced(b, dt1)) ==> advanced(b, dt1).age_micros == b.age_micros + dt1,
        advanced(b, dt1).age_micros == b.age_micros + dt1 || spent(advanced(b, dt1)),
{
    let a = aged(b.age_micros as int, dt1);
    lemma_flight_bounded(b.stats.heading.x as int, b.stats.speed as int, a);
    lemma_flight_bounded(b.stats.heading.y as int, b.stats.speed as int, a);
    let a2 = aged(a, dt2);
    lemma_flight_bounded(b.stats.heading.x as int, b.stats.speed as int, a2);
    lemma_flight_bounded(b.stats.heading.y as int, b.stats.speed as int, a2);
}

/// Removes the projectiles that have covered their range, keeping the others
/// in order.
pub fn retire_spent(bullets: &mut Vec<BulletBundle>)
    ensures
        final(bullets)@ == old(bullets)@.filter(|b: BulletBundle| !spent(b)),
        (forall|k: int| 0 <= k < old(bullets)@.len() ==> bullet_wf(#[trigger] old(bullets)@[k])) ==> (forall|k: int|
            0 <= k < final(bullets)@.len() ==> bullet_wf(#[trigger] final(bullets)@[k])),
{
    let ghost keep = |b: BulletBundle| !spent(b);
    let mut kept: Vec<BulletBundle> = Vec::new();
    let mut i: usize = 0;
    while i < bullets.len()
        invariant
            bullets@ == old(bullets)@,
            keep == (|b: BulletBundle| !spent(b)),
            0 <= i <= bullets@.len(),
            kept@ == bullets@.take(i as int).filter(keep),
            (forall|k: int| 0 <= k < bullets@.len() ==> bullet_wf(#[trigger] bullets@[k])) ==> (forall|k: int|
                0 <= k < kept@.len() ==> bullet_wf(#[trigger] kept@[k])),
        decreases bullets@.len() - i,
    {
        let b: BulletBundle = bullets[i];
        proof {
            let next = bullets@.take(i as int + 1);
            assert(next.drop_last() =~= bullets@.take(i as int));
            assert(next.last() == b);
            reveal(Seq::filter);
            assert(next.filter(keep) == if keep(b) {
                bullets@.take(i as int).filter(keep).push(b)
            } else {
                bullets@.take(i as int).filter(keep)
            });
            assert(keep(b) == !spent(b));
        }
        if !b.is_spent() {
            kept.push(b);
        }
        i = i + 1;
    }
    proof {
        assert(bullets@.take(bullets@.len() as int) =~= bullets@);
    }
    *bullets = kept;
}

} // verus!
