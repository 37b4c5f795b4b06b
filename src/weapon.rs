//! The firing controller: a weapon's cooldown clock, the trigger of the
//! actor's control mode, and the shot pattern that decides what a shot makes.
//!
//! The controller itself never refuses a shot: the weapon's pattern fires
//! only once the cooldown has run out, and restarts the clock when it does.
use vstd::prelude::*;
use crate::geometry::{Point, rescaled, rescale, WORLD_EDGE, VECTOR_MAX};
use crate::locomotion::PlayerStats;
use crate::aim::{BarrelPose, near_world, pose_in_range, muzzle, muzzle_in_range, resolves_to, carried_to, carry_pose, update_gun_angle, barrel_end};
use crate::bullets::{BulletBundle, DIR_UNIT, launched, bullet_wf};

verus! {

/// Depth of a pellet fan: the heading counts this many thousandths, and the
/// sideways offset `spread` of them per half spacing.
pub const FAN_DEPTH: i64 = 1000;

/// What one shot of a weapon creates.
#[derive(Clone, Copy, Debug, PartialEq, Eq, Structural)]
pub enum ShotPattern {
    /// One projectile along the aim.
    Single,
    /// A fan of `pellets` projectiles spread evenly about the aim.
    Spread { pellets: u8 },
}

/// A weapon: barrel geometry, cooldown clock, shot pattern and the profile of
/// its projectiles.
#[derive(Clone, Copy, Debug, PartialEq, Eq, Structural)]
pub struct GunStats {
    /// Sideways distance of the barrel from the gun position.
    pub barrel_height: i64,
    /// Distance from the barrel position to the muzzle.
    pub barrel_length: i64,
    /// Time between two shots, in microseconds.
    pub cooldown_micros: u64,
    /// Time since the last shot, in microseconds.
    pub elapsed_micros: u64,
    pub pattern: ShotPattern,
    pub bullet_spread: u16,
    pub bullet_distance: u64,
    pub bullet_speed: u32,
}

/// The barrel geometry fits on the playing field.
pub open spec fn gun_wf(g: GunStats) -> bool {
    0 <= g.barrel_height <= WORLD_EDGE && 0 <= g.barrel_length <= WORLD_EDGE
}

/// The cooldown clock after `dt` more microseconds; it stops at the largest
/// `u64`.
pub open spec fn ticked(elapsed: int, dt: int) -> int {
    if elapsed + dt > u64::MAX {
        u64::MAX as int
    } else {
        elapsed + dt
    }
}

/// Number of projectiles one shot of the pattern creates.
pub open spec fn shot_count(p: ShotPattern) -> int {
    match p {
        ShotPattern::Single => 1,
        ShotPattern::Spread { pellets } => pellets as int,
    }
}

/// Heading of pellet `i` of `n`, for the unit aim `u` and the spacing
/// `spread`: pellet `i` sits `2i - (n - 1)` half spacings to the left of the
/// aim, so the fan is symmetric about it.
pub open spec fn pellet_heading(u: Point, i: int, n: int, spread: int) -> (int, int) {
    let c = (2 * i - (n - 1)) * spread;
    rescaled(u.x * FAN_DEPTH - u.y * c, u.y * FAN_DEPTH + u.x * c, DIR_UNIT as int)
}

/// Heading of projectile `i` of a shot along `aim`.
pub open spec fn shot_heading(g: GunStats, aim: Point, i: int) -> (int, int) {
    let u = rescaled(aim.x as int, aim.y as int, DIR_UNIT as int);
    match g.pattern {
        ShotPattern::Single => u,
        ShotPattern::Spread { pellets } => pellet_heading(
            Point { x: u.0 as i64, y: u.1 as i64 },
            i,
            pellets as int,
            g.bullet_spread as int,
        ),
    }
}

/// `bullets` are the projectiles of one shot of `g` from `origin` along `aim`.
pub open spec fn is_shot(bullets: Seq<BulletBundle>, g: GunStats, origin: Point, aim: Point) -> bool {
    &&& bullets.len() == shot_count(g.pattern)
    &&& forall|i: int|
        0 <= i < bullets.len() ==> {
            let h = shot_heading(g, aim, i);
            #[trigger] bullets[i] == launched(
                origin,
                Point { x: h.0 as i64, y: h.1 as i64 },
                g.bullet_spread,
                g.bullet_distance,
                g.bullet_speed,
            )
        }
}

/// Advances the cooldown clock by `dt_micros`.
pub fn tick_cooldown(gun: &mut GunStats, dt_micros: u64)
    ensures
        final(gun).elapsed_micros == ticked(old(gun).elapsed_micros as int, dt_micros as int),
        *final(gun) == (GunStats { elapsed_micros: final(gun).elapsed_micros, ..*old(gun) }),
{
    gun.elapsed_micros = gun.elapsed_micros.saturating_add(dt_micros);
}

/// The trigger that counts for the actor's control mode is held.
pub fn trigger_held(stats: &PlayerStats, shoot: bool, controller_shoot: bool) -> (r: bool)
    ensures
        r == if stats.controller { controller_shoot } else { shoot },
{
    if stats.controller {
        controller_shoot
    } else {
        shoot
    }
}

/// The headings of a fan of `n` pellets about the unit aim `u`.
fn fan(u: Point, n: u8, spread: u16) -> (r: Vec<Point>)
    requires
        -DIR_UNIT <= u.x <= DIR_UNIT,
        -DIR_UNIT <= u.y <= DIR_UNIT,
    ensures
        r@.len() == n,
        forall|i: int|
            0 <= i < n ==> (#[trigger] r@[i]).x == pellet_heading(u, i, n as int, spread as int).0
                && r@[i].y == pellet_heading(u, i, n as int, spread as int).1,
        forall|i: int|
            0 <= i < n ==> -DIR_UNIT <= (#[trigger] r@[i]).x <= DIR_UNIT && -DIR_UNIT <= r@[i].y <= DIR_UNIT,
{
    let mut r: Vec<Point> = Vec::new();
    let mut i: u8 = 0;
    while i < n
        invariant
            0 <= i <= n,
            r@.len() == i,
            -DIR_UNIT <= u.x <= DIR_UNIT,
            -DIR_UNIT <= u.y <= DIR_UNIT,
            forall|j: int|
                0 <= j < i ==> (#[trigger] r@[j]).x == pellet_heading(u, j, n as int, spread as int).0
                    && r@[j].y == pellet_heading(u, j, n as int, spread as int).1,
            forall|j: int|
                0 <= j < i ==> -DIR_UNIT <= (#[trigger] r@[j]).x <= DIR_UNIT && -DIR_UNIT <= r@[j].y <= DIR_UNIT,
        decreases n - i,
    {
        let k: i64 = 2 * (i as i64) - (n as i64 - 1);
        let sp: i64 = spread as i64;
        assert(-20_000_000 <= k * sp <= 20_000_000) by (nonlinear_arith)
            requires
                -255 <= k <= 255,
                0 <= sp <= 65_535,
        ;
        let c: i64 = k * sp;
        assert(-1_400_000_000_000 <= u.x * c <= 1_400_000_000_000 && -1_400_000_000_000 <= u.y * c <= 1_400_000_000_000) by (nonlinear_arith)
            requires
                -65_536 <= u.x <= 65_536,
                -65_536 <= u.y <= 65_536,
                -20_000_000 <= c <= 20_000_000,
        ;
        let d = Point { x: u.x * FAN_DEPTH - u.y * c, y: u.y * FAN_DEPTH + u.x * c };
        let h: Point = rescale(d, DIR_UNIT);
        r.push(h);
        i = i + 1;
    }
    r
}

/// One shot of the weapon from `origin` along `aim`: refused while the
/// cooldown runs, else the pattern's projectiles are created and the clock
/// restarts.
pub fn fire(gun: &mut GunStats, origin: Point, aim: Point) -> (r: Vec<BulletBundle>)
    requires
        muzzle_in_range(origin),
        -VECTOR_MAX <= aim.x <= VECTOR_MAX,
        -VECTOR_MAX <= aim.y <= VECTOR_MAX,
    ensures
        *final(gun) == after_request(*old(gun)),
        old(gun).elapsed_micros < old(gun).cooldown_micros ==> r@.len() == 0 && *final(gun) == *old(gun),
        old(gun).elapsed_micros >= old(gun).cooldown_micros ==> *final(gun) == (GunStats {
            elapsed_micros: 0,
            ..*old(gun)
        }) && is_shot(r@, *old(gun), origin, aim),
        forall|i: int| 0 <= i < r@.len() ==> bullet_wf(#[trigger] r@[i]),
{
    let mut r: Vec<BulletBundle> = Vec::new();
    if gun.elapsed_micros < gun.cooldown_micros {
        return r;
    }
    gun.elapsed_micros = 0;
    let u: Point = rescale(aim, DIR_UNIT);
    match gun.pattern {
        ShotPattern::Single => {
            r.push(BulletBundle::launch(origin, u, gun.bullet_spread, gun.bullet_distance, gun.bullet_speed));
        },
        ShotPattern::Spread { pellets } => {
            let headings: Vec<Point> = fan(u, pellets, gun.bullet_spread);
            let mut i: usize = 0;
            while i < headings.len()
                invariant
                    headings@.len() == pellets,
                    0 <= i <= headings@.len(),
                    r@.len() == i,
                    gun.pattern == (ShotPattern::Spread { pellets }),
                    muzzle_in_range(origin),
                    forall|j: int|
                        0 <= j < pellets ==> -DIR_UNIT <= (#[trigger] headings@[j]).x <= DIR_UNIT && -DIR_UNIT
                            <= headings@[j].y <= DIR_UNIT,
                    forall|j: int|
                        0 <= j < i ==> #[trigger] r@[j] == launched(
                            origin,
                            headings@[j],
                            gun.bullet_spread,
                            gun.bullet_distance,
                            gun.bullet_speed,
                        ),
                decreases headings@.len() - i,
            {
                r.push(BulletBundle::launch(origin, headings[i], gun.bullet_spread, gun.bullet_distance, gun.bullet_speed));
                i = i + 1;
            }
            assert forall|j: int| 0 <= j < r@.len() implies #[trigger] r@[j] == launched(
                origin,
                Point { x: shot_heading(*gun, aim, j).0 as i64, y: shot_heading(*gun, aim, j).1 as i64 },
                gun.bullet_spread,
                gun.bullet_distance,
                gun.bullet_speed,
            ) by {
                assert(headings@[j].x == pellet_heading(u, j, pellets as int, gun.bullet_spread as int).0);
            }
        },
    }
    r
}

/// The trigger that counts for the actor's control mode.
pub open spec fn trigger_of(stats: PlayerStats, shoot: bool, controller_shoot: bool) -> bool {
    if stats.controller { controller_shoot } else { shoot }
}

/// A tick of `dt` microseconds with the trigger in state `trigger` makes a
/// shot: the trigger is held and, once the clock has advanced, the cooldown has
/// run out.
pub open spec fn fires(g: GunStats, trigger: bool, dt: int) -> bool {
    trigger && ticked(g.elapsed_micros as int, dt) >= g.cooldown_micros
}

/// The weapon after one tick: the clock advances, and restarts if a shot was
/// made.
pub open spec fn stepped(g: GunStats, trigger: bool, dt: int) -> GunStats {
    GunStats {
        elapsed_micros: if fires(g, trigger, dt) { 0 } else { ticked(g.elapsed_micros as int, dt) as u64 },
        ..g
    }
}

/// The weapon with its clock advanced by `dt` microseconds.
pub open spec fn ticked_gun(g: GunStats, dt: int) -> GunStats {
    GunStats { elapsed_micros: ticked(g.elapsed_micros as int, dt) as u64, ..g }
}

/// The weapon after its pattern was asked for a shot: unchanged while the
/// cooldown runs, else with its clock restarted.
pub open spec fn after_request(g: GunStats) -> GunStats {
    if g.elapsed_micros < g.cooldown_micros {
        g
    } else {
        GunStats { elapsed_micros: 0, ..g }
    }
}

/// One firing tick of an actor whose gun sits at `player_pos`: the barrel
/// aims at the cursor when there is one apart from the gun, and otherwise
/// keeps its aim and flip and is rebuilt around the gun; the cooldown clock
/// advances by
/// `dt_micros`, and if the trigger of the actor's control mode is held the
/// weapon's pattern is asked for a shot from the muzzle along the aim.
pub fn shooting_system(
    stats: &PlayerStats,
    player_pos: Point,
    cursor_position: Option<Point>,
    shoot: bool,
    controller_shoot: bool,
    dt_micros: u64,
    gun: &mut GunStats,
    pose: &mut BarrelPose,
) -> (r: Vec<BulletBundle>)
    requires
        near_world(player_pos),
        cursor_position matches Some(c) ==> near_world(c),
        gun_wf(*old(gun)),
        pose_in_range(*old(pose)),
    ensures
        match cursor_position {
            Some(c) => if c != player_pos {
                resolves_to(*final(pose), player_pos, c, old(gun).barrel_height as int)
            } else {
                carried_to(*final(pose), *old(pose), player_pos, old(gun).barrel_height as int)
            },
            None => carried_to(*final(pose), *old(pose), player_pos, old(gun).barrel_height as int),
        },
        pose_in_range(*final(pose)),
        *final(gun) == stepped(*old(gun), trigger_of(*stats, shoot, controller_shoot), dt_micros as int),
        trigger_of(*stats, shoot, controller_shoot) ==> *final(gun) == after_request(ticked_gun(*old(gun), dt_micros as int)),
        !trigger_of(*stats, shoot, controller_shoot) ==> *final(gun) == ticked_gun(*old(gun), dt_micros as int)
            && r@.len() == 0,
        fires(*old(gun), trigger_of(*stats, shoot, controller_shoot), dt_micros as int) ==> is_shot(
            r@,
            *old(gun),
            Point {
                x: muzzle(*final(pose), old(gun).barrel_length as int).0 as i64,
                y: muzzle(*final(pose), old(gun).barrel_length as int).1 as i64,
            },
            final(pose).aim,
        ),
        !fires(*old(gun), trigger_of(*stats, shoot, controller_shoot), dt_micros as int) ==> r@.len() == 0,
        forall|i: int| 0 <= i < r@.len() ==> bullet_wf(#[trigger] r@[i]),
{
    match cursor_position {
        Some(c) => {
            if c != player_pos {
                update_gun_angle(player_pos, c, gun.barrel_height, pose);
            } else {
                carry_pose(player_pos, gun.barrel_height, pose);
            }
        },
        None => carry_pose(player_pos, gun.barrel_height, pose),
    }
    let end: Point = barrel_end(pose, gun.barrel_length);
    tick_cooldown(gun, dt_micros);
    if trigger_held(stats, shoot, controller_shoot) {
        fire(gun, end, pose.aim)
    } else {
        Vec::new()
    }
}

/// The cooldown clock only ever moves back when a shot is made: without a
/// shot it advances by the whole tick (strictly, for a tick of positive
/// length, until it reaches the largest `u64`).
pub proof fn lemma_clock_resets_only_on_shot(g: GunStats, trigger: bool, dt: int)
    requires
        0 <= dt,
    ensures
        !fires(g, trigger, dt) ==> stepped(g, trigger, dt).elapsed_micros == ticked(g.elapsed_micros as int, dt),
        !fires(g, trigger, dt) && 0 < dt && g.elapsed_micros + dt <= u64::MAX ==> stepped(
            g,
            trigger,
            dt,
        ).elapsed_micros > g.elapsed_micros,
        stepped(g, trigger, dt).elapsed_micros < g.elapsed_micros ==> fires(g, trigger, dt),
{
}

/// Two shots less than the cooldown apart: after a tick that made a shot,
/// a tick shorter than the cooldown makes none, whatever the trigger does.
pub proof fn lemma_cooldown_blocks_second_shot(g: GunStats, t1: bool, dt1: int, t2: bool, dt2: int)
    requires
        0 <= dt1,
        0 <= dt2 < g.cooldown_micros,
        fires(g, t1, dt1),
    ensures
        !fires(stepped(g, t1, dt1), t2, dt2),
{
}

} // verus!
