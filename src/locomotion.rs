//! Facing classification of a movement vector, and the displacement of an
//! actor that moves along it.
//!
//! A direction is measured by its angle from the world's down axis, turning
//! toward the left: down is 0 degrees, left 90, up 180 and right 270. The
//! circle is cut at 30, 90, 150, 210, 270 and 330 degrees; each sector holds
//! its lower boundary and not its upper one.
use vstd::prelude::*;
use crate::geometry::{Point, in_world, div_trunc, div_toward_zero, norm_sq, rescaled, rescale, WORLD_EDGE};

verus! {

/// A movement vector of this length moves an actor at full speed.
pub const AXIS_UNIT: i64 = 1000;

/// Tick durations are given in microseconds.
pub const MICROS_PER_SECOND: i64 = 1_000_000;

/// The facing of an actor, which selects its animation.
#[derive(Clone, Copy, Debug, PartialEq, Eq, Structural)]
pub enum PlayerState {
    Idle,
    LeftFront,
    LeftBack,
    RightFront,
    RightBack,
    Front,
    Back,
}

impl Default for PlayerState {
    /// An actor starts out idle.
    fn default() -> (r: PlayerState)
        ensures
            r == PlayerState::Idle,
    {
        PlayerState::Idle
    }
}

/// Movement statistics of an actor.
#[derive(Clone, Copy, Debug, PartialEq, Eq, Structural)]
pub struct PlayerStats {
    /// Full speed, in coordinate steps per second.
    pub speed: u32,
    /// The actor reads a gamepad rather than keyboard and mouse.
    pub controller: bool,
}

/// Sign of `sqrt(3) * p - q`, decided exactly on integers.
pub open spec fn sign_root3_minus(p: int, q: int) -> int {
    if p >= 0 && q <= 0 {
        if p == 0 && q == 0 { 0 } else { 1 }
    } else if p <= 0 && q >= 0 {
        -1
    } else if p > 0 {
        if 3 * p * p > q * q { 1 } else if 3 * p * p == q * q { 0 } else { -1 }
    } else {
        if q * q > 3 * p * p { 1 } else if q * q == 3 * p * p { 0 } else { -1 }
    }
}

/// The direction whose sine and cosine against the down axis are in the
/// ratio `a : b` lies on or within the half turn that begins at boundary `k`
/// (the boundary at `30 + 60 * k` degrees), that is, `sin(angle - boundary) >= 0`.
pub open spec fn past_boundary(k: int, a: int, b: int) -> bool {
    if k == 0 {
        sign_root3_minus(a, b) >= 0
    } else if k == 1 {
        b <= 0
    } else if k == 2 {
        sign_root3_minus(-a, b) >= 0
    } else if k == 3 {
        sign_root3_minus(-a, -b) >= 0
    } else if k == 4 {
        b >= 0
    } else {
        sign_root3_minus(a, -b) >= 0
    }
}

/// The direction `a : b` lies in sector `k`, from boundary `k` up to, but not
/// including, the next boundary.
pub open spec fn in_sector(k: int, a: int, b: int) -> bool {
    past_boundary(k, a, b) && !past_boundary((k + 1) % 6, a, b)
}

/// The facing that the movement vector `(x, y)` selects. Its angle from the
/// down axis has sine and cosine in the ratio `-x : -y`.
pub open spec fn facing(x: int, y: int) -> PlayerState {
    if x == 0 && y == 0 {
        PlayerState::Idle
    } else if in_sector(0, -x, -y) {
        PlayerState::LeftFront
    } else if in_sector(1, -x, -y) {
        PlayerState::LeftBack
    } else if in_sector(2, -x, -y) {
        PlayerState::Back
    } else if in_sector(3, -x, -y) {
        PlayerState::RightBack
    } else if in_sector(4, -x, -y) {
        PlayerState::RightFront
    } else {
        PlayerState::Front
    }
}

proof fn lemma_squares(a: int, b: int)
    ensures
        (-a) * (-a) == a * a,
        (-b) * (-b) == b * b,
        3 * (-a) * (-a) == 3 * a * a,
{
    assert((-a) * (-a) == a * a) by (nonlinear_arith);
    assert((-b) * (-b) == b * b) by (nonlinear_arith);
    assert(3 * (-a) * (-a) == 3 * a * a) by (nonlinear_arith);
}

/// The six sectors cover every direction and never overlap: each non-zero
/// vector lies in exactly one of them.
pub proof fn lemma_sectors_partition(a: int, b: int)
    requires
        a != 0 || b != 0,
    ensures
        exists|k: int| 0 <= k < 6 && #[trigger] in_sector(k, a, b),
        forall|j: int, k: int|
            0 <= j < 6 && 0 <= k < 6 && #[trigger] in_sector(j, a, b) && #[trigger] in_sector(k, a, b)
                ==> j == k,
{
    lemma_squares(a, b);
    assert(in_sector(0, a, b) || in_sector(1, a, b) || in_sector(2, a, b) || in_sector(3, a, b)
        || in_sector(4, a, b) || in_sector(5, a, b));
    assert forall|j: int, k: int|
        0 <= j < 6 && 0 <= k < 6 && #[trigger] in_sector(j, a, b) && #[trigger] in_sector(k, a, b)
            implies j == k by {
        assert(0 <= j < 6 && 0 <= k < 6);
    }
}

/// Magnitude of a coordinate.
fn magnitude(p: i128) -> (r: u128)
    requires
        -0x8000_0000_0000_0000 <= p <= 0x8000_0000_0000_0000,
    ensures
        r as int == if p >= 0 { p as int } else { -p },
        r <= 0x8000_0000_0000_0000,
{
    if p >= 0 {
        p as u128
    } else {
        (-p) as u128
    }
}

/// Sign of `sqrt(3) * p - q`.
fn root3_minus_sign(p: i128, q: i128) -> (r: i8)
    requires
        -0x8000_0000_0000_0000 <= p <= 0x8000_0000_0000_0000,
        -0x8000_0000_0000_0000 <= q <= 0x8000_0000_0000_0000,
    ensures
        r as int == sign_root3_minus(p as int, q as int),
{
    if p >= 0 && q <= 0 {
        if p == 0 && q == 0 { 0 } else { 1 }
    } else if p <= 0 && q >= 0 {
        -1
    } else {
        let pm: u128 = magnitude(p);
        let qm: u128 = magnitude(q);
        assert(pm * pm <= 0x4000_0000_0000_0000_0000_0000_0000_0000 && qm * qm <= 0x4000_0000_0000_0000_0000_0000_0000_0000) by (nonlinear_arith)
            requires
                pm <= 0x8000_0000_0000_0000u128,
                qm <= 0x8000_0000_0000_0000u128,
        ;
        let t: u128 = 3 * (pm * pm);
        let u: u128 = qm * qm;
        assert(pm * pm == p * p && qm * qm == q * q) by (nonlinear_arith)
            requires
                pm == (if p >= 0 { p as int } else { -p }),
                qm == (if q >= 0 { q as int } else { -q }),
        ;
        assert(3 * p * p == 3 * (p * p)) by (nonlinear_arith);
        if p > 0 {
            if t > u { 1 } else if t == u { 0 } else { -1 }
        } else {
            if u > t { 1 } else if u == t { 0 } else { -1 }
        }
    }
}

/// Whether the direction `a : b` has reached boundary `k`.
fn reaches_boundary(k: u8, a: i128, b: i128) -> (r: bool)
    requires
        k < 6,
        -0x8000_0000_0000_0000 <= a <= 0x8000_0000_0000_0000,
        -0x8000_0000_0000_0000 <= b <= 0x8000_0000_0000_0000,
    ensures
        r == past_boundary(k as int, a as int, b as int),
{
    if k == 0 {
        root3_minus_sign(a, b) >= 0
    } else if k == 1 {
        b <= 0
    } else if k == 2 {
        root3_minus_sign(-a, b) >= 0
    } else if k == 3 {
        root3_minus_sign(-a, -b) >= 0
    } else if k == 4 {
        b >= 0
    } else {
        root3_minus_sign(a, -b) >= 0
    }
}

/// Whether the direction `a : b` lies in sector `k`.
fn within_sector(k: u8, a: i128, b: i128) -> (r: bool)
    requires
        k < 6,
        -0x8000_0000_0000_0000 <= a <= 0x8000_0000_0000_0000,
        -0x8000_0000_0000_0000 <= b <= 0x8000_0000_0000_0000,
    ensures
        r == in_sector(k as int, a as int, b as int),
{
    let next: u8 = if k == 5 { 0 } else { k + 1 };
    reaches_boundary(k, a, b) && !reaches_boundary(next, a, b)
}

/// The facing selected by the movement vector `direction`: `Idle` for the
/// zero vector, else the sector in which its direction lies.
pub fn classify(direction: Point) -> (r: PlayerState)
    ensures
        r == facing(direction.x as int, direction.y as int),
{
    if direction.x == 0 && direction.y == 0 {
        return PlayerState::Idle;
    }
    let a: i128 = -(direction.x as i128);
    let b: i128 = -(direction.y as i128);
    if within_sector(0, a, b) {
        PlayerState::LeftFront
    } else if within_sector(1, a, b) {
        PlayerState::LeftBack
    } else if within_sector(2, a, b) {
        PlayerState::Back
    } else if within_sector(3, a, b) {
        PlayerState::RightBack
    } else if within_sector(4, a, b) {
        PlayerState::RightFront
    } else {
        proof {
            lemma_sectors_partition(a as int, b as int);
            assert(in_sector(5, a as int, b as int));
        }
        PlayerState::Front
    }
}

proof fn lemma_sign_root3_minus_scaled(p: int, q: int, k: int)
    requires
        k > 0,
    ensures
        sign_root3_minus(k * p, k * q) == sign_root3_minus(p, q),
{
    assert(p > 0 <==> k * p > 0) by (nonlinear_arith)
        requires
            k > 0,
    ;
    assert(p < 0 <==> k * p < 0) by (nonlinear_arith)
        requires
            k > 0,
    ;
    assert(q > 0 <==> k * q > 0) by (nonlinear_arith)
        requires
            k > 0,
    ;
    assert(q < 0 <==> k * q < 0) by (nonlinear_arith)
        requires
            k > 0,
    ;
    let t = 3 * p * p - q * q;
    assert(3 * (k * p) * (k * p) - (k * q) * (k * q) == (k * k) * t) by (nonlinear_arith)
        requires
            t == 3 * p * p - q * q,
    ;
    assert(k * k > 0) by (nonlinear_arith)
        requires
            k > 0,
    ;
    assert(t > 0 ==> (k * k) * t > 0) by (nonlinear_arith)
        requires
            k * k > 0,
    ;
    assert(t < 0 ==> (k * k) * t < 0) by (nonlinear_arith)
        requires
            k * k > 0,
    ;
    assert(t == 0 ==> (k * k) * t == 0) by (nonlinear_arith);
}

/// Facing depends on the direction alone: rescaling a non-zero movement vector
/// by any positive factor selects the same facing.
pub proof fn lemma_facing_scale_invariant(x: int, y: int, k: int)
    requires
        x != 0 || y != 0,
        k > 0,
    ensures
        facing(k * x, k * y) == facing(x, y),
{
    let a = -x;
    let b = -y;
    assert(-(k * x) == k * a && -(k * y) == k * b) by (nonlinear_arith)
        requires
            a == -x,
            b == -y,
    ;
    assert(k * x != 0 || k * y != 0) by (nonlinear_arith)
        requires
            x != 0 || y != 0,
            k > 0,
    ;
    lemma_sign_root3_minus_scaled(a, b, k);
    lemma_sign_root3_minus_scaled(-a, b, k);
    lemma_sign_root3_minus_scaled(-a, -b, k);
    lemma_sign_root3_minus_scaled(a, -b, k);
    assert(k * (-a) == -(k * a) && k * (-b) == -(k * b)) by (nonlinear_arith);
    assert(b <= 0 <==> k * b <= 0) by (nonlinear_arith)
        requires
            k > 0,
    ;
    assert(b >= 0 <==> k * b >= 0) by (nonlinear_arith)
        requires
            k > 0,
    ;
    assert forall|j: int| 0 <= j < 6 implies past_boundary(j, k * a, k * b) == past_boundary(j, a, b) by {}
    assert forall|j: int| 0 <= j < 6 implies in_sector(j, k * a, k * b) == in_sector(j, a, b) by {
        assert(0 <= (j + 1) % 6 < 6);
    }
}

/// The zero movement vector selects `Idle`, whatever came before.
pub proof fn lemma_zero_is_idle()
    ensures
        facing(0, 0) == PlayerState::Idle,
{
}

/// A coordinate stopped at the edge of the playing field.
pub open spec fn clamp_world(c: int) -> int {
    if c > WORLD_EDGE {
        WORLD_EDGE as int
    } else if c < -WORLD_EDGE {
        -WORLD_EDGE
    } else {
        c
    }
}

/// Each coordinate of the movement vector lies within one axis unit, as an
/// analog stick or a combination of direction keys gives it.
pub open spec fn axis_ok(v: Point) -> bool {
    -AXIS_UNIT <= v.x <= AXIS_UNIT && -AXIS_UNIT <= v.y <= AXIS_UNIT
}

/// The movement vector `(x, y)` shortened to at most one axis unit.
pub open spec fn clamped_to_unit(x: int, y: int) -> (int, int) {
    if norm_sq(x, y) <= AXIS_UNIT * AXIS_UNIT {
        (x, y)
    } else {
        rescaled(x, y, AXIS_UNIT as int)
    }
}

/// Distance covered along one coordinate `c` of the clamped movement vector,
/// at `speed` steps per second during `dt` microseconds.
pub open spec fn travel(c: int, speed: int, dt: int) -> int {
    div_trunc(c * speed * dt, AXIS_UNIT * MICROS_PER_SECOND)
}

/// Where an actor at `p` ends after moving along `v` at `speed` for `dt`
/// microseconds, stopped at the edge of the playing field.
pub open spec fn moved(p: Point, v: Point, speed: int, dt: int) -> (int, int) {
    let c = clamped_to_unit(v.x as int, v.y as int);
    (clamp_world(p.x + travel(c.0, speed, dt)), clamp_world(p.y + travel(c.1, speed, dt)))
}

/// The movement vector of the four direction keys: each held key adds one
/// axis unit in its direction.
pub fn keyboard_direction(left: bool, right: bool, up: bool, down: bool) -> (r: Point)
    ensures
        r.x == (if right { AXIS_UNIT } else { 0 }) - (if left { AXIS_UNIT } else { 0 }),
        r.y == (if up { AXIS_UNIT } else { 0 }) - (if down { AXIS_UNIT } else { 0 }),
        axis_ok(r),
{
    let mut r = Point { x: 0, y: 0 };
    if left {
        r.x = r.x - AXIS_UNIT;
    }
    if right {
        r.x = r.x + AXIS_UNIT;
    }
    if up {
        r.y = r.y + AXIS_UNIT;
    }
    if down {
        r.y = r.y - AXIS_UNIT;
    }
    r
}

/// The movement vector of the actor's control mode: a gamepad actor's is its
/// move stick (zero while the stick is not held), a keyboard actor's the sum
/// of its held direction keys.
pub fn movement_vector(
    stats: &PlayerStats,
    stick: Option<Point>,
    left: bool,
    right: bool,
    up: bool,
    down: bool,
) -> (r: Point)
    requires
        stick matches Some(s) ==> axis_ok(s),
    ensures
        stats.controller ==> r == match stick {
            Some(s) => s,
            None => Point { x: 0, y: 0 },
        },
        !stats.controller ==> r.x == (if right { AXIS_UNIT } else { 0 }) - (if left { AXIS_UNIT } else { 0 })
            && r.y == (if up { AXIS_UNIT } else { 0 }) - (if down { AXIS_UNIT } else { 0 }),
        axis_ok(r),
{
    if stats.controller {
        match stick {
            Some(s) => s,
            None => Point { x: 0, y: 0 },
        }
    } else {
        keyboard_direction(left, right, up, down)
    }
}

fn clamp_coordinate(c: i128) -> (r: i64)
    ensures
        r as int == clamp_world(c as int),
{
    if c > WORLD_EDGE as i128 {
        WORLD_EDGE
    } else if c < -(WORLD_EDGE as i128) {
        -WORLD_EDGE
    } else {
        c as i64
    }
}

fn travel_along(c: i64, speed: u32, dt: u32) -> (r: i128)
    requires
        -AXIS_UNIT <= c <= AXIS_UNIT,
    ensures
        r as int == travel(c as int, speed as int, dt as int),
        -0x1_0000_0000_0000_0000_0000 <= r <= 0x1_0000_0000_0000_0000_0000,
{
    let ci: i128 = c as i128;
    let si: i128 = speed as i128;
    let di: i128 = dt as i128;
    assert(-0x1_0000_0000_0000_0000_0000 <= ci * si * di <= 0x1_0000_0000_0000_0000_0000) by (nonlinear_arith)
        requires
            -1000 <= ci <= 1000,
            0 <= si <= 0xffff_ffff,
            0 <= di <= 0xffff_ffff,
    ;
    assert(-0x1_0000_0000_0000 <= ci * si <= 0x1_0000_0000_0000) by (nonlinear_arith)
        requires
            -1000 <= ci <= 1000,
            0 <= si <= 0xffff_ffff,
    ;
    let cs: i128 = ci * si;
    div_toward_zero(cs * di, 1_000_000_000u128)
}

/// One locomotion step of an actor: its facing becomes the one `direction`
/// selects, and unless `direction` is zero the actor moves along it, at most
/// at full speed, for `dt_micros` microseconds.
pub fn move_players(
    stats: &PlayerStats,
    direction: Point,
    dt_micros: u32,
    position: &mut Point,
    state: &mut PlayerState,
)
    requires
        axis_ok(direction),
        in_world(*old(position)),
    ensures
        *final(state) == facing(direction.x as int, direction.y as int),
        direction.x == 0 && direction.y == 0 ==> *final(position) == *old(position),
        !(direction.x == 0 && direction.y == 0) ==> final(position).x as int == moved(
            *old(position),
            direction,
            stats.speed as int,
            dt_micros as int,
        ).0 && final(position).y as int == moved(*old(position), direction, stats.speed as int, dt_micros as int).1,
        in_world(*final(position)),
{
    *state = classify(direction);
    if direction.x == 0 && direction.y == 0 {
        return;
    }
    let x: i64 = direction.x;
    let y: i64 = direction.y;
    assert(0 <= x * x <= 1_000_000 && 0 <= y * y <= 1_000_000) by (nonlinear_arith)
        requires
            -1000 <= x <= 1000,
            -1000 <= y <= 1000,
    ;
    let c: Point = if x * x + y * y <= AXIS_UNIT * AXIS_UNIT {
        direction
    } else {
        rescale(direction, AXIS_UNIT)
    };
    let dx: i128 = travel_along(c.x, stats.speed, dt_micros);
    let dy: i128 = travel_along(c.y, stats.speed, dt_micros);
    position.x = clamp_coordinate(position.x as i128 + dx);
    position.y = clamp_coordinate(position.y as i128 + dy);
}

} // verus!
