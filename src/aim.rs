//! Barrel pose of a weapon: where its barrel sits beside the actor, where it
//! points, and whether its sprite is mirrored.
//!
//! The barrel sits `barrel_height` steps to the left of the line from the gun
//! to the aim target. When the target then lies behind the barrel (more than a
//! right angle away from the x axis), the barrel moves to the other side of
//! that line and the pose is marked flipped.
use vstd::prelude::*;
use crate::geometry::{Point, in_world, rescaled, rescale, WORLD_EDGE, VECTOR_MAX};
use crate::locomotion::{PlayerStats, axis_ok};

verus! {

/// Distance ahead of a gamepad actor, in coordinate steps, at which its look
/// direction places the aim target.
pub const LOOK_DISTANCE: i64 = 30_000;

/// Mirroring of the weapon sprite.
#[derive(Clone, Copy, Debug, PartialEq, Eq, Structural)]
pub enum Flip {
    Normal,
    Horizontal,
}

/// The barrel of a weapon: its position, the vector from it to the aim target
/// (the direction in which it points), and the mirroring of the sprite.
#[derive(Clone, Copy, Debug, PartialEq, Eq, Structural)]
pub struct BarrelPose {
    pub position: Point,
    pub aim: Point,
    pub flip: Flip,
}

/// The point lies on the playing field or near enough to it to be aimed at.
pub open spec fn near_world(p: Point) -> bool {
    -2 * WORLD_EDGE <= p.x <= 2 * WORLD_EDGE && -2 * WORLD_EDGE <= p.y <= 2 * WORLD_EDGE
}

/// The offset of the barrel from the gun: the left perpendicular of the
/// direction toward the target, `height` steps long.
pub open spec fn barrel_offset(gun: Point, target: Point, height: int) -> (int, int) {
    rescaled(-(target.y - gun.y), target.x - gun.x, height)
}

/// Seen from the unflipped barrel, the target lies more than a right angle
/// away from the x axis.
pub open spec fn needs_flip(gun: Point, target: Point, height: int) -> bool {
    target.x - (gun.x + barrel_offset(gun, target, height).0) < 0
}

/// The barrel position after the flip correction.
pub open spec fn resolved_barrel(gun: Point, target: Point, height: int) -> (int, int) {
    let o = barrel_offset(gun, target, height);
    if needs_flip(gun, target, height) {
        (gun.x - o.0, gun.y - o.1)
    } else {
        (gun.x + o.0, gun.y + o.1)
    }
}

/// `pose` is the barrel pose for a gun at `gun` aiming at `target`.
pub open spec fn resolves_to(pose: BarrelPose, gun: Point, target: Point, height: int) -> bool {
    let b = resolved_barrel(gun, target, height);
    &&& pose.position.x == b.0
    &&& pose.position.y == b.1
    &&& pose.aim.x == target.x - b.0
    &&& pose.aim.y == target.y - b.1
    &&& pose.flip == (if needs_flip(gun, target, height) { Flip::Horizontal } else { Flip::Normal })
}

/// The pose for a gun and a target is unique.
pub proof fn lemma_resolves_to_unique(p1: BarrelPose, p2: BarrelPose, gun: Point, target: Point, height: int)
    requires
        resolves_to(p1, gun, target, height),
        resolves_to(p2, gun, target, height),
    ensures
        p1 == p2,
{
}

/// The flip correction is made once and settles. The pose is flipped exactly
/// when the target lies more than a right angle away from the x axis as seen
/// from the unflipped barrel; a flipped barrel is the unflipped one mirrored
/// through the gun; and aiming again at the same target, from whatever pose,
/// gives the same pose, so the pose cannot oscillate.
pub proof fn lemma_flip_settles(p1: BarrelPose, p2: BarrelPose, gun: Point, target: Point, height: int)
    requires
        resolves_to(p1, gun, target, height),
        resolves_to(p2, gun, target, height),
    ensures
        p1 == p2,
        (p1.flip == Flip::Horizontal) == needs_flip(gun, target, height),
        p1.flip == Flip::Horizontal ==> p1.position.x == 2 * gun.x - (gun.x + barrel_offset(gun, target, height).0)
            && p1.position.y == 2 * gun.y - (gun.y + barrel_offset(gun, target, height).1),
        p1.flip == Flip::Normal ==> p1.position.x == gun.x + barrel_offset(gun, target, height).0
            && p1.position.y == gun.y + barrel_offset(gun, target, height).1,
{
    lemma_resolves_to_unique(p1, p2, gun, target, height);
}

/// Points the barrel of a gun at `gun_pos` toward `cursor_position`. A target
/// on the gun itself gives no direction: the pose is then kept.
pub fn update_gun_angle(gun_pos: Point, cursor_position: Point, barrel_height: i64, pose: &mut BarrelPose)
    requires
        near_world(gun_pos),
        near_world(cursor_position),
        0 <= barrel_height <= WORLD_EDGE,
    ensures
        cursor_position == gun_pos ==> *final(pose) == *old(pose),
        cursor_position != gun_pos ==> resolves_to(*final(pose), gun_pos, cursor_position, barrel_height as int),
        cursor_position != gun_pos ==> pose_in_range(*final(pose)),
{
    if cursor_position == gun_pos {
        return;
    }
    let dx: i64 = cursor_position.x - gun_pos.x;
    let dy: i64 = cursor_position.y - gun_pos.y;
    let o: Point = rescale(Point { x: -dy, y: dx }, barrel_height);
    let mut position = Point { x: gun_pos.x + o.x, y: gun_pos.y + o.y };
    let mut aim = Point { x: cursor_position.x - position.x, y: cursor_position.y - position.y };
    let mut flip = Flip::Normal;
    if aim.x < 0 {
        position = Point { x: gun_pos.x - o.x, y: gun_pos.y - o.y };
        aim = Point { x: cursor_position.x - position.x, y: cursor_position.y - position.y };
        flip = Flip::Horizontal;
    }
    *pose = BarrelPose { position, aim, flip };
}

/// `new` is the pose `old` carried along to a gun at `gun` for a tick without
/// an aim target: the aim and the flip are kept, and the barrel is rebuilt
/// `height` steps to the left of the kept aim (to the right when flipped).
pub open spec fn carried_to(new: BarrelPose, old: BarrelPose, gun: Point, height: int) -> bool {
    let o = rescaled(-(old.aim.y as int), old.aim.x as int, height);
    &&& new.aim == old.aim
    &&& new.flip == old.flip
    &&& old.flip == Flip::Normal ==> new.position.x == gun.x + o.0 && new.position.y == gun.y + o.1
    &&& old.flip == Flip::Horizontal ==> new.position.x == gun.x - o.0 && new.position.y == gun.y - o.1
}

/// Keeps the aim and the flip of the pose and rebuilds its barrel around the
/// gun's current position.
pub fn carry_pose(gun_pos: Point, barrel_height: i64, pose: &mut BarrelPose)
    requires
        near_world(gun_pos),
        pose_in_range(*old(pose)),
        0 <= barrel_height <= WORLD_EDGE,
    ensures
        carried_to(*final(pose), *old(pose), gun_pos, barrel_height as int),
        pose_in_range(*final(pose)),
{
    let o: Point = rescale(Point { x: -pose.aim.y, y: pose.aim.x }, barrel_height);
    pose.position = match pose.flip {
        Flip::Normal => Point { x: gun_pos.x + o.x, y: gun_pos.y + o.y },
        Flip::Horizontal => Point { x: gun_pos.x - o.x, y: gun_pos.y - o.y },
    };
}

/// The muzzle of the barrel: `barrel_length` steps from the barrel position
/// along its aim. A pose with a zero aim has its muzzle at the barrel.
pub open spec fn muzzle(pose: BarrelPose, barrel_length: int) -> (int, int) {
    if pose.aim.x == 0 && pose.aim.y == 0 {
        (pose.position.x as int, pose.position.y as int)
    } else {
        let d = rescaled(pose.aim.x as int, pose.aim.y as int, barrel_length);
        (pose.position.x + d.0, pose.position.y + d.1)
    }
}

/// A pose that `update_gun_angle` can produce from points near the field.
pub open spec fn pose_in_range(pose: BarrelPose) -> bool {
    &&& -3 * WORLD_EDGE <= pose.position.x <= 3 * WORLD_EDGE
    &&& -3 * WORLD_EDGE <= pose.position.y <= 3 * WORLD_EDGE
    &&& -VECTOR_MAX <= pose.aim.x <= VECTOR_MAX
    &&& -VECTOR_MAX <= pose.aim.y <= VECTOR_MAX
}

/// A muzzle position that `barrel_end` can produce.
pub open spec fn muzzle_in_range(p: Point) -> bool {
    -4 * WORLD_EDGE <= p.x <= 4 * WORLD_EDGE && -4 * WORLD_EDGE <= p.y <= 4 * WORLD_EDGE
}

/// Where projectiles leave the barrel.
pub fn barrel_end(pose: &BarrelPose, barrel_length: i64) -> (r: Point)
    requires
        pose_in_range(*pose),
        0 <= barrel_length <= WORLD_EDGE,
    ensures
        r.x as int == muzzle(*pose, barrel_length as int).0,
        r.y as int == muzzle(*pose, barrel_length as int).1,
        muzzle_in_range(r),
{
    if pose.aim.x == 0 && pose.aim.y == 0 {
        return pose.position;
    }
    let d: Point = rescale(pose.aim, barrel_length);
    Point { x: pose.position.x + d.x, y: pose.position.y + d.y }
}

/// The aim target of an actor: a gamepad actor aims `LOOK_DISTANCE` steps
/// ahead along its look stick when that stick is held off centre, a keyboard
/// actor at the mouse's position in the world.
pub open spec fn cursor_for(stats: PlayerStats, look: Option<Point>, mouse_world: Option<Point>, player_pos: Point) -> Option<Point> {
    if !stats.controller {
        mouse_world
    } else {
        match look {
            Some(l) => if l.x == 0 && l.y == 0 {
                None
            } else {
                let d = rescaled(l.x as int, l.y as int, LOOK_DISTANCE as int);
                Some(Point { x: (player_pos.x + d.0) as i64, y: (player_pos.y + d.1) as i64 })
            },
            None => None,
        }
    }
}

/// The aim target of an actor, if it has one this tick (see `cursor_for`).
pub fn calculate_cursor_position(
    stats: &PlayerStats,
    look: Option<Point>,
    mouse_world: Option<Point>,
    player_pos: Point,
) -> (r: Option<Point>)
    requires
        in_world(player_pos),
        look matches Some(l) ==> axis_ok(l),
    ensures
        r == cursor_for(*stats, look, mouse_world, player_pos),
        stats.controller ==> (r matches Some(t) ==> near_world(t)),
{
    if !stats.controller {
        return mouse_world;
    }
    match look {
        Some(l) => {
            if l.x == 0 && l.y == 0 {
                None
            } else {
                let d: Point = rescale(l, LOOK_DISTANCE);
                Some(Point { x: player_pos.x + d.x, y: player_pos.y + d.y })
            }
        },
        None => None,
    }
}

} // verus!
