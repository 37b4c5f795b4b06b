//! One simulation tick of an actor, its stages in their fixed order:
//! locomotion, aim, firing, then projectile flight. Each stage reads what the
//! stage before it committed in the same tick.
use vstd::prelude::*;
use crate::geometry::{Point, in_world};
use crate::locomotion::{PlayerState, PlayerStats, facing, moved, axis_ok, move_players};
use crate::aim::{BarrelPose, near_world, pose_in_range, muzzle, resolves_to, carried_to, cursor_for, calculate_cursor_position};
use crate::weapon::{GunStats, gun_wf, stepped, fires, is_shot, trigger_of, shooting_system};
use crate::bullets::{BulletBundle, advanced, spent, bullet_wf, move_bullets, retire_spent};

verus! {

/// What the input devices report for one tick.
#[derive(Clone, Copy, Debug, PartialEq, Eq, Structural)]
pub struct TickInput {
    /// Movement vector, each coordinate within one axis unit.
    pub direction: Point,
    /// Look stick of a gamepad actor, when it is held.
    pub look: Option<Point>,
    /// World position under the mouse, when the camera can project it.
    pub mouse_world: Option<Point>,
    /// Primary trigger of a keyboard and mouse actor.
    pub shoot: bool,
    /// Trigger button of a gamepad actor.
    pub controller_shoot: bool,
}

/// An actor and what it owns.
#[derive(Clone, Copy, Debug, PartialEq, Eq, Structural)]
pub struct Actor {
    pub stats: PlayerStats,
    pub position: Point,
    pub state: PlayerState,
    pub gun: GunStats,
    pub pose: BarrelPose,
}

/// The actor's state is one that ticks keep.
pub open spec fn actor_wf(a: Actor) -> bool {
    in_world(a.position) && gun_wf(a.gun) && pose_in_range(a.pose)
}

/// The input is one that the devices can report.
pub open spec fn input_ok(i: TickInput) -> bool {
    &&& axis_ok(i.direction)
    &&& (i.look matches Some(l) ==> axis_ok(l))
    &&& (i.mouse_world matches Some(m) ==> near_world(m))
}

/// Where the actor stands after the locomotion stage.
pub open spec fn position_after(a: Actor, i: TickInput, dt: int) -> Point {
    if i.direction.x == 0 && i.direction.y == 0 {
        a.position
    } else {
        let m = moved(a.position, i.direction, a.stats.speed as int, dt);
        Point { x: m.0 as i64, y: m.1 as i64 }
    }
}

/// The projectiles in flight, advanced by `dt` microseconds.
pub open spec fn flown(bullets: Seq<BulletBundle>, dt: int) -> Seq<BulletBundle> {
    Seq::new(bullets.len(), |k: int| advanced(bullets[k], dt))
}

/// One tick of `dt_micros` microseconds for an actor and the projectiles in
/// flight. The actor moves and takes its facing; its barrel aims at the
/// target of its control mode, from where it now stands (without a target it
/// keeps its aim and flip, and its barrel follows the actor); its weapon's clock
/// advances and the held trigger asks for a shot from the muzzle. The
/// projectiles already in flight advance and those spent are removed; the
/// new shot's projectiles follow them, at the muzzle.
pub fn simulate_tick(actor: &mut Actor, input: &TickInput, dt_micros: u32, bullets: &mut Vec<BulletBundle>)
    requires
        actor_wf(*old(actor)),
        input_ok(*input),
        forall|k: int| 0 <= k < old(bullets)@.len() ==> bullet_wf(#[trigger] old(bullets)@[k]),
    ensures
        actor_wf(*final(actor)),
        forall|k: int| 0 <= k < final(bullets)@.len() ==> bullet_wf(#[trigger] final(bullets)@[k]),
        final(actor).stats == old(actor).stats,
        final(actor).state == facing(input.direction.x as int, input.direction.y as int),
        final(actor).position == position_after(*old(actor), *input, dt_micros as int),
        match cursor_for(old(actor).stats, input.look, input.mouse_world, final(actor).position) {
            Some(c) => if c != final(actor).position {
                resolves_to(final(actor).pose, final(actor).position, c, old(actor).gun.barrel_height as int)
            } else {
                carried_to(final(actor).pose, old(actor).pose, final(actor).position, old(actor).gun.barrel_height as int)
            },
            None => carried_to(final(actor).pose, old(actor).pose, final(actor).position, old(actor).gun.barrel_height as int),
        },
        final(actor).gun == stepped(
            old(actor).gun,
            trigger_of(old(actor).stats, input.shoot, input.controller_shoot),
            dt_micros as int,
        ),
        ({
            let kept = flown(old(bullets)@, dt_micros as int).filter(|b: BulletBundle| !spent(b));
            let shot = final(bullets)@.subrange(kept.len() as int, final(bullets)@.len() as int);
            &&& kept.len() <= final(bullets)@.len()
            &&& final(bullets)@.subrange(0, kept.len() as int) == kept
            &&& fires(old(actor).gun, trigger_of(old(actor).stats, input.shoot, input.controller_shoot), dt_micros as int)
                ==> is_shot(
                shot,
                old(actor).gun,
                Point {
                    x: muzzle(final(actor).pose, old(actor).gun.barrel_length as int).0 as i64,
                    y: muzzle(final(actor).pose, old(actor).gun.barrel_length as int).1 as i64,
                },
                final(actor).pose.aim,
            )
            &&& !fires(old(actor).gun, trigger_of(old(actor).stats, input.shoot, input.controller_shoot), dt_micros as int)
                ==> shot.len() == 0
        }),
{
    let stats: PlayerStats = actor.stats;
    move_players(&stats, input.direction, dt_micros, &mut actor.position, &mut actor.state);
    let cursor: Option<Point> = calculate_cursor_position(&stats, input.look, input.mouse_world, actor.position);
    proof {
        assert(near_world(actor.position));
    }
    let shot: Vec<BulletBundle> = shooting_system(
        &stats,
        actor.position,
        cursor,
        input.shoot,
        input.controller_shoot,
        dt_micros as u64,
        &mut actor.gun,
        &mut actor.pose,
    );
    let ghost before = bullets@;
    move_bullets(bullets, dt_micros as u64);
    assert(bullets@ =~= flown(before, dt_micros as int));
    retire_spent(bullets);
    let ghost kept = bullets@;
    let mut i: usize = 0;
    while i < shot.len()
        invariant
            0 <= i <= shot@.len(),
            bullets@ == kept + shot@.subrange(0, i as int),
            forall|k: int| 0 <= k < kept.len() ==> bullet_wf(#[trigger] kept[k]),
            forall|k: int| 0 <= k < shot@.len() ==> bullet_wf(#[trigger] shot@[k]),
        decreases shot@.len() - i,
    {
        bullets.push(shot[i]);
        i = i + 1;
        assert(bullets@ =~= kept + shot@.subrange(0, i as int));
    }
    assert(bullets@.subrange(0, kept.len() as int) =~= kept);
    assert forall|k: int| 0 <= k < bullets@.len() implies bullet_wf(#[trigger] bullets@[k]) by {
        if k < kept.len() {
            assert(bullets@[k] == kept[k]);
        } else {
            assert(bullets@[k] == shot@[k - kept.len()]);
        }
    }
    assert(bullets@.subrange(kept.len() as int, bullets@.len() as int) =~= shot@);
}

} // verus!
