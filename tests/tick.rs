use topdown_combat::aim::{BarrelPose, Flip};
use topdown_combat::bullets::BulletBundle;
use topdown_combat::geometry::Point;
use topdown_combat::locomotion::{keyboard_direction, PlayerState, PlayerStats};
use topdown_combat::tick::{simulate_tick, Actor, TickInput};
use topdown_combat::weapon::{GunStats, ShotPattern};

fn p(x: i64, y: i64) -> Point {
    Point { x, y }
}

fn marine(controller: bool) -> Actor {
    Actor {
        stats: PlayerStats { speed: 50_000, controller },
        position: p(0, 0),
        state: PlayerState::Idle,
        gun: GunStats {
            barrel_height: 2_000,
            barrel_length: 5_000,
            cooldown_micros: 250_000,
            elapsed_micros: 0,
            pattern: ShotPattern::Single,
            bullet_spread: 500,
            bullet_distance: 15_000,
            bullet_speed: 30_000,
        },
        pose: BarrelPose { position: p(0, 0), aim: p(1, 0), flip: Flip::Normal },
    }
}

fn idle_input() -> TickInput {
    TickInput { direction: p(0, 0), look: None, mouse_world: None, shoot: false, controller_shoot: false }
}

#[test]
fn walking_up_for_one_second() {
    let mut a = marine(false);
    let mut bullets: Vec<BulletBundle> = Vec::new();
    let input = TickInput { direction: keyboard_direction(false, false, true, false), ..idle_input() };
    simulate_tick(&mut a, &input, 1_000_000, &mut bullets);
    assert_eq!(a.position, p(0, 50_000));
    assert_eq!(a.state, PlayerState::Back);
    // no target: aim and flip kept, barrel rebuilt beside the moved actor
    assert_eq!(a.pose.aim, marine(false).pose.aim);
    assert_eq!(a.pose.flip, Flip::Normal);
    assert_eq!(a.pose.position, p(0, 52_000));
}

#[test]
fn aiming_ahead_end_to_end() {
    let mut a = marine(false);
    let mut bullets: Vec<BulletBundle> = Vec::new();
    let input = TickInput { mouse_world: Some(p(10_000, 0)), ..idle_input() };
    simulate_tick(&mut a, &input, 16_000, &mut bullets);
    assert_eq!(a.pose.position, p(0, 2_000));
    assert_eq!(a.pose.aim, p(10_000, -2_000));
    assert_eq!(a.pose.flip, Flip::Normal);
    let degrees = (a.pose.aim.y as f64).atan2(a.pose.aim.x as f64).to_degrees();
    assert!((degrees + 11.31).abs() < 0.01);
    assert!(bullets.is_empty());
}

#[test]
fn aiming_behind_end_to_end() {
    let mut a = marine(false);
    let mut bullets: Vec<BulletBundle> = Vec::new();
    let input = TickInput { mouse_world: Some(p(-10_000, 0)), ..idle_input() };
    simulate_tick(&mut a, &input, 16_000, &mut bullets);
    assert_eq!(a.pose.flip, Flip::Horizontal);
}

#[test]
fn gamepad_look_and_fire() {
    let mut a = marine(true);
    let mut bullets: Vec<BulletBundle> = Vec::new();
    let input = TickInput {
        look: Some(p(1_000, 0)),
        mouse_world: Some(p(-10_000, 0)),
        shoot: true,
        controller_shoot: true,
        ..idle_input()
    };
    simulate_tick(&mut a, &input, 300_000, &mut bullets);
    // target 30 units to the right
    assert_eq!(a.pose.position, p(0, 2_000));
    assert_eq!(a.pose.aim, p(30_000, -2_000));
    assert_eq!(bullets.len(), 1);
    assert_eq!(bullets[0].age_micros, 0);
    assert_eq!(a.gun.elapsed_micros, 0);
    // next tick: the bullet flies, no second shot within the cooldown
    simulate_tick(&mut a, &input, 100_000, &mut bullets);
    assert_eq!(bullets.len(), 1);
    assert_eq!(bullets[0].age_micros, 100_000);
    assert_eq!(a.gun.elapsed_micros, 100_000);
}

#[test]
fn spent_projectiles_are_removed() {
    let mut a = marine(false);
    let mut bullets = vec![BulletBundle::marine_bullet(p(0, 0), p(65_536, 0))];
    simulate_tick(&mut a, &idle_input(), 400_000, &mut bullets);
    assert_eq!(bullets.len(), 1);
    simulate_tick(&mut a, &idle_input(), 100_000, &mut bullets);
    assert!(bullets.is_empty());
}
