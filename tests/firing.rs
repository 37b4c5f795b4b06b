use topdown_combat::aim::{BarrelPose, Flip};
use topdown_combat::bullets::{move_bullets, BulletBundle, DIR_UNIT, MAX_FLIGHT_MICROS};
use topdown_combat::geometry::Point;
use topdown_combat::locomotion::PlayerStats;
use topdown_combat::weapon::{fire, shooting_system, tick_cooldown, trigger_held, GunStats, ShotPattern};

fn p(x: i64, y: i64) -> Point {
    Point { x, y }
}

fn rifle() -> GunStats {
    GunStats {
        barrel_height: 2_000,
        barrel_length: 5_000,
        cooldown_micros: 250_000,
        elapsed_micros: 0,
        pattern: ShotPattern::Single,
        bullet_spread: 500,
        bullet_distance: 15_000,
        bullet_speed: 30_000,
    }
}

fn pose() -> BarrelPose {
    BarrelPose { position: p(0, 0), aim: p(1, 0), flip: Flip::Normal }
}

#[test]
fn clock_advances_every_tick() {
    let mut g = rifle();
    tick_cooldown(&mut g, 10);
    assert_eq!(g.elapsed_micros, 10);
    tick_cooldown(&mut g, 5);
    assert_eq!(g.elapsed_micros, 15);
    g.elapsed_micros = u64::MAX - 1;
    tick_cooldown(&mut g, 5);
    assert_eq!(g.elapsed_micros, u64::MAX);
}

#[test]
fn trigger_follows_control_mode() {
    let kb = PlayerStats { speed: 1, controller: false };
    let pad = PlayerStats { speed: 1, controller: true };
    assert!(trigger_held(&kb, true, false));
    assert!(!trigger_held(&kb, false, true));
    assert!(trigger_held(&pad, false, true));
    assert!(!trigger_held(&pad, true, false));
}

#[test]
fn second_shot_within_cooldown_is_refused() {
    let stats = PlayerStats { speed: 1, controller: false };
    let mut g = rifle();
    let mut pose = pose();
    let first = shooting_system(&stats, p(0, 0), Some(p(10_000, 0)), true, false, 300_000, &mut g, &mut pose);
    assert_eq!(first.len(), 1);
    assert_eq!(g.elapsed_micros, 0);
    let second = shooting_system(&stats, p(0, 0), Some(p(10_000, 0)), true, false, 100_000, &mut g, &mut pose);
    assert_eq!(second.len(), 0);
    assert_eq!(g.elapsed_micros, 100_000);
    let third = shooting_system(&stats, p(0, 0), None, true, false, 150_000, &mut g, &mut pose);
    assert_eq!(third.len(), 1);
    assert_eq!(g.elapsed_micros, 0);
}

#[test]
fn clock_runs_while_trigger_released() {
    let stats = PlayerStats { speed: 1, controller: false };
    let mut g = rifle();
    let mut pose = pose();
    let r = shooting_system(&stats, p(0, 0), None, false, true, 400_000, &mut g, &mut pose);
    assert_eq!(r.len(), 0);
    assert_eq!(g.elapsed_micros, 400_000);
}

#[test]
fn shot_leaves_from_muzzle_along_aim() {
    let stats = PlayerStats { speed: 1, controller: false };
    let mut g = rifle();
    let mut pose = pose();
    let r = shooting_system(&stats, p(0, 0), Some(p(10_000, 0)), true, false, 300_000, &mut g, &mut pose);
    assert_eq!(pose.position, p(0, 2_000));
    assert_eq!(r[0].origin, p(4_902, 1_020));
    assert_eq!(r[0].position, r[0].origin);
    // heading (10000, -2000) rescaled to 65536
    assert_eq!(r[0].stats.heading, p(64_263, -12_852));
    assert_eq!(r[0].stats.speed, 30_000);
    assert_eq!(r[0].stats.distance, 15_000);
}

#[test]
fn spread_fans_pellets_about_aim() {
    let mut g = rifle();
    g.pattern = ShotPattern::Spread { pellets: 3 };
    g.elapsed_micros = g.cooldown_micros;
    let r = fire(&mut g, p(0, 0), p(1_000, 0));
    assert_eq!(r.len(), 3);
    // offsets of -2, 0 and 2 half spacings of 500/1000: directions (1000, -1000), (1000, 0), (1000, 1000)
    assert_eq!(r[0].stats.heading, p(46_340, -46_340));
    assert_eq!(r[1].stats.heading, p(DIR_UNIT, 0));
    assert_eq!(r[2].stats.heading, p(46_340, 46_340));
    assert_eq!(g.elapsed_micros, 0);
}

#[test]
fn fire_during_cooldown_changes_nothing() {
    let mut g = rifle();
    g.elapsed_micros = 10;
    let before = g;
    let r = fire(&mut g, p(0, 0), p(1, 0));
    assert!(r.is_empty());
    assert_eq!(g, before);
}

#[test]
fn marine_bullet_profile() {
    let b = BulletBundle::marine_bullet(p(3, 4), p(DIR_UNIT, 0));
    assert_eq!(b.origin, p(3, 4));
    assert_eq!(b.position, p(3, 4));
    assert_eq!(b.age_micros, 0);
    assert_eq!(b.stats.spread, 500);
    assert_eq!(b.stats.distance, 15_000);
    assert_eq!(b.stats.speed, 30_000);
}

#[test]
fn bullet_flies_in_straight_line() {
    let mut b = BulletBundle::marine_bullet(p(100, 200), p(DIR_UNIT, 0));
    b.advance(1_000_000);
    assert_eq!(b.position, p(30_100, 200));
    let mut c = BulletBundle::marine_bullet(p(100, 200), p(0, -DIR_UNIT));
    c.advance(250_000);
    assert_eq!(c.position, p(100, 200 - 7_500));
}

#[test]
fn flight_does_not_depend_on_tick_split() {
    let heading = p(40_000, -51_909);
    let mut once = BulletBundle::marine_bullet(p(0, 0), heading);
    once.advance(700_001);
    let mut split = BulletBundle::marine_bullet(p(0, 0), heading);
    split.advance(300_000);
    split.advance(200_000);
    split.advance(200_001);
    assert_eq!(once, split);
}

#[test]
fn bullet_is_spent_after_its_range() {
    let mut b = BulletBundle::marine_bullet(p(0, 0), p(DIR_UNIT, 0));
    b.advance(499_999);
    assert!(!b.is_spent());
    b.advance(1);
    assert!(b.is_spent());
}

#[test]
fn flight_time_stops_at_cap() {
    let mut b = BulletBundle::marine_bullet(p(0, 0), p(DIR_UNIT, 0));
    b.stats.distance = u64::MAX;
    b.advance(MAX_FLIGHT_MICROS - 1);
    assert!(!b.is_spent());
    b.advance(u64::MAX);
    assert_eq!(b.age_micros, MAX_FLIGHT_MICROS);
    assert!(b.is_spent());
    let mut v = vec![b];
    topdown_combat::bullets::retire_spent(&mut v);
    assert!(v.is_empty());
}

#[test]
fn move_bullets_advances_each() {
    let mut v = vec![
        BulletBundle::marine_bullet(p(0, 0), p(DIR_UNIT, 0)),
        BulletBundle::marine_bullet(p(5, 5), p(0, DIR_UNIT)),
    ];
    move_bullets(&mut v, 100_000);
    assert_eq!(v[0].position, p(3_000, 0));
    assert_eq!(v[1].position, p(5, 3_005));
}

#[test]
fn retire_spent_keeps_live_in_order() {
    let mut a = BulletBundle::marine_bullet(p(0, 0), p(DIR_UNIT, 0));
    let mut b = BulletBundle::marine_bullet(p(1, 1), p(DIR_UNIT, 0));
    let c = BulletBundle::marine_bullet(p(2, 2), p(DIR_UNIT, 0));
    a.advance(100_000);
    b.advance(600_000);
    let mut v = vec![a, b, c];
    topdown_combat::bullets::retire_spent(&mut v);
    assert_eq!(v, vec![a, c]);
    let mut empty: Vec<BulletBundle> = Vec::new();
    topdown_combat::bullets::retire_spent(&mut empty);
    assert!(empty.is_empty());
}
