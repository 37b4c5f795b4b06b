use topdown_combat::aim::{barrel_end, calculate_cursor_position, carry_pose, update_gun_angle, BarrelPose, Flip, LOOK_DISTANCE};
use topdown_combat::geometry::{isqrt, rescale, Point};
use topdown_combat::locomotion::PlayerStats;

fn p(x: i64, y: i64) -> Point {
    Point { x, y }
}

fn start_pose() -> BarrelPose {
    BarrelPose { position: p(1, 2), aim: p(3, 4), flip: Flip::Normal }
}

#[test]
fn target_ahead_is_not_flipped() {
    let mut pose = start_pose();
    update_gun_angle(p(0, 0), p(10_000, 0), 2_000, &mut pose);
    assert_eq!(pose.position, p(0, 2_000));
    assert_eq!(pose.aim, p(10_000, -2_000));
    assert_eq!(pose.flip, Flip::Normal);
    let degrees = (pose.aim.y as f64).atan2(pose.aim.x as f64).to_degrees();
    assert!((degrees - (-11.31)).abs() < 0.01);
}

#[test]
fn target_behind_is_flipped() {
    let mut pose = start_pose();
    update_gun_angle(p(0, 0), p(-10_000, 0), 2_000, &mut pose);
    assert_eq!(pose.flip, Flip::Horizontal);
    assert_eq!(pose.position, p(0, 2_000));
    assert_eq!(pose.aim, p(-10_000, -2_000));
}

#[test]
fn flipped_barrel_mirrors_through_gun() {
    let mut pose = start_pose();
    update_gun_angle(p(100, 100), p(90, 70), 2_000, &mut pose);
    assert_eq!(pose.flip, Flip::Horizontal);
    // direction (-10, -30), length 31.62; left perpendicular (30, -10) * 2000 / 31.62
    assert_eq!(pose.position, p(100 - 1897, 100 + 632));
    assert_eq!(pose.aim, p(90 - (100 - 1897), 70 - (100 + 632)));
}

#[test]
fn aiming_again_gives_same_pose() {
    let mut pose = start_pose();
    update_gun_angle(p(5, 5), p(-300, 40), 700, &mut pose);
    let first = pose;
    update_gun_angle(p(5, 5), p(-300, 40), 700, &mut pose);
    assert_eq!(pose, first);
}

#[test]
fn target_on_gun_keeps_pose() {
    let mut pose = start_pose();
    update_gun_angle(p(4, 4), p(4, 4), 2_000, &mut pose);
    assert_eq!(pose, start_pose());
}

#[test]
fn muzzle_is_barrel_length_along_aim() {
    let pose = BarrelPose { position: p(0, 2_000), aim: p(10_000, -2_000), flip: Flip::Normal };
    // length of (10000, -2000) is 10198
    assert_eq!(barrel_end(&pose, 5_000), p(4_902, 2_000 - 980));
    let still = BarrelPose { position: p(3, 3), aim: p(0, 0), flip: Flip::Normal };
    assert_eq!(barrel_end(&still, 5_000), p(3, 3));
}

#[test]
fn controller_aims_ahead_along_look_stick() {
    let pad = PlayerStats { speed: 1, controller: true };
    let r = calculate_cursor_position(&pad, Some(p(0, 1000)), Some(p(9, 9)), p(10, 10));
    assert_eq!(r, Some(p(10, 10 + LOOK_DISTANCE)));
    assert_eq!(calculate_cursor_position(&pad, Some(p(0, 0)), None, p(10, 10)), None);
    assert_eq!(calculate_cursor_position(&pad, None, Some(p(9, 9)), p(10, 10)), None);
}

#[test]
fn mouse_actor_aims_at_mouse() {
    let kb = PlayerStats { speed: 1, controller: false };
    assert_eq!(calculate_cursor_position(&kb, Some(p(0, 1000)), Some(p(9, 9)), p(10, 10)), Some(p(9, 9)));
    assert_eq!(calculate_cursor_position(&kb, None, None, p(10, 10)), None);
}

#[test]
fn integer_square_root() {
    assert_eq!(isqrt(0), 0);
    assert_eq!(isqrt(1), 1);
    assert_eq!(isqrt(15), 3);
    assert_eq!(isqrt(16), 4);
    assert_eq!(isqrt(1_000_000_000_000_000_000_000_000_000_000), 1_000_000_000_000_000);
}

#[test]
fn rescale_rounds_toward_zero() {
    assert_eq!(rescale(p(3, -4), 10), p(6, -8));
    assert_eq!(rescale(p(-1, -1), 10), p(-7, -7));
    assert_eq!(rescale(p(1, 1), 30_000), p(21_213, 21_213));
    assert_eq!(rescale(p(0, 0), 10), p(0, 0));
}

#[test]
fn short_look_stick_aims_thirty_units_ahead() {
    let pad = PlayerStats { speed: 1, controller: true };
    let r = calculate_cursor_position(&pad, Some(p(1, 1)), None, p(0, 0));
    assert_eq!(r, Some(p(21_213, 21_213)));
}

#[test]
fn barrel_follows_gun_without_target() {
    let mut pose = BarrelPose { position: p(0, 2_000), aim: p(10_000, -2_000), flip: Flip::Normal };
    carry_pose(p(500, 0), 2_000, &mut pose);
    // left perpendicular of the kept aim, (2000, 10000), scaled to 2000
    assert_eq!(pose.position, p(500 + 392, 1_961));
    assert_eq!(pose.aim, p(10_000, -2_000));
    assert_eq!(pose.flip, Flip::Normal);
    let mut flipped = BarrelPose { position: p(0, 2_000), aim: p(-10_000, -2_000), flip: Flip::Horizontal };
    carry_pose(p(0, 0), 2_000, &mut flipped);
    assert_eq!(flipped.position, p(-392, 1_961));
    assert_eq!(flipped.flip, Flip::Horizontal);
}
