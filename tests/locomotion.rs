use topdown_combat::geometry::Point;
use topdown_combat::locomotion::{classify, keyboard_direction, movement_vector, move_players, PlayerState, PlayerStats, AXIS_UNIT};

fn p(x: i64, y: i64) -> Point {
    Point { x, y }
}

#[test]
fn zero_vector_is_idle() {
    assert_eq!(classify(p(0, 0)), PlayerState::Idle);
    let stats = PlayerStats { speed: 50_000, controller: false };
    let mut pos = p(7, -3);
    let mut state = PlayerState::Back;
    move_players(&stats, p(0, 0), 1_000_000, &mut pos, &mut state);
    assert_eq!(state, PlayerState::Idle);
    assert_eq!(pos, p(7, -3));
}

#[test]
fn principal_directions() {
    assert_eq!(classify(p(0, -1)), PlayerState::Front);
    assert_eq!(classify(p(0, 1)), PlayerState::Back);
    assert_eq!(classify(p(1, 0)), PlayerState::RightFront);
    // exactly 90 degrees is the lower bound of the next sector
    assert_eq!(classify(p(-1, 0)), PlayerState::LeftBack);
    assert_eq!(classify(p(-1, -1)), PlayerState::LeftFront);
    assert_eq!(classify(p(-1, 1)), PlayerState::LeftBack);
    assert_eq!(classify(p(1, 1)), PlayerState::RightBack);
    assert_eq!(classify(p(1, -1)), PlayerState::RightFront);
    assert_eq!(classify(p(-3, 1)), PlayerState::LeftBack);
    assert_eq!(classify(p(3, 1)), PlayerState::RightBack);
}

#[test]
fn sector_boundary_at_thirty_degrees() {
    // tan(30 deg) = 0.57735; 1000/1732 is just above it, 1000/1733 just below
    assert_eq!(classify(p(-1000, -1732)), PlayerState::LeftFront);
    assert_eq!(classify(p(-1000, -1733)), PlayerState::Front);
    // the same on the right-hand side, around 330 degrees
    assert_eq!(classify(p(1000, -1732)), PlayerState::RightFront);
    assert_eq!(classify(p(1000, -1733)), PlayerState::Front);
}

#[test]
fn classify_ignores_scale() {
    let dirs = [(3, -7), (-5, 2), (1, 1), (-1000, -1732), (0, 4), (9, 0)];
    for (x, y) in dirs {
        let base = classify(p(x, y));
        for k in [2i64, 3, 1000, 1_000_000] {
            assert_eq!(classify(p(k * x, k * y)), base);
        }
    }
}

#[test]
fn extreme_coordinates_classify() {
    assert_eq!(classify(p(i64::MIN, 0)), PlayerState::LeftBack);
    assert_eq!(classify(p(i64::MAX, i64::MIN)), PlayerState::RightFront);
    assert_eq!(classify(p(0, i64::MIN)), PlayerState::Front);
}

#[test]
fn keyboard_keys_add_up() {
    assert_eq!(keyboard_direction(false, false, true, false), p(0, AXIS_UNIT));
    assert_eq!(keyboard_direction(true, true, false, false), p(0, 0));
    assert_eq!(keyboard_direction(true, false, false, true), p(-AXIS_UNIT, -AXIS_UNIT));
}

#[test]
fn one_second_up_at_speed_fifty() {
    let stats = PlayerStats { speed: 50_000, controller: false };
    let mut pos = p(0, 0);
    let mut state = PlayerState::Idle;
    let dir = keyboard_direction(false, false, true, false);
    move_players(&stats, dir, 1_000_000, &mut pos, &mut state);
    assert_eq!(pos, p(0, 50_000));
    assert_eq!(state, PlayerState::Back);
}

#[test]
fn diagonal_is_clamped_to_unit_length() {
    let stats = PlayerStats { speed: 1_000_000, controller: false };
    let mut pos = p(0, 0);
    let mut state = PlayerState::Idle;
    let dir = keyboard_direction(false, true, true, false);
    move_players(&stats, dir, 1_000_000, &mut pos, &mut state);
    // (1000, 1000) has length 1414; rescaled to 1000 it is (707, 707)
    assert_eq!(pos, p(707_000, 707_000));
    assert_eq!(state, PlayerState::RightBack);
}

#[test]
fn short_analog_vector_keeps_its_length() {
    let stats = PlayerStats { speed: 10_000, controller: true };
    let mut pos = p(100, 100);
    let mut state = PlayerState::Idle;
    move_players(&stats, p(500, 0), 500_000, &mut pos, &mut state);
    assert_eq!(pos, p(2_600, 100));
    assert_eq!(state, PlayerState::RightFront);
}

#[test]
fn movement_stops_at_world_edge() {
    let edge = topdown_combat::geometry::WORLD_EDGE;
    let stats = PlayerStats { speed: u32::MAX, controller: false };
    let mut pos = p(edge - 10, 0);
    let mut state = PlayerState::Idle;
    move_players(&stats, p(AXIS_UNIT, 0), u32::MAX, &mut pos, &mut state);
    assert_eq!(pos, p(edge, 0));
}

#[test]
fn actor_starts_idle() {
    assert_eq!(PlayerState::default(), PlayerState::Idle);
}

#[test]
fn movement_vector_follows_control_mode() {
    let pad = PlayerStats { speed: 1, controller: true };
    let kb = PlayerStats { speed: 1, controller: false };
    assert_eq!(movement_vector(&pad, Some(p(300, -400)), true, false, false, false), p(300, -400));
    assert_eq!(movement_vector(&pad, None, true, false, true, false), p(0, 0));
    assert_eq!(movement_vector(&kb, Some(p(300, -400)), true, false, true, false), p(-AXIS_UNIT, AXIS_UNIT));
    assert_eq!(movement_vector(&kb, None, false, false, false, false), p(0, 0));
}
