use arena_core::collision::{apply_clamp, block_movement, AxisClamp, Collision};
use arena_core::movement::{handle_input, Controls, Heading, Sign};
use arena_core::timer::Timer;

fn h(x: Sign, y: Sign) -> Heading {
    Heading { x, y }
}

#[test]
fn one_shot_timer_stops_at_its_duration() {
    let mut t = Timer::new(500, false);
    t.tick(300);
    assert!(!t.finished());
    assert_eq!(t.elapsed, 300);
    t.tick(300);
    assert!(t.finished());
    assert_eq!(t.elapsed, 500);
    t.tick(300);
    assert!(t.finished());
    assert_eq!(t.elapsed, 500);
}

#[test]
fn repeating_timer_wraps() {
    let mut t = Timer::new(500, true);
    t.tick(1200);
    assert!(t.finished());
    assert_eq!(t.elapsed, 200);
    t.tick(100);
    assert!(!t.finished());
    assert_eq!(t.elapsed, 300);
}

#[test]
fn timer_saturates_instead_of_overflowing() {
    let mut t = Timer::new(u64::MAX, false);
    t.tick(u64::MAX - 1);
    t.tick(10);
    assert!(t.finished());
    assert_eq!(t.elapsed, u64::MAX);
}

#[test]
fn blocking_stops_only_the_axis_into_the_obstacle() {
    let right_up = h(Sign::Positive, Sign::Positive);
    assert_eq!(block_movement(Collision::Left, right_up), AxisClamp { zero_x: true, zero_y: false });
    assert_eq!(block_movement(Collision::Right, right_up), AxisClamp { zero_x: false, zero_y: false });
    assert_eq!(block_movement(Collision::Bottom, right_up), AxisClamp { zero_x: false, zero_y: true });
    assert_eq!(block_movement(Collision::Top, right_up), AxisClamp { zero_x: false, zero_y: false });
    let left_down = h(Sign::Negative, Sign::Negative);
    assert_eq!(block_movement(Collision::Right, left_down), AxisClamp { zero_x: true, zero_y: false });
    assert_eq!(block_movement(Collision::Top, left_down), AxisClamp { zero_x: false, zero_y: true });
    assert_eq!(block_movement(Collision::Inside, h(Sign::Zero, Sign::Zero)), AxisClamp { zero_x: true, zero_y: true });
}

#[test]
fn clamps_accumulate_over_obstacles() {
    let mut heading = h(Sign::Positive, Sign::Negative);
    for side in [Collision::Left, Collision::Top, Collision::Right] {
        heading = apply_clamp(heading, block_movement(side, heading));
    }
    assert_eq!(heading, h(Sign::Zero, Sign::Zero));
}

#[test]
fn later_keys_win() {
    let all = Controls { left: true, right: true, up: true, down: true };
    assert_eq!(handle_input(all), h(Sign::Positive, Sign::Negative));
    let left_up = Controls { left: true, right: false, up: true, down: false };
    assert_eq!(handle_input(left_up), h(Sign::Negative, Sign::Positive));
    let none = Controls { left: false, right: false, up: false, down: false };
    assert_eq!(handle_input(none), h(Sign::Zero, Sign::Zero));
}
