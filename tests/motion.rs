use game_logic::motion::{
    advance, clamp_length_max, input_direction, next_velocity, Body, Bounds, MotionParams,
    Obstacle, Shape, Velocity, World,
};
use game_logic::vector::{ceil_sqrt, scale_to, Vec2};

fn v(x: i64, y: i64) -> Vec2 {
    Vec2 { x, y }
}

fn open_world(lo: i64, hi: i64) -> World {
    World { bounds: Bounds { min_x: lo, max_x: hi, min_y: lo, max_y: hi }, obstacle: None }
}

fn body(x: i64, y: i64, vx: i64, vy: i64, half_size: i64) -> Body {
    Body { pos: v(x, y), z: 900, velocity: Velocity(v(vx, vy)), half_size }
}

#[test]
fn ceil_sqrt_values() {
    assert_eq!(ceil_sqrt(0), 0);
    assert_eq!(ceil_sqrt(1), 1);
    assert_eq!(ceil_sqrt(2), 2);
    assert_eq!(ceil_sqrt(4), 2);
    assert_eq!(ceil_sqrt(5), 3);
    assert_eq!(ceil_sqrt(125_000), 354);
    assert_eq!(ceil_sqrt(u64::MAX), 4_294_967_296);
}

#[test]
fn scale_to_exact_values() {
    assert_eq!(scale_to(v(3, 4), 10), v(6, 8));
    assert_eq!(scale_to(v(-3, 4), 10), v(-6, 8));
    assert_eq!(scale_to(v(1, 1), 10), v(5, 5));
    assert_eq!(scale_to(v(0, -7), 3), v(0, -3));
}

#[test]
fn scale_to_zero_vector_stays_zero() {
    assert_eq!(scale_to(v(0, 0), 10), v(0, 0));
}

#[test]
fn clamp_length_max_values() {
    assert_eq!(clamp_length_max(v(3, 4), 5), v(3, 4));
    assert_eq!(clamp_length_max(v(30, 40), 5), v(3, 4));
    assert_eq!(clamp_length_max(v(305, 0), 300), v(300, 0));
}

#[test]
fn accelerates_from_rest_toward_input() {
    assert_eq!(next_velocity(v(0, 0), v(1, 0), 10, 300), v(10, 0));
    assert_eq!(next_velocity(v(0, 0), v(0, -1), 10, 300), v(0, -10));
}

#[test]
fn acceleration_is_capped_at_max_speed() {
    assert_eq!(next_velocity(v(295, 0), v(1, 0), 10, 300), v(300, 0));
    let r = next_velocity(v(300, 0), v(1, 1), 100, 300);
    assert_eq!(r, v(296, 42));
    assert!(r.x * r.x + r.y * r.y <= 300 * 300);
}

#[test]
fn speed_never_exceeds_max_on_samples() {
    for &(vx, vy) in &[(0, 0), (300, 0), (-212, 212), (0, -299), (150, -150)] {
        for &(ix, iy) in &[(1, 0), (-1, 0), (0, 1), (1, 1), (-1, -1), (0, 0)] {
            for &acc in &[0, 1, 60, 1000] {
                let r = next_velocity(v(vx, vy), v(ix, iy), acc, 300);
                assert!(r.x * r.x + r.y * r.y <= 300 * 300, "{:?} {:?} {}", (vx, vy), (ix, iy), acc);
            }
        }
    }
}

#[test]
fn decelerates_linearly_without_input() {
    assert_eq!(next_velocity(v(30, 40), v(0, 0), 10, 300), v(24, 32));
    assert_eq!(next_velocity(v(-7, 0), v(0, 0), 5, 300), v(-2, 0));
}

#[test]
fn deceleration_stops_at_zero_without_sign_flip() {
    assert_eq!(next_velocity(v(3, 4), v(0, 0), 10, 300), v(0, 0));
    assert_eq!(next_velocity(v(-5, 0), v(0, 0), 5, 300), v(0, 0));
    let mut vel = v(-37, 21);
    for _ in 0..20 {
        let next = next_velocity(vel, v(0, 0), 4, 300);
        assert!(next.x <= 0 && next.x >= vel.x);
        assert!(next.y >= 0 && next.y <= vel.y);
        vel = next;
    }
    assert_eq!(vel, v(0, 0));
}

#[test]
fn input_direction_from_keys() {
    assert_eq!(input_direction(false, false, false, false), v(0, 0));
    assert_eq!(input_direction(true, false, false, false), v(-1, 0));
    assert_eq!(input_direction(false, true, true, false), v(1, 1));
    assert_eq!(input_direction(true, true, false, true), v(0, -1));
}

#[test]
fn velocity_new_and_from() {
    assert_eq!(Velocity::new(), Velocity(v(0, 0)));
    assert_eq!(Velocity::from(v(3, -2)), Velocity(v(3, -2)));
    assert!(!Velocity::new().is_moving());
    assert!(Velocity(v(0, -1)).is_moving());
}

#[test]
fn move_past_bound_is_rejected() {
    let mut b = body(99, 0, 5, 0, 0);
    let params = MotionParams { max_speed: 10, accel: 0 };
    advance(&mut b, v(0, 0), 1, &params, &open_world(-100, 100));
    assert_eq!(b.pos, v(99, 0));
    assert_eq!(b.velocity, Velocity(v(5, 0)));
}

#[test]
fn move_within_bounds_is_committed() {
    let mut b = body(90, 0, 5, 0, 0);
    let params = MotionParams { max_speed: 10, accel: 0 };
    advance(&mut b, v(0, 0), 2, &params, &open_world(-100, 100));
    assert_eq!(b.pos, v(100, 0));
    assert_eq!(b.z, 900);
}

#[test]
fn blocked_axis_still_lets_the_other_slide() {
    let mut b = body(99, 50, 5, -5, 0);
    let params = MotionParams { max_speed: 10, accel: 0 };
    advance(&mut b, v(0, 0), 1, &params, &open_world(-100, 100));
    assert_eq!(b.pos, v(99, 45));
}

#[test]
fn zero_elapsed_time_changes_nothing() {
    let start = body(10, -20, 6, 8, 16);
    let params = MotionParams { max_speed: 10, accel: 3600 };
    for &input in &[v(0, 0), v(1, 0), v(-1, 1)] {
        let mut b = start;
        advance(&mut b, input, 0, &params, &open_world(-640, 640));
        assert_eq!(b, start);
    }
}

#[test]
fn accelerating_body_moves_by_new_velocity() {
    let mut b = body(0, 0, 0, 0, 16);
    let params = MotionParams { max_speed: 5, accel: 1 };
    advance(&mut b, v(1, 0), 1, &params, &open_world(-640, 640));
    assert_eq!(b.velocity, Velocity(v(1, 0)));
    assert_eq!(b.pos, v(1, 0));
    advance(&mut b, v(1, 0), 1, &params, &open_world(-640, 640));
    assert_eq!(b.pos, v(3, 0));
}

#[test]
fn rectangle_obstacle_blocks_move() {
    let world = World {
        bounds: Bounds { min_x: -640, max_x: 640, min_y: -360, max_y: 360 },
        obstacle: Some(Obstacle { center: v(0, 0), shape: Shape::Rect { half_w: 16, half_h: 16 } }),
    };
    let params = MotionParams { max_speed: 10, accel: 0 };
    let mut b = body(-40, 0, 10, 0, 16);
    advance(&mut b, v(0, 0), 1, &params, &world);
    assert_eq!(b.pos, v(-40, 0));
    let mut far = body(-60, 0, 10, 0, 16);
    advance(&mut far, v(0, 0), 1, &params, &world);
    assert_eq!(far.pos, v(-50, 0));
}

#[test]
fn circle_obstacle_blocks_move() {
    let world = World {
        bounds: Bounds { min_x: -640, max_x: 640, min_y: -360, max_y: 360 },
        obstacle: Some(Obstacle { center: v(0, 0), shape: Shape::Circle { radius: 16 } }),
    };
    let params = MotionParams { max_speed: 10, accel: 0 };
    let mut b = body(-40, 0, 10, 0, 16);
    advance(&mut b, v(0, 0), 1, &params, &world);
    assert_eq!(b.pos, v(-40, 0));
    let mut tangent = body(-42, 0, 10, 0, 16);
    advance(&mut tangent, v(0, 0), 1, &params, &world);
    assert_eq!(tangent.pos, v(-32, 0));
}
