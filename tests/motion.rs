use pong::components::{BodyPose, FrameTime, InputAxes, Paddle, Rotation, Side, Vector2, Velocity};
use pong::fixed::{ceil_sqrt_u128, trunc_div_i128, SCALE};
use pong::systems::gravity::{Gravity, GravitySystem};
use pong::systems::paddle::PaddleSystem;
use pong::systems::speed::CapSpeedSystem;

fn vel(x: i64, y: i64, a: i64) -> Velocity {
    Velocity { linear: Vector2 { x, y }, angular: a }
}

fn upright() -> BodyPose {
    BodyPose { position: Vector2 { x: 0, y: 0 }, rotation: Rotation::identity() }
}

fn axes(vl: Option<i64>, vr: Option<i64>, rl: Option<i64>, rr: Option<i64>) -> InputAxes {
    InputAxes { vertical_left: vl, vertical_right: vr, rotation_left: rl, rotation_right: rr }
}

#[test]
fn gravity_adds_gravity_times_delta() {
    let mut staged = vec![Some(vel(1_000_000, 2_000_000, 7)), None, Some(vel(0, 0, 0))];
    GravitySystem.run(&Gravity(-9_800_000), &FrameTime { delta: 100_000 }, &mut staged);
    assert_eq!(staged[0], Some(vel(1_000_000, 1_020_000, 7)));
    assert_eq!(staged[1], None);
    assert_eq!(staged[2], Some(vel(0, -980_000, 0)));
}

#[test]
fn gravity_zero_delta_changes_nothing() {
    let mut staged = vec![Some(vel(5, 6, 7))];
    GravitySystem.run(&Gravity(-9_800_000), &FrameTime { delta: 0 }, &mut staged);
    assert_eq!(staged[0], Some(vel(5, 6, 7)));
}

#[test]
fn left_paddle_moves_along_its_axis() {
    let mut staged = vec![Some(vel(1_000, 2_000, 0))];
    let poses = vec![Some(upright())];
    let paddles = vec![Some(Paddle::new(Side::Left))];
    let input = axes(Some(500_000), Some(-1_000_000), None, None);
    PaddleSystem.run(&mut staged, &poses, &paddles, &input, &FrameTime { delta: 100_000 });
    // 100 units/s * 0.1 s * 0.5 = 5 units/s, straight up.
    assert_eq!(staged[0], Some(vel(1_000, 5_002_000, 0)));
}

#[test]
fn right_paddle_reads_right_axes() {
    let mut staged = vec![Some(vel(0, 0, 0))];
    let poses = vec![Some(upright())];
    let paddles = vec![Some(Paddle::new(Side::Right))];
    let input = axes(Some(1_000_000), Some(-250_000), Some(1_000_000), Some(1_000_000));
    PaddleSystem.run(&mut staged, &poses, &paddles, &input, &FrameTime { delta: 100_000 });
    // linear: 100 * 0.1 * -0.25 = -2.5; angular: 2pi * 0.1 * 1, rounded toward zero.
    assert_eq!(staged[0], Some(vel(0, -2_500_000, 628_318)));
}

#[test]
fn absent_axes_leave_paddle_alone() {
    let mut staged = vec![Some(vel(3, 4, 5))];
    let poses = vec![Some(upright())];
    let paddles = vec![Some(Paddle::new(Side::Left))];
    PaddleSystem.run(&mut staged, &poses, &paddles, &InputAxes::neutral(), &FrameTime { delta: 100_000 });
    assert_eq!(staged[0], Some(vel(3, 4, 5)));
}

#[test]
fn turned_paddle_pushes_sideways() {
    let mut staged = vec![Some(vel(0, 0, 0))];
    let quarter = BodyPose { position: Vector2 { x: 0, y: 0 }, rotation: Rotation { cos: 0, sin: SCALE } };
    let poses = vec![Some(quarter)];
    let paddles = vec![Some(Paddle::new(Side::Left))];
    let input = axes(Some(1_000_000), None, None, None);
    PaddleSystem.run(&mut staged, &poses, &paddles, &input, &FrameTime { delta: 100_000 });
    assert_eq!(staged[0], Some(vel(-10_000_000, 0, 0)));
}

#[test]
fn entities_without_paddle_or_pose_are_skipped() {
    let mut staged = vec![Some(vel(1, 1, 1)), Some(vel(2, 2, 2))];
    let poses = vec![None, Some(upright())];
    let paddles = vec![Some(Paddle::new(Side::Left))];
    let input = axes(Some(1_000_000), Some(1_000_000), Some(1_000_000), Some(1_000_000));
    PaddleSystem.run(&mut staged, &poses, &paddles, &input, &FrameTime { delta: 100_000 });
    assert_eq!(staged, vec![Some(vel(1, 1, 1)), Some(vel(2, 2, 2))]);
}

#[test]
fn cap_rescales_onto_the_limit() {
    let mut staged = vec![Some(vel(60_000_000, 80_000_000, 0))];
    CapSpeedSystem::default().run(&mut staged);
    assert_eq!(staged[0], Some(vel(30_000_000, 40_000_000, 0)));
}

#[test]
fn cap_leaves_vector_on_the_limit() {
    let mut staged = vec![Some(vel(30_000_000, -40_000_000, 0)), Some(vel(0, 0, 0))];
    CapSpeedSystem::default().run(&mut staged);
    assert_eq!(staged[0], Some(vel(30_000_000, -40_000_000, 0)));
    assert_eq!(staged[1], Some(vel(0, 0, 0)));
}

#[test]
fn cap_clamps_angular_speed() {
    let mut staged = vec![Some(vel(0, 0, 5_000_000)), Some(vel(0, 0, -5_000_000)), Some(vel(0, 0, 1_000_000))];
    CapSpeedSystem::default().run(&mut staged);
    assert_eq!(staged[0], Some(vel(0, 0, 3_141_593)));
    assert_eq!(staged[1], Some(vel(0, 0, -3_141_593)));
    assert_eq!(staged[2], Some(vel(0, 0, 1_000_000)));
}

#[test]
fn capped_speed_never_exceeds_limit() {
    let cap = CapSpeedSystem::new(7_000_000, 1_000);
    let cases = [
        (123_456_789i64, -987_654_321i64),
        (i64::MAX, i64::MIN),
        (-1, 7_000_001),
        (9_999_999, 1),
    ];
    for (x, y) in cases {
        let mut staged = vec![Some(vel(x, y, i64::MIN))];
        cap.run(&mut staged);
        let v = staged[0].unwrap();
        let n = (v.linear.x as i128) * (v.linear.x as i128) + (v.linear.y as i128) * (v.linear.y as i128);
        assert!(n <= 7_000_000i128 * 7_000_000i128);
        assert_eq!(v.angular, -1_000);
    }
}

#[test]
fn cap_keeps_direction() {
    let mut staged = vec![Some(vel(-300_000_000, 400_000_000, 0))];
    CapSpeedSystem::new(5_000_000, 0).run(&mut staged);
    assert_eq!(staged[0], Some(vel(-3_000_000, 4_000_000, 0)));
}

#[test]
fn gravity_and_paddle_commute() {
    let poses = vec![Some(upright())];
    let paddles = vec![Some(Paddle::new(Side::Left))];
    let input = axes(Some(-700_000), None, Some(300_000), None);
    let time = FrameTime { delta: 16_667 };
    let g = Gravity(-9_800_000);
    let mut a = vec![Some(vel(-18_000_000, 2_000_000, 11))];
    let mut b = a.clone();
    GravitySystem.run(&g, &time, &mut a);
    PaddleSystem.run(&mut a, &poses, &paddles, &input, &time);
    PaddleSystem.run(&mut b, &poses, &paddles, &input, &time);
    GravitySystem.run(&g, &time, &mut b);
    assert_eq!(a, b);
}

#[test]
fn integer_helpers() {
    assert_eq!(trunc_div_i128(-7, 2), -3);
    assert_eq!(trunc_div_i128(7, 2), 3);
    assert_eq!(ceil_sqrt_u128(0), 0);
    assert_eq!(ceil_sqrt_u128(1), 1);
    assert_eq!(ceil_sqrt_u128(17), 5);
    assert_eq!(ceil_sqrt_u128(25), 5);
    assert_eq!(ceil_sqrt_u128(1u128 << 127), 13_043_817_825_332_782_213);
}
