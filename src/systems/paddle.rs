//! Paddle input: the sampled axes push each paddle's staged velocity.
use vstd::prelude::*;
use crate::components::{BodyPose, FrameTime, InputAxes, Paddle, Rotation, Vector2, Velocity};
use crate::fixed::{fits_i64, trunc_div, trunc_div_i128, SCALE};

verus! {

/// Moves paddles from the sampled input axes.
pub struct PaddleSystem;

/// Linear speed of a paddle at full axis deflection: 100 units per second.
pub const LINEAR_VELOCITY: i64 = 100_000_000;

/// Angular speed of a paddle at full axis deflection: a full turn per second.
pub const ANGULAR_VELOCITY: i64 = 6_283_185;

/// `rate * delta * axis`, all in fixed point, rounded toward zero.
pub open spec fn input_impulse(rate: int, delta: int, axis: int) -> int {
    trunc_div(rate * delta * axis, SCALE * SCALE)
}

/// The vector `(0, s)` turned by `rot`, rounded toward zero.
pub open spec fn rotate_up(rot: Rotation, s: int) -> (int, int) {
    (-trunc_div(rot.sin * s, SCALE as int), trunc_div(rot.cos * s, SCALE as int))
}

/// Linear velocity that the linear axis contributes.
pub open spec fn linear_push(pose: BodyPose, axis: Option<i64>, delta: int) -> (int, int) {
    match axis {
        Some(a) => rotate_up(pose.rotation, input_impulse(LINEAR_VELOCITY as int, delta, a as int)),
        None => (0, 0),
    }
}

/// Angular velocity that the angular axis contributes.
pub open spec fn angular_push(axis: Option<i64>, delta: int) -> int {
    match axis {
        Some(a) => input_impulse(ANGULAR_VELOCITY as int, delta, a as int),
        None => 0,
    }
}

/// The staged velocity of a paddle after its input has been added.
pub open spec fn push_paddle(
    v: Velocity,
    pose: BodyPose,
    paddle: Paddle,
    input: InputAxes,
    delta: int,
) -> Velocity {
    let (dx, dy) = linear_push(pose, input.linear_spec(paddle.side), delta);
    let da = angular_push(input.angular_spec(paddle.side), delta);
    Velocity {
        linear: Vector2 { x: (v.linear.x + dx) as i64, y: (v.linear.y + dy) as i64 },
        angular: (v.angular + da) as i64,
    }
}

/// The sums computed for a paddle fit in the velocity's range.
pub open spec fn push_fits(
    v: Velocity,
    pose: BodyPose,
    paddle: Paddle,
    input: InputAxes,
    delta: int,
) -> bool {
    let (dx, dy) = linear_push(pose, input.linear_spec(paddle.side), delta);
    let da = angular_push(input.angular_spec(paddle.side), delta);
    fits_i64(v.linear.x + dx) && fits_i64(v.linear.y + dy) && fits_i64(v.angular + da)
}

/// The component of column `c` at entity `i`, absent past its end.
pub open spec fn column_at<T>(c: Seq<Option<T>>, i: int) -> Option<T> {
    if 0 <= i < c.len() {
        c[i]
    } else {
        None
    }
}

/// An entity's staged velocity after the paddle routine: only entities with
/// a staged velocity, a pose and a paddle are pushed.
pub open spec fn paddle_entity(
    v: Option<Velocity>,
    pose: Option<BodyPose>,
    paddle: Option<Paddle>,
    input: InputAxes,
    delta: int,
) -> Option<Velocity> {
    match (v, pose, paddle) {
        (Some(s), Some(p), Some(d)) => Some(push_paddle(s, p, d, input, delta)),
        _ => v,
    }
}

/// The paddle routine's sums for this entity fit, and its pose is a rotation.
pub open spec fn paddle_entity_ok(
    v: Option<Velocity>,
    pose: Option<BodyPose>,
    paddle: Option<Paddle>,
    input: InputAxes,
    delta: int,
) -> bool {
    match (v, pose, paddle) {
        (Some(s), Some(p), Some(d)) => p.rotation.wf() && push_fits(s, p, d, input, delta),
        _ => true,
    }
}

impl PaddleSystem {
    /// Adds to the staged velocity of every paddle the push of its side's
    /// axes: the linear axis along the paddle's orientation, the angular axis
    /// to its turn. Absent axes add nothing; other entities are left alone.
    pub fn run(
        &self,
        velocities: &mut Vec<Option<Velocity>>,
        poses: &Vec<Option<BodyPose>>,
        paddles: &Vec<Option<Paddle>>,
        input: &InputAxes,
        time: &FrameTime,
    )
        requires
            input.wf(),
            forall|i: int|
                0 <= i < old(velocities).len() ==> paddle_entity_ok(
                    #[trigger] old(velocities)[i],
                    column_at(poses@, i),
                    column_at(paddles@, i),
                    *input,
                    time.delta as int,
                ),
        ensures
            final(velocities).len() == old(velocities).len(),
            forall|i: int|
                0 <= i < old(velocities).len() ==> #[trigger] final(velocities)[i] == paddle_entity(
                    old(velocities)[i],
                    column_at(poses@, i),
                    column_at(paddles@, i),
                    *input,
                    time.delta as int,
                ),
    {
        let n = velocities.len();
        let mut i: usize = 0;
        while i < n
            invariant
                n == velocities.len() == old(velocities).len(),
                i <= n,
                input.wf(),
                forall|j: int|
                    0 <= j < n ==> paddle_entity_ok(
                        #[trigger] old(velocities)[j],
                        column_at(poses@, j),
                        column_at(paddles@, j),
                        *input,
                        time.delta as int,
                    ),
                forall|j: int|
                    0 <= j < i ==> #[trigger] velocities[j] == paddle_entity(
                        old(velocities)[j],
                        column_at(poses@, j),
                        column_at(paddles@, j),
                        *input,
                        time.delta as int,
                    ),
                forall|j: int| i <= j < n ==> #[trigger] velocities[j] == old(velocities)[j],
            decreases n - i,
        {
            if i < poses.len() && i < paddles.len() {
                if let Some(v) = velocities[i] {
                    if let Some(pose) = poses[i] {
                        if let Some(paddle) = paddles[i] {
                            assert(paddle_entity_ok(
                                old(velocities)[i as int],
                                column_at(poses@, i as int),
                                column_at(paddles@, i as int),
                                *input,
                                time.delta as int,
                            ));
                            let pushed = push(v, pose, paddle, input, time.delta);
                            velocities.set(i, Some(pushed));
                        }
                    }
                }
            }
            i += 1;
        }
    }
}

/// A paddle at the identity orientation whose linear axis reads `a` gains
/// exactly `(0, LINEAR_VELOCITY * delta * a)` of staged linear velocity, on
/// either side.
pub proof fn lemma_upright_paddle_moves_vertically(
    v: Velocity,
    pose: BodyPose,
    paddle: Paddle,
    input: InputAxes,
    delta: int,
    a: i64,
)
    requires
        pose.rotation.cos == SCALE && pose.rotation.sin == 0,
        input.linear_spec(paddle.side) == Some(a),
        push_fits(v, pose, paddle, input, delta),
    ensures
        push_paddle(v, pose, paddle, input, delta).linear.x == v.linear.x,
        push_paddle(v, pose, paddle, input, delta).linear.y == v.linear.y + input_impulse(
            LINEAR_VELOCITY as int,
            delta,
            a as int,
        ),
{
    let s = input_impulse(LINEAR_VELOCITY as int, delta, a as int);
    assert(0 * s == 0);
    assert(1_000_000 * s == s * 1_000_000) by (nonlinear_arith);
    vstd::arithmetic::div_mod::lemma_div_by_multiple(crate::fixed::abs(s), 1_000_000);
    assert(crate::fixed::abs(s) * 1_000_000 == crate::fixed::abs(s * 1_000_000)) by (nonlinear_arith);
}

/// Largest magnitude of one frame's input impulse.
pub open spec fn impulse_bound() -> int {
    100 * 0x8000_0000_0000_0000int
}

/// `rate * delta * axis / SCALE^2`, rounded toward zero, for an axis in [-1, 1].
fn impulse(rate: i64, delta: i64, axis: i64) -> (r: i128)
    requires
        0 <= rate <= LINEAR_VELOCITY,
        -SCALE <= axis <= SCALE,
    ensures
        r == input_impulse(rate as int, delta as int, axis as int),
        -impulse_bound() <= r <= impulse_bound(),
{
    let ghost bp: int = 100_000_000 * 0x8000_0000_0000_0000int;
    assert(-bp <= rate * delta <= bp) by (nonlinear_arith)
        requires
            0 <= rate <= 100_000_000,
            -0x8000_0000_0000_0000int <= delta <= 0x8000_0000_0000_0000int,
            bp == 100_000_000 * 0x8000_0000_0000_0000,
    ;
    let p = rate as i128 * delta as i128;
    assert(-bp * 1_000_000 <= p * axis <= bp * 1_000_000) by (nonlinear_arith)
        requires
            -bp <= p <= bp,
            -1_000_000 <= axis <= 1_000_000,
    ;
    let q = p * axis as i128;
    let r = trunc_div_i128(q, 1_000_000_000_000i128);
    proof {
        crate::fixed::lemma_trunc_div_bounds(q as int, 1_000_000_000_000);
        assert(crate::fixed::abs(r as int) <= impulse_bound()) by (nonlinear_arith)
            requires
                crate::fixed::abs(r as int) * 1_000_000_000_000 <= crate::fixed::abs(q as int),
                crate::fixed::abs(q as int) <= bp * 1_000_000,
                bp == 100_000_000 * 0x8000_0000_0000_0000,
        ;
    }
    r
}

/// `(0, s)` turned by `rot`, rounded toward zero.
fn rotate(rot: Rotation, s: i128) -> (r: (i128, i128))
    requires
        rot.wf(),
        -impulse_bound() <= s <= impulse_bound(),
    ensures
        r.0 == rotate_up(rot, s as int).0,
        r.1 == rotate_up(rot, s as int).1,
{
    let c = rot.cos as i128;
    let sn = rot.sin as i128;
    let ghost b: int = impulse_bound() * 1_000_000;
    assert(-b <= sn * s <= b) by (nonlinear_arith)
        requires
            -1_000_000 <= sn <= 1_000_000,
            -impulse_bound() <= s <= impulse_bound(),
            b == impulse_bound() * 1_000_000,
    ;
    assert(-b <= c * s <= b) by (nonlinear_arith)
        requires
            -1_000_000 <= c <= 1_000_000,
            -impulse_bound() <= s <= impulse_bound(),
            b == impulse_bound() * 1_000_000,
    ;
    let x = trunc_div_i128(sn * s, SCALE as i128);
    let y = trunc_div_i128(c * s, SCALE as i128);
    proof {
        crate::fixed::lemma_trunc_div_bounds(sn * s, 1_000_000);
    }
    (-x, y)
}

/// The staged velocity of one paddle after its input has been added.
fn push(v: Velocity, pose: BodyPose, paddle: Paddle, input: &InputAxes, delta: i64) -> (r: Velocity)
    requires
        input.wf(),
        pose.rotation.wf(),
        push_fits(v, pose, paddle, *input, delta as int),
    ensures
        r == push_paddle(v, pose, paddle, *input, delta as int),
{
    let mut linear = v.linear;
    if let Some(a) = input.linear(paddle.side) {
        let s = impulse(LINEAR_VELOCITY, delta, a);
        let (dx, dy) = rotate(pose.rotation, s);
        linear = Vector2 {
            x: (v.linear.x as i128 + dx) as i64,
            y: (v.linear.y as i128 + dy) as i64,
        };
    }
    let mut angular = v.angular;
    if let Some(a) = input.angular(paddle.side) {
        let s = impulse(ANGULAR_VELOCITY, delta, a);
        angular = (v.angular as i128 + s) as i64;
    }
    Velocity { linear, angular }
}

impl PaddleSystem {
    /// Whether the input axes lie in [-1, 1], and for every paddle the pose
    /// is a rotation and every sum `run` would compute fits in a velocity.
    pub fn fits(
        &self,
        velocities: &Vec<Option<Velocity>>,
        poses: &Vec<Option<BodyPose>>,
        paddles: &Vec<Option<Paddle>>,
        input: &InputAxes,
        time: &FrameTime,
    ) -> (r: bool)
        ensures
            r == (input.wf() && forall|i: int|
                0 <= i < velocities.len() ==> paddle_entity_ok(
                    #[trigger] velocities[i],
                    column_at(poses@, i),
                    column_at(paddles@, i),
                    *input,
                    time.delta as int,
                )),
    {
        if !(axis_ok(input.vertical_left) && axis_ok(input.vertical_right) && axis_ok(
            input.rotation_left,
        ) && axis_ok(input.rotation_right)) {
            return false;
        }
        let mut i: usize = 0;
        while i < velocities.len()
            invariant
                i <= velocities.len(),
                input.wf(),
                forall|j: int|
                    0 <= j < i ==> paddle_entity_ok(
                        #[trigger] velocities[j],
                        column_at(poses@, j),
                        column_at(paddles@, j),
                        *input,
                        time.delta as int,
                    ),
            decreases velocities.len() - i,
        {
            if i < poses.len() && i < paddles.len() {
                if let Some(v) = velocities[i] {
                    if let Some(pose) = poses[i] {
                        if let Some(paddle) = paddles[i] {
                            let rot = pose.rotation;
                            if !(-SCALE <= rot.cos && rot.cos <= SCALE && -SCALE <= rot.sin && rot.sin
                                <= SCALE) {
                                return false;
                            }
                            if !push_in_range(v, pose, paddle, input, time.delta) {
                                return false;
                            }
                        }
                    }
                }
            }
            i += 1;
        }
        true
    }
}

fn axis_ok(a: Option<i64>) -> (r: bool)
    ensures
        r == crate::components::axis_in_range(a),
{
    match a {
        Some(v) => -SCALE <= v && v <= SCALE,
        None => true,
    }
}

fn in_i64(n: i128) -> (r: bool)
    ensures
        r == fits_i64(n as int),
{
    i64::MIN as i128 <= n && n <= i64::MAX as i128
}

/// Whether the sums of `push` fit in a velocity.
fn push_in_range(v: Velocity, pose: BodyPose, paddle: Paddle, input: &InputAxes, delta: i64) -> (r: bool)
    requires
        input.wf(),
        pose.rotation.wf(),
    ensures
        r == push_fits(v, pose, paddle, *input, delta as int),
{
    let mut dx: i128 = 0;
    let mut dy: i128 = 0;
    if let Some(a) = input.linear(paddle.side) {
        let s = impulse(LINEAR_VELOCITY, delta, a);
        let (x, y) = rotate(pose.rotation, s);
        proof {
            crate::fixed::lemma_trunc_div_bounds(pose.rotation.sin * s, 1_000_000);
            crate::fixed::lemma_trunc_div_bounds(pose.rotation.cos * s, 1_000_000);
            assert(crate::fixed::abs(pose.rotation.sin * s) <= impulse_bound() * 1_000_000) by (nonlinear_arith)
                requires
                    -1_000_000 <= pose.rotation.sin <= 1_000_000,
                    -impulse_bound() <= s <= impulse_bound(),
            ;
            assert(crate::fixed::abs(pose.rotation.cos * s) <= impulse_bound() * 1_000_000) by (nonlinear_arith)
                requires
                    -1_000_000 <= pose.rotation.cos <= 1_000_000,
                    -impulse_bound() <= s <= impulse_bound(),
            ;
        }
        dx = x;
        dy = y;
    }
    let mut da: i128 = 0;
    if let Some(a) = input.angular(paddle.side) {
        da = impulse(ANGULAR_VELOCITY, delta, a);
    }
    in_i64(v.linear.x as i128 + dx) && in_i64(v.linear.y as i128 + dy) && in_i64(v.angular as i128 + da)
}

} // verus!
