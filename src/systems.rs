//! The update routines that accumulate and clamp staged velocities.
use vstd::prelude::*;

pub mod ball;
pub mod gravity;
pub mod paddle;
pub mod speed;

use crate::components::{BodyPose, InputAxes, Paddle, Velocity};
use self::gravity::{apply_gravity, gravity_impulse};
use self::paddle::{push_fits, push_paddle};
use crate::fixed::fits_i64;

verus! {

/// Gravity and paddle input accumulate into a staged velocity: applying
/// them in either order gives the same velocity, wherever neither order
/// leaves the range of the velocity.
pub proof fn lemma_gravity_and_input_commute(
    v: Velocity,
    pose: BodyPose,
    paddle: Paddle,
    input: InputAxes,
    gravity: int,
    delta: int,
)
    requires
        push_fits(v, pose, paddle, input, delta),
        fits_i64(push_paddle(v, pose, paddle, input, delta).linear.y + gravity_impulse(gravity, delta)),
        fits_i64(v.linear.y + gravity_impulse(gravity, delta)),
        push_fits(apply_gravity(v, gravity, delta), pose, paddle, input, delta),
    ensures
        apply_gravity(push_paddle(v, pose, paddle, input, delta), gravity, delta) == push_paddle(
            apply_gravity(v, gravity, delta),
            pose,
            paddle,
            input,
            delta,
        ),
{
}

} // verus!
