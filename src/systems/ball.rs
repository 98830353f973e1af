//! The ball's own routine, which leaves its pose to the integrator.
use vstd::prelude::*;
use crate::components::{Ball, BodyPose};

verus! {

/// Visits every ball; the pose is left as the integrator wrote it.
pub struct BallSystem;

impl BallSystem {
    /// Leaves every pose as it is.
    pub fn run(&self, poses: &mut Vec<Option<BodyPose>>, balls: &Vec<Option<Ball>>)
        ensures
            final(poses)@ == old(poses)@,
    {
    }
}

} // verus!
