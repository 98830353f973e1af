//! Gravity: every staged velocity gains `gravity * delta` vertically.
use vstd::prelude::*;
use crate::components::{FrameTime, Vector2, Velocity};
use crate::fixed::{fits_i64, scale_mul, trunc_div_i128, SCALE};

verus! {

/// Vertical acceleration, in fixed point per second squared.
#[derive(Clone, Copy, Debug, PartialEq, Eq, Structural)]
pub struct Gravity(pub i64);

/// Adds the frame's gravity to every staged velocity.
pub struct GravitySystem;

/// Change of vertical velocity over one frame.
pub open spec fn gravity_impulse(gravity: int, delta: int) -> int {
    scale_mul(gravity, delta)
}

/// The staged velocity `v` after gravity has acted on it for one frame.
pub open spec fn apply_gravity(v: Velocity, gravity: int, delta: int) -> Velocity {
    Velocity {
        linear: Vector2 { x: v.linear.x, y: (v.linear.y + gravity_impulse(gravity, delta)) as i64 },
        angular: v.angular,
    }
}

/// An entity's staged velocity after the gravity routine; absent stays absent.
pub open spec fn gravity_entity(v: Option<Velocity>, gravity: int, delta: int) -> Option<Velocity> {
    match v {
        Some(s) => Some(apply_gravity(s, gravity, delta)),
        None => None,
    }
}

/// The sum computed by the gravity routine fits in the velocity's range.
pub open spec fn gravity_fits(v: Option<Velocity>, gravity: int, delta: int) -> bool {
    match v {
        Some(s) => fits_i64(s.linear.y + gravity_impulse(gravity, delta)),
        None => true,
    }
}

impl GravitySystem {
    /// Adds `gravity * delta` to the vertical component of every staged
    /// velocity and changes nothing else.
    pub fn run(&self, gravity: &Gravity, time: &FrameTime, velocities: &mut Vec<Option<Velocity>>)
        requires
            forall|i: int|
                0 <= i < old(velocities).len() ==> gravity_fits(
                    #[trigger] old(velocities)[i],
                    gravity.0 as int,
                    time.delta as int,
                ),
        ensures
            final(velocities).len() == old(velocities).len(),
            forall|i: int|
                0 <= i < old(velocities).len() ==> #[trigger] final(velocities)[i] == gravity_entity(
                    old(velocities)[i],
                    gravity.0 as int,
                    time.delta as int,
                ),
    {
        let g = gravity.0 as i128;
        let dt = time.delta as i128;
        assert(-0x4000_0000_0000_0000_0000_0000_0000_0000int <= g * dt
            <= 0x4000_0000_0000_0000_0000_0000_0000_0000int) by (nonlinear_arith)
            requires
                -0x8000_0000_0000_0000int <= g <= 0x8000_0000_0000_0000int,
                -0x8000_0000_0000_0000int <= dt <= 0x8000_0000_0000_0000int,
        ;
        let impulse = trunc_div_i128(g * dt, SCALE as i128);
        let n = velocities.len();
        let mut i: usize = 0;
        while i < n
            invariant
                n == velocities.len() == old(velocities).len(),
                i <= n,
                impulse == gravity_impulse(gravity.0 as int, time.delta as int),
                forall|j: int|
                    0 <= j < n ==> gravity_fits(
                        #[trigger] old(velocities)[j],
                        gravity.0 as int,
                        time.delta as int,
                    ),
                forall|j: int|
                    0 <= j < i ==> #[trigger] velocities[j] == gravity_entity(
                        old(velocities)[j],
                        gravity.0 as int,
                        time.delta as int,
                    ),
                forall|j: int| i <= j < n ==> #[trigger] velocities[j] == old(velocities)[j],
            decreases n - i,
        {
            if let Some(v) = velocities[i] {
                assert(gravity_fits(old(velocities)[i as int], gravity.0 as int, time.delta as int));
                let y = (v.linear.y as i128 + impulse) as i64;
                let moved = Velocity { linear: Vector2 { x: v.linear.x, y }, angular: v.angular };
                velocities.set(i, Some(moved));
            }
            i += 1;
        }
    }
}

impl GravitySystem {
    /// Whether every sum `run` would compute fits in a velocity.
    pub fn fits(&self, gravity: &Gravity, time: &FrameTime, velocities: &Vec<Option<Velocity>>) -> (r: bool)
        ensures
            r == forall|i: int|
                0 <= i < velocities.len() ==> gravity_fits(
                    #[trigger] velocities[i],
                    gravity.0 as int,
                    time.delta as int,
                ),
    {
        let g = gravity.0 as i128;
        let dt = time.delta as i128;
        assert(-0x4000_0000_0000_0000_0000_0000_0000_0000int <= g * dt
            <= 0x4000_0000_0000_0000_0000_0000_0000_0000int) by (nonlinear_arith)
            requires
                -0x8000_0000_0000_0000int <= g <= 0x8000_0000_0000_0000int,
                -0x8000_0000_0000_0000int <= dt <= 0x8000_0000_0000_0000int,
        ;
        let impulse = trunc_div_i128(g * dt, SCALE as i128);
        proof {
            crate::fixed::lemma_trunc_div_bounds(g * dt, 1_000_000);
        }
        let mut i: usize = 0;
        while i < velocities.len()
            invariant
                i <= velocities.len(),
                impulse == gravity_impulse(gravity.0 as int, time.delta as int),
                -0x1_0000_0000_0000_0000_0000_0000_0000int <= impulse <= 0x1_0000_0000_0000_0000_0000_0000_0000int,
                forall|j: int|
                    0 <= j < i ==> gravity_fits(
                        #[trigger] velocities[j],
                        gravity.0 as int,
                        time.delta as int,
                    ),
            decreases velocities.len() - i,
        {
            if let Some(v) = velocities[i] {
                let y = v.linear.y as i128 + impulse;
                if y < i64::MIN as i128 || y > i64::MAX as i128 {
                    return false;
                }
            }
            i += 1;
        }
        true
    }
}

} // verus!
