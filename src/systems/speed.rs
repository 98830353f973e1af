//! Speed cap: staged velocities are brought back within the configured
//! linear and angular limits.
use vstd::prelude::*;
use crate::components::{Vector2, Velocity};
use crate::fixed::{
    abs, ceil_sqrt, ceil_sqrt_u128, is_ceil_sqrt, lemma_ceil_sqrt_exists, lemma_trunc_div_bounds,
    trunc_div, trunc_div_i128,
};

verus! {

/// Caps every staged velocity to a maximum linear and angular speed.
pub struct CapSpeedSystem {
    max_norm: i64,
    max_squared_norm: i128,
    max_angular_speed: i64,
}

/// Squared length of a vector.
pub open spec fn norm_sq(v: Vector2) -> int {
    v.x * v.x + v.y * v.y
}

/// The linear part of `v` rescaled onto the circle of radius `max` when it
/// lies outside it; each component is rounded toward zero.
pub open spec fn cap_linear(v: Vector2, max: int) -> Vector2 {
    if norm_sq(v) > max * max {
        let r = ceil_sqrt(norm_sq(v));
        Vector2 { x: trunc_div(v.x * max, r) as i64, y: trunc_div(v.y * max, r) as i64 }
    } else {
        v
    }
}

/// `a` clamped to `[-max, max]`.
pub open spec fn cap_angular(a: int, max: int) -> int {
    if a > max {
        max
    } else if a < -max {
        -max
    } else {
        a
    }
}

/// A staged velocity after the speed cap.
pub open spec fn cap_velocity(v: Velocity, max: int, max_angular: int) -> Velocity {
    Velocity {
        linear: cap_linear(v.linear, max),
        angular: cap_angular(v.angular as int, max_angular) as i64,
    }
}

/// An entity's staged velocity after the speed cap; absent stays absent.
pub open spec fn cap_entity(v: Option<Velocity>, max: int, max_angular: int) -> Option<Velocity> {
    match v {
        Some(s) => Some(cap_velocity(s, max, max_angular)),
        None => None,
    }
}

impl CapSpeedSystem {
    /// The linear speed limit.
    pub closed spec fn max_speed(self) -> int {
        self.max_norm as int
    }

    /// The angular speed limit.
    pub closed spec fn max_angular(self) -> int {
        self.max_angular_speed as int
    }

    pub closed spec fn wf(self) -> bool {
        self.max_norm >= 0 && self.max_angular_speed >= 0 && self.max_squared_norm
            == self.max_norm * self.max_norm
    }

    /// A cap with the given non-negative limits.
    pub fn new(max_speed: i64, max_angular_speed: i64) -> (r: CapSpeedSystem)
        requires
            max_speed >= 0,
            max_angular_speed >= 0,
        ensures
            r.wf(),
            r.max_speed() == max_speed,
            r.max_angular() == max_angular_speed,
    {
        let m = max_speed as i128;
        assert(m * m <= 0x4000_0000_0000_0000_0000_0000_0000_0000int) by (nonlinear_arith)
            requires
                0 <= m <= 0x8000_0000_0000_0000int,
        ;
        CapSpeedSystem { max_norm: max_speed, max_squared_norm: m * m, max_angular_speed }
    }

    /// Whether the limits are non-negative and consistent.
    pub fn is_wf(&self) -> (r: bool)
        ensures
            r == self.wf(),
    {
        let m = self.max_norm as i128;
        assert(m * m <= 0x4000_0000_0000_0000_0000_0000_0000_0000int) by (nonlinear_arith)
            requires
                -0x8000_0000_0000_0000int <= m <= 0x8000_0000_0000_0000int,
        ;
        self.max_norm >= 0 && self.max_angular_speed >= 0 && self.max_squared_norm == m * m
    }

    /// Rescales each staged linear velocity longer than the linear limit onto
    /// it, keeping its direction, and clamps each staged angular velocity to
    /// the angular limit.
    pub fn run(&self, velocities: &mut Vec<Option<Velocity>>)
        requires
            self.wf(),
        ensures
            final(velocities).len() == old(velocities).len(),
            forall|i: int|
                0 <= i < old(velocities).len() ==> #[trigger] final(velocities)[i] == cap_entity(
                    old(velocities)[i],
                    self.max_speed(),
                    self.max_angular(),
                ),
            forall|i: int|
                0 <= i < old(velocities).len() && (#[trigger] final(velocities)[i]) is Some
                    ==> within_limits(final(velocities)[i]->0, self.max_speed(), self.max_angular()),
    {
        let n = velocities.len();
        let mut i: usize = 0;
        while i < n
            invariant
                n == velocities.len() == old(velocities).len(),
                i <= n,
                self.wf(),
                forall|j: int|
                    0 <= j < i ==> #[trigger] velocities[j] == cap_entity(
                        old(velocities)[j],
                        self.max_speed(),
                        self.max_angular(),
                    ),
                forall|j: int| i <= j < n ==> #[trigger] velocities[j] == old(velocities)[j],
            decreases n - i,
        {
            if let Some(v) = velocities[i] {
                let capped = self.cap(v);
                velocities.set(i, Some(capped));
            }
            i += 1;
        }
        assert forall|i: int|
            0 <= i < old(velocities).len() && (#[trigger] velocities[i]) is Some implies within_limits(
            velocities[i]->0,
            self.max_speed(),
            self.max_angular(),
        ) by {
            lemma_capped_within_limits(old(velocities)[i]->0, self.max_speed(), self.max_angular());
        }
    }

    fn cap(&self, v: Velocity) -> (r: Velocity)
        requires
            self.wf(),
        ensures
            r == cap_velocity(v, self.max_speed(), self.max_angular()),
    {
        let x = v.linear.x as i128;
        let y = v.linear.y as i128;
        let m = self.max_norm as i128;
        assert(0 <= x * x <= 0x4000_0000_0000_0000_0000_0000_0000_0000int) by (nonlinear_arith)
            requires
                -0x8000_0000_0000_0000int <= x <= 0x8000_0000_0000_0000int,
        ;
        assert(0 <= y * y <= 0x4000_0000_0000_0000_0000_0000_0000_0000int) by (nonlinear_arith)
            requires
                -0x8000_0000_0000_0000int <= y <= 0x8000_0000_0000_0000int,
        ;
        let sq: u128 = (x * x) as u128 + (y * y) as u128;
        let mut linear = v.linear;
        if sq > self.max_squared_norm as u128 {
            let r = ceil_sqrt_u128(sq) as i128;
            proof {
                lemma_ceil_root_exceeds(sq as int, r as int, m as int);
            }
            assert(abs(x * m) <= 0x4000_0000_0000_0000_0000_0000_0000_0000int) by (nonlinear_arith)
                requires
                    -0x8000_0000_0000_0000int <= x <= 0x8000_0000_0000_0000int,
                    0 <= m <= 0x8000_0000_0000_0000int,
            ;
            assert(abs(y * m) <= 0x4000_0000_0000_0000_0000_0000_0000_0000int) by (nonlinear_arith)
                requires
                    -0x8000_0000_0000_0000int <= y <= 0x8000_0000_0000_0000int,
                    0 <= m <= 0x8000_0000_0000_0000int,
            ;
            let nx = trunc_div_i128(x * m, r);
            let ny = trunc_div_i128(y * m, r);
            proof {
                lemma_scaled_shrinks(x as int, m as int, r as int);
                lemma_scaled_shrinks(y as int, m as int, r as int);
            }
            linear = Vector2 { x: nx as i64, y: ny as i64 };
        }
        let mut angular = v.angular;
        if angular > self.max_angular_speed {
            angular = self.max_angular_speed;
        } else if angular < -self.max_angular_speed {
            angular = -self.max_angular_speed;
        }
        Velocity { linear, angular }
    }
}

impl Default for CapSpeedSystem {
    /// The cap of 50 units per second and half a turn per second.
    fn default() -> (r: CapSpeedSystem)
        ensures
            r.wf(),
            r.max_speed() == 50_000_000,
            r.max_angular() == 3_141_593,
    {
        CapSpeedSystem::new(50_000_000, 3_141_593)
    }
}

/// Linear speed and angular speed of `v` lie within the limits.
pub open spec fn within_limits(v: Velocity, max: int, max_angular: int) -> bool {
    norm_sq(v.linear) <= max * max && -max_angular <= v.angular <= max_angular
}

/// Where the squared length exceeds `m * m`, its ceiling root exceeds `m`.
proof fn lemma_ceil_root_exceeds(n: int, r: int, m: int)
    requires
        is_ceil_sqrt(n, r),
        n > m * m,
        m >= 0,
    ensures
        r > m,
{
    if r <= m {
        assert(r * r <= m * m) by (nonlinear_arith)
            requires
                0 <= r <= m,
        ;
    }
}

/// Scaling by `m / r` with `m < r`, rounded toward zero, shrinks a component
/// and keeps its sign.
proof fn lemma_scaled_shrinks(a: int, m: int, r: int)
    requires
        0 <= m < r,
    ensures
        abs(trunc_div(a * m, r)) <= abs(a),
        abs(trunc_div(a * m, r)) * r <= abs(a) * m,
        a >= 0 ==> trunc_div(a * m, r) >= 0,
        a <= 0 ==> trunc_div(a * m, r) <= 0,
{
    lemma_trunc_div_bounds(a * m, r);
    let q = abs(trunc_div(a * m, r));
    assert(abs(a * m) == abs(a) * m) by (nonlinear_arith)
        requires
            m >= 0,
    ;
    assert(a * m >= 0 <== a >= 0) by (nonlinear_arith)
        requires
            m >= 0,
    ;
    assert(a * m <= 0 <== a <= 0) by (nonlinear_arith)
        requires
            m >= 0,
    ;
    assert(q <= abs(a)) by (nonlinear_arith)
        requires
            q * r <= abs(a) * m,
            0 <= m < r,
            q >= 0,
            abs(a) >= 0,
    ;
}

/// After the cap, the linear speed is at most the linear limit and the
/// angular speed lies within the angular limit.
pub proof fn lemma_capped_within_limits(v: Velocity, max: int, max_angular: int)
    requires
        0 <= max <= i64::MAX,
        0 <= max_angular <= i64::MAX,
    ensures
        within_limits(cap_velocity(v, max, max_angular), max, max_angular),
{
    let n = norm_sq(v.linear);
    if n > max * max {
        let r = ceil_sqrt(n);
        lemma_ceil_sqrt_exists(n);
        lemma_ceil_root_exceeds(n, r, max);
        let x = v.linear.x as int;
        let y = v.linear.y as int;
        lemma_scaled_shrinks(x, max, r);
        lemma_scaled_shrinks(y, max, r);
        let qx = abs(trunc_div(x * max, r));
        let qy = abs(trunc_div(y * max, r));
        assert(x * x == abs(x) * abs(x)) by (nonlinear_arith);
        assert(y * y == abs(y) * abs(y)) by (nonlinear_arith);
        lemma_sum_of_squares_shrinks(qx, qy, abs(x), abs(y), max, r);
        let c = cap_velocity(v, max, max_angular).linear;
        assert(c.x * c.x == qx * qx) by (nonlinear_arith)
            requires
                abs(c.x as int) == qx,
        ;
        assert(c.y * c.y == qy * qy) by (nonlinear_arith)
            requires
                abs(c.y as int) == qy,
        ;
    }
}

/// A linear velocity longer than the limit keeps its direction under the
/// cap: each component keeps its sign and does not grow, and the cross
/// product of the capped and the original vector, taken over magnitudes,
/// lies between `-|y|` and `|x|` (rounding alone moves it off zero). Its
/// length reaches the limit up to rounding: with each magnitude raised by
/// one, its squared length exceeds `max^2 * ((r - 1) / r)^2`, where `r` is
/// the ceiling of the original length.
pub proof fn lemma_cap_keeps_direction(v: Vector2, max: int)
    requires
        0 <= max <= i64::MAX,
        norm_sq(v) > max * max,
    ensures
        ({
            let c = cap_linear(v, max);
            &&& v.x >= 0 ==> c.x >= 0
            &&& v.x <= 0 ==> c.x <= 0
            &&& v.y >= 0 ==> c.y >= 0
            &&& v.y <= 0 ==> c.y <= 0
            &&& abs(c.x as int) <= abs(v.x as int)
            &&& abs(c.y as int) <= abs(v.y as int)
            &&& -abs(v.y as int) <= abs(c.x as int) * abs(v.y as int) - abs(c.y as int) * abs(
                v.x as int,
            ) <= abs(v.x as int)
            &&& ((abs(c.x as int) + 1) * (abs(c.x as int) + 1) + (abs(c.y as int) + 1) * (abs(
                c.y as int,
            ) + 1)) * (ceil_sqrt(norm_sq(v)) * ceil_sqrt(norm_sq(v))) > max * max * ((ceil_sqrt(
                norm_sq(v),
            ) - 1) * (ceil_sqrt(norm_sq(v)) - 1))
        }),
{
    let n = norm_sq(v);
    let r = ceil_sqrt(n);
    lemma_ceil_sqrt_exists(n);
    lemma_ceil_root_exceeds(n, r, max);
    let x = v.x as int;
    let y = v.y as int;
    lemma_scaled_shrinks(x, max, r);
    lemma_scaled_shrinks(y, max, r);
    lemma_trunc_div_bounds(x * max, r);
    lemma_trunc_div_bounds(y * max, r);
    assert(abs(x * max) == abs(x) * max) by (nonlinear_arith)
        requires
            max >= 0,
    ;
    assert(abs(y * max) == abs(y) * max) by (nonlinear_arith)
        requires
            max >= 0,
    ;
    let qx = abs(trunc_div(x * max, r));
    let qy = abs(trunc_div(y * max, r));
    lemma_rounded_ratio(qx, qy, abs(x), abs(y), max, r);
    assert(x * x == abs(x) * abs(x)) by (nonlinear_arith);
    assert(y * y == abs(y) * abs(y)) by (nonlinear_arith);
    lemma_rounded_reaches(qx, qy, abs(x), abs(y), max, r);
}

proof fn lemma_rounded_reaches(qx: int, qy: int, ax: int, ay: int, m: int, r: int)
    requires
        qx >= 0 && qy >= 0 && ax >= 0 && ay >= 0 && m >= 0,
        r > 0,
        ax * m < qx * r + r,
        ay * m < qy * r + r,
        ax * ax + ay * ay > (r - 1) * (r - 1),
    ensures
        ((qx + 1) * (qx + 1) + (qy + 1) * (qy + 1)) * (r * r) > m * m * ((r - 1) * (r - 1)),
{
    assert((qx + 1) * r == qx * r + r) by (nonlinear_arith);
    assert((qy + 1) * r == qy * r + r) by (nonlinear_arith);
    assert(0 <= ax * m) by (nonlinear_arith)
        requires
            ax >= 0 && m >= 0,
    ;
    assert(0 <= ay * m) by (nonlinear_arith)
        requires
            ay >= 0 && m >= 0,
    ;
    assert((qy + 1) * r * ((qy + 1) * r) >= ay * m * (ay * m)) by (nonlinear_arith)
        requires
            0 <= ay * m < (qy + 1) * r,
    ;
    assert((qx + 1) * r * ((qx + 1) * r) == ((qx + 1) * (qx + 1)) * (r * r)) by (nonlinear_arith);
    assert((qy + 1) * r * ((qy + 1) * r) == ((qy + 1) * (qy + 1)) * (r * r)) by (nonlinear_arith);
    assert(ax * m * (ax * m) == (ax * ax) * (m * m)) by (nonlinear_arith);
    assert(ay * m * (ay * m) == (ay * ay) * (m * m)) by (nonlinear_arith);
    vstd::arithmetic::mul::lemma_mul_is_distributive_add_other_way(
        r * r,
        (qx + 1) * (qx + 1),
        (qy + 1) * (qy + 1),
    );
    vstd::arithmetic::mul::lemma_mul_is_distributive_add_other_way(m * m, ax * ax, ay * ay);
    assert((ax * ax + ay * ay) * (m * m) >= ((r - 1) * (r - 1)) * (m * m)) by (nonlinear_arith)
        requires
            ax * ax + ay * ay > (r - 1) * (r - 1),
            m * m >= 0,
    ;
    assert(m * m * ((r - 1) * (r - 1)) == ((r - 1) * (r - 1)) * (m * m)) by (nonlinear_arith);
    assert((qx + 1) * r * ((qx + 1) * r) > ax * m * (ax * m)) by (nonlinear_arith)
        requires
            0 <= ax * m < (qx + 1) * r,
    ;
}

proof fn lemma_rounded_ratio(qx: int, qy: int, ax: int, ay: int, m: int, r: int)
    requires
        qx >= 0 && qy >= 0 && ax >= 0 && ay >= 0,
        r > 0,
        qx * r <= ax * m < qx * r + r,
        qy * r <= ay * m < qy * r + r,
    ensures
        -ay <= qx * ay - qy * ax <= ax,
{
    assert(r * (qx * ay - qy * ax) == (qx * r) * ay - (qy * r) * ax) by (nonlinear_arith);
    assert((qx * r) * ay <= (ax * m) * ay) by (nonlinear_arith)
        requires
            qx * r <= ax * m,
            ay >= 0,
    ;
    assert((qy * r) * ax > (ay * m - r) * ax || ax == 0) by (nonlinear_arith)
        requires
            ay * m < qy * r + r,
            ax >= 0,
    ;
    assert((qx * r) * ay > (ax * m - r) * ay || ay == 0) by (nonlinear_arith)
        requires
            ax * m < qx * r + r,
            ay >= 0,
    ;
    assert((qy * r) * ax <= (ay * m) * ax) by (nonlinear_arith)
        requires
            qy * r <= ay * m,
            ax >= 0,
    ;
    assert((ax * m) * ay == (ay * m) * ax) by (nonlinear_arith);
    assert(r * (qx * ay - qy * ax) < r * ax || ax == 0) by (nonlinear_arith)
        requires
            r * (qx * ay - qy * ax) == (qx * r) * ay - (qy * r) * ax,
            (qx * r) * ay <= (ax * m) * ay,
            (qy * r) * ax > (ay * m - r) * ax || ax == 0,
            (ax * m) * ay == (ay * m) * ax,
    ;
    assert(r * (qx * ay - qy * ax) > -r * ay || ay == 0) by (nonlinear_arith)
        requires
            r * (qx * ay - qy * ax) == (qx * r) * ay - (qy * r) * ax,
            (qy * r) * ax <= (ay * m) * ax,
            (qx * r) * ay > (ax * m - r) * ay || ay == 0,
            (ax * m) * ay == (ay * m) * ax,
    ;
    if ax == 0 {
        assert(qx == 0) by (nonlinear_arith)
            requires
                qx * r <= ax * m,
                ax == 0,
                r > 0,
                qx >= 0,
        ;
    }
    if ay == 0 {
        assert(qy == 0) by (nonlinear_arith)
            requires
                qy * r <= ay * m,
                ay == 0,
                r > 0,
                qy >= 0,
        ;
    }
    if ax > 0 {
        assert(qx * ay - qy * ax < ax) by (nonlinear_arith)
            requires
                r * (qx * ay - qy * ax) < r * ax,
                r > 0,
        ;
    }
    if ay > 0 {
        assert(qx * ay - qy * ax > -ay) by (nonlinear_arith)
            requires
                r * (qx * ay - qy * ax) > -r * ay,
                r > 0,
        ;
    }
}

proof fn lemma_sum_of_squares_shrinks(qx: int, qy: int, ax: int, ay: int, m: int, r: int)
    requires
        qx >= 0 && qy >= 0 && ax >= 0 && ay >= 0,
        0 <= m < r,
        qx * r <= ax * m,
        qy * r <= ay * m,
        ax * ax + ay * ay <= r * r,
    ensures
        qx * qx + qy * qy <= m * m,
{
    assert(qx * r * (qx * r) <= ax * m * (ax * m)) by (nonlinear_arith)
        requires
            0 <= qx * r <= ax * m,
    ;
    assert(qy * r * (qy * r) <= ay * m * (ay * m)) by (nonlinear_arith)
        requires
            0 <= qy * r <= ay * m,
    ;
    assert(qx * r * (qx * r) == (qx * qx) * (r * r)) by (nonlinear_arith);
    assert(qy * r * (qy * r) == (qy * qy) * (r * r)) by (nonlinear_arith);
    assert(ax * m * (ax * m) == (ax * ax) * (m * m)) by (nonlinear_arith);
    assert(ay * m * (ay * m) == (ay * ay) * (m * m)) by (nonlinear_arith);
    vstd::arithmetic::mul::lemma_mul_is_distributive_add_other_way(r * r, qx * qx, qy * qy);
    vstd::arithmetic::mul::lemma_mul_is_distributive_add_other_way(m * m, ax * ax, ay * ay);
    assert((ax * ax + ay * ay) * (m * m) <= (r * r) * (m * m)) by (nonlinear_arith)
        requires
            ax * ax + ay * ay <= r * r,
    ;
    assert(qx * qx + qy * qy <= m * m) by (nonlinear_arith)
        requires
            (qx * qx + qy * qy) * (r * r) <= (r * r) * (m * m),
            r > 0,
    ;
}

} // verus!
