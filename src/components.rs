//! Components and resources of the arena, and the column store that holds
//! them keyed by entity.
use vstd::prelude::*;
use crate::fixed::SCALE;

verus! {

/// A planar vector in fixed point.
#[derive(Clone, Copy, Debug, PartialEq, Eq, Structural)]
pub struct Vector2 {
    pub x: i64,
    pub y: i64,
}

/// A linear and an angular velocity, in fixed point per second.
#[derive(Clone, Copy, Debug, PartialEq, Eq, Structural)]
pub struct Velocity {
    pub linear: Vector2,
    pub angular: i64,
}

impl Velocity {
    /// A velocity with the given linear part and no rotation.
    pub fn from_linear(linear: Vector2) -> (r: Velocity)
        ensures
            r.linear == linear,
            r.angular == 0,
    {
        Velocity { linear, angular: 0 }
    }

    /// The velocity at rest.
    pub fn zero() -> (r: Velocity)
        ensures
            r.linear.x == 0 && r.linear.y == 0 && r.angular == 0,
    {
        Velocity { linear: Vector2 { x: 0, y: 0 }, angular: 0 }
    }
}

/// A planar rotation, held as its cosine and sine in fixed point.
#[derive(Clone, Copy, Debug, PartialEq, Eq, Structural)]
pub struct Rotation {
    pub cos: i64,
    pub sin: i64,
}

impl Rotation {
    /// Cosine and sine lie in [-1, 1].
    pub open spec fn wf(self) -> bool {
        -SCALE <= self.cos <= SCALE && -SCALE <= self.sin <= SCALE
    }

    /// The rotation by zero.
    pub fn identity() -> (r: Rotation)
        ensures
            r.cos == SCALE && r.sin == 0,
            r.wf(),
    {
        Rotation { cos: SCALE, sin: 0 }
    }
}

/// Position and orientation of a body.
#[derive(Clone, Copy, Debug, PartialEq, Eq, Structural)]
pub struct BodyPose {
    pub position: Vector2,
    pub rotation: Rotation,
}

/// Which player a paddle belongs to.
#[derive(Clone, Copy, Debug, PartialEq, Eq, Structural)]
pub enum Side {
    Left,
    Right,
}

/// Marks a paddle and the side whose input axes move it.
#[derive(Clone, Copy, Debug, PartialEq, Eq, Structural)]
pub struct Paddle {
    pub side: Side,
    pub width: i64,
    pub height: i64,
}

impl Paddle {
    pub open spec fn new_spec(side: Side) -> Paddle {
        Paddle { side, width: SCALE, height: SCALE }
    }

    /// A paddle of unit extent on the given side.
    pub fn new(side: Side) -> (r: Paddle)
        ensures
            r == Paddle::new_spec(side),
    {
        Paddle { side, width: SCALE, height: SCALE }
    }
}

/// Marks the ball: subject to gravity, not to paddle input.
#[derive(Clone, Copy, Debug, PartialEq, Eq, Structural)]
pub struct Ball;

/// Seconds elapsed since the previous tick, in fixed point.
#[derive(Clone, Copy, Debug, PartialEq, Eq, Structural)]
pub struct FrameTime {
    pub delta: i64,
}

/// Name of the analog axis that moves a paddle along its length.
pub fn linear_axis_name(side: Side) -> (r: &'static str)
    ensures
        side == Side::Left ==> r@ == "vertical_left_paddle"@,
        side == Side::Right ==> r@ == "vertical_right_paddle"@,
{
    match side {
        Side::Left => "vertical_left_paddle",
        Side::Right => "vertical_right_paddle",
    }
}

/// Name of the analog axis that turns a paddle.
pub fn angular_axis_name(side: Side) -> (r: &'static str)
    ensures
        side == Side::Left ==> r@ == "rotation_left_paddle"@,
        side == Side::Right ==> r@ == "rotation_right_paddle"@,
{
    match side {
        Side::Left => "rotation_left_paddle",
        Side::Right => "rotation_right_paddle",
    }
}

/// The values of the paddles' input axes sampled for this tick; `None`
/// where an axis is unbound or neutral.
#[derive(Clone, Copy, Debug, PartialEq, Eq)]
pub struct InputAxes {
    pub vertical_left: Option<i64>,
    pub vertical_right: Option<i64>,
    pub rotation_left: Option<i64>,
    pub rotation_right: Option<i64>,
}

/// An axis value, where present, lies in [-1, 1].
pub open spec fn axis_in_range(a: Option<i64>) -> bool {
    match a {
        Some(v) => -SCALE <= v <= SCALE,
        None => true,
    }
}

impl InputAxes {
    /// No axis gives a value.
    pub fn neutral() -> (r: InputAxes)
        ensures
            r.vertical_left is None && r.vertical_right is None,
            r.rotation_left is None && r.rotation_right is None,
    {
        InputAxes { vertical_left: None, vertical_right: None, rotation_left: None, rotation_right: None }
    }

    pub open spec fn wf(self) -> bool {
        axis_in_range(self.vertical_left) && axis_in_range(self.vertical_right) && axis_in_range(
            self.rotation_left,
        ) && axis_in_range(self.rotation_right)
    }

    pub open spec fn linear_spec(self, side: Side) -> Option<i64> {
        match side {
            Side::Left => self.vertical_left,
            Side::Right => self.vertical_right,
        }
    }

    pub open spec fn angular_spec(self, side: Side) -> Option<i64> {
        match side {
            Side::Left => self.rotation_left,
            Side::Right => self.rotation_right,
        }
    }

    /// The value of the axis that moves a paddle of `side` along its length.
    pub fn linear(&self, side: Side) -> (r: Option<i64>)
        ensures
            r == self.linear_spec(side),
    {
        match side {
            Side::Left => self.vertical_left,
            Side::Right => self.vertical_right,
        }
    }

    /// The value of the axis that turns a paddle of `side`.
    pub fn angular(&self, side: Side) -> (r: Option<i64>)
        ensures
            r == self.angular_spec(side),
    {
        match side {
            Side::Left => self.rotation_left,
            Side::Right => self.rotation_right,
        }
    }
}

} // verus!
