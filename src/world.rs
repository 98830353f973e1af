//! The component store: one column per component kind, indexed by entity.
use vstd::prelude::*;
use crate::components::{Ball, BodyPose, Paddle, Rotation, Side, Vector2, Velocity};
use crate::fixed::SCALE;

verus! {

/// Columns of components; entity `i` owns the `i`-th slot of each.
pub struct World {
    pub poses: Vec<Option<BodyPose>>,
    pub velocities: Vec<Option<Velocity>>,
    pub staged: Vec<Option<Velocity>>,
    pub paddles: Vec<Option<Paddle>>,
    pub balls: Vec<Option<Ball>>,
}

/// What a world holds.
pub ghost struct WorldModel {
    pub poses: Seq<Option<BodyPose>>,
    pub velocities: Seq<Option<Velocity>>,
    pub staged: Seq<Option<Velocity>>,
    pub paddles: Seq<Option<Paddle>>,
    pub balls: Seq<Option<Ball>>,
}

impl WorldModel {
    /// Every column has one slot per entity.
    pub open spec fn wf(self) -> bool {
        &&& self.velocities.len() == self.poses.len()
        &&& self.staged.len() == self.poses.len()
        &&& self.paddles.len() == self.poses.len()
        &&& self.balls.len() == self.poses.len()
    }

    /// The model with the given entity appended.
    pub open spec fn with_entity(
        self,
        pose: BodyPose,
        velocity: Velocity,
        paddle: Option<Paddle>,
        ball: Option<Ball>,
    ) -> WorldModel {
        WorldModel {
            poses: self.poses.push(Some(pose)),
            velocities: self.velocities.push(Some(velocity)),
            staged: self.staged.push(Some(velocity)),
            paddles: self.paddles.push(paddle),
            balls: self.balls.push(ball),
        }
    }
}

impl View for World {
    type V = WorldModel;

    open spec fn view(&self) -> WorldModel {
        WorldModel {
            poses: self.poses@,
            velocities: self.velocities@,
            staged: self.staged@,
            paddles: self.paddles@,
            balls: self.balls@,
        }
    }
}

/// Height and width of the arena.
pub const ARENA_HEIGHT: i64 = 100_000_000;

pub const ARENA_WIDTH: i64 = 100_000_000;

/// Width of a paddle.
pub const PADDLE_WIDTH: i64 = 4_000_000;

/// Height of the ball.
pub const BALL_HEIGHT: i64 = 4_000_000;

/// Horizontal positions of the paddles: a width and a half from each
/// side wall.
pub const LEFT_PADDLE_X: i64 = 6_000_000;

pub const RIGHT_PADDLE_X: i64 = 94_000_000;

/// Height at which paddles start.
pub const PADDLE_START_Y: i64 = 50_000_000;

/// Corner at which the ball starts.
pub const BALL_START_X: i64 = 48_000_000;

pub const BALL_START_Y: i64 = 48_000_000;

/// Linear velocity with which the ball starts.
pub const BALL_START_VX: i64 = -18_000_000;

pub const BALL_START_VY: i64 = 2_000_000;

impl World {
    /// A world without entities.
    pub fn new() -> (r: World)
        ensures
            r@.wf(),
            r@.poses.len() == 0,
    {
        World {
            poses: Vec::new(),
            velocities: Vec::new(),
            staged: Vec::new(),
            paddles: Vec::new(),
            balls: Vec::new(),
        }
    }

    /// Number of entities.
    pub fn len(&self) -> (r: usize)
        requires
            self@.wf(),
        ensures
            r == self@.poses.len(),
    {
        self.poses.len()
    }

    /// Adds an entity whose current and staged velocities both start at
    /// `velocity`, and returns it.
    pub fn create_entity(
        &mut self,
        pose: BodyPose,
        velocity: Velocity,
        paddle: Option<Paddle>,
        ball: Option<Ball>,
    ) -> (e: usize)
        requires
            old(self)@.wf(),
        ensures
            final(self)@ == old(self)@.with_entity(pose, velocity, paddle, ball),
            final(self)@.wf(),
            e == old(self)@.poses.len(),
    {
        let e = self.poses.len();
        self.poses.push(Some(pose));
        self.velocities.push(Some(velocity));
        self.staged.push(Some(velocity));
        self.paddles.push(paddle);
        self.balls.push(ball);
        e
    }

    /// Adds a paddle of `side` at rest, upright, at horizontal position `x`
    /// and mid height.
    pub fn create_paddle(&mut self, side: Side, x: i64) -> (e: usize)
        requires
            old(self)@.wf(),
        ensures
            final(self)@ == old(self)@.with_entity(
                BodyPose {
                    position: Vector2 { x, y: PADDLE_START_Y },
                    rotation: Rotation { cos: SCALE, sin: 0 },
                },
                Velocity { linear: Vector2 { x: 0, y: 0 }, angular: 0 },
                Some(Paddle { side, width: SCALE, height: SCALE }),
                None,
            ),
            final(self)@.wf(),
            e == old(self)@.poses.len(),
    {
        let pose = BodyPose {
            position: Vector2 { x, y: PADDLE_START_Y },
            rotation: Rotation::identity(),
        };
        self.create_entity(pose, Velocity::zero(), Some(Paddle::new(side)), None)
    }

    /// Adds the ball at the centre of the arena, moving with `linear`.
    pub fn create_ball(&mut self, linear: Vector2) -> (e: usize)
        requires
            old(self)@.wf(),
        ensures
            final(self)@ == old(self)@.with_entity(
                BodyPose {
                    position: Vector2 {
                        x: BALL_START_X,
                        y: BALL_START_Y,
                    },
                    rotation: Rotation { cos: SCALE, sin: 0 },
                },
                Velocity { linear, angular: 0 },
                None,
                Some(Ball),
            ),
            final(self)@.wf(),
            e == old(self)@.poses.len(),
    {
        let pose = BodyPose {
            position: Vector2 {
                x: BALL_START_X,
                y: BALL_START_Y,
            },
            rotation: Rotation::identity(),
        };
        self.create_entity(pose, Velocity::from_linear(linear), None, Some(Ball))
    }
}

/// Pose of an upright paddle at horizontal position `x` and mid height.
pub open spec fn paddle_pose(x: i64) -> BodyPose {
    BodyPose {
        position: Vector2 { x, y: PADDLE_START_Y },
        rotation: Rotation { cos: SCALE, sin: 0 },
    }
}

/// Builds the scene: a paddle near each side wall, then the ball moving
/// left and slightly up.
pub fn initialise_paddles(world: &mut World)
    requires
        old(world)@.wf(),
    ensures
        final(world)@.wf(),
        final(world)@ == old(world)@.with_entity(
            paddle_pose(LEFT_PADDLE_X),
            Velocity { linear: Vector2 { x: 0, y: 0 }, angular: 0 },
            Some(Paddle::new_spec(Side::Left)),
            None,
        ).with_entity(
            paddle_pose(RIGHT_PADDLE_X),
            Velocity { linear: Vector2 { x: 0, y: 0 }, angular: 0 },
            Some(Paddle::new_spec(Side::Right)),
            None,
        ).with_entity(
            BodyPose {
                position: Vector2 { x: BALL_START_X, y: BALL_START_Y },
                rotation: Rotation { cos: SCALE, sin: 0 },
            },
            Velocity { linear: Vector2 { x: BALL_START_VX, y: BALL_START_VY }, angular: 0 },
            None,
            Some(Ball),
        ),
{
    world.create_paddle(Side::Left, LEFT_PADDLE_X);
    world.create_paddle(Side::Right, RIGHT_PADDLE_X);
    world.create_ball(Vector2 { x: BALL_START_VX, y: BALL_START_VY });
}

} // verus!
