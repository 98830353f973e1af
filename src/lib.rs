//! Per-tick motion pipeline of a two-paddle arena game: dependency-ordered
//! update routines that accumulate and clamp the staged ("next frame")
//! velocity of every moving entity, in fixed-point arithmetic.
use vstd::prelude::*;

pub mod bundle;
pub mod components;
pub mod fixed;
pub mod pong;
pub mod schedule;
pub mod systems;
pub mod world;

pub use bundle::PongBundle;
pub use components::{Ball, Paddle, Side};
pub use pong::{Pause, Pong};
pub use pong::Pong as StartState;
pub use systems::ball::BallSystem;
pub use systems::gravity::{Gravity, GravitySystem};
pub use systems::paddle::PaddleSystem;
pub use systems::speed::CapSpeedSystem;

verus! {

} // verus!
