//! Scene script execution engine: a cooperative, frame-ticked interpreter
//! that drives a procedure of game-logic commands (entity movement,
//! animation, flags, branching) against a live scene, each command spanning
//! zero or more frames until it reports completion.

pub mod director;
pub mod math;
pub mod scene;
pub mod state;
pub mod texture;
