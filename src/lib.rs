//! Frame-by-frame game logic on integer coordinates: motion with linear
//! acceleration and deceleration, per-axis movement against world bounds and
//! obstacles, rectangle and circle overlap tests, loading progress, the
//! game's state transitions, camera clamping and sprite animation frames.
pub mod game;
pub mod loading;
pub mod motion;
pub mod overlap;
pub mod vector;
