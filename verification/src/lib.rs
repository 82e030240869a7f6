//! Core of a small 2D platformer: a level grid compiled to trimesh
//! collision geometry, a contact classifier that turns raw sensor
//! contacts into semantic side events, and the side-effect state machine
//! (jump impulse, slide drag with steering, powerup pickup) that those
//! events drive.  The physics, audio and rendering engines live outside;
//! this crate holds the decisions and the arithmetic, stated and proved
//! over exact fixed-point integers.

pub mod fixed;
pub mod level;
pub mod side;
pub mod classify;
pub mod jump;
pub mod slide;
pub mod powerup;
pub mod input;
pub mod tick;
