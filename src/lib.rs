//! Frame-cycling sprite animation: a fixed sequence of image handles shown in
//! turn, one step per elapsed period, with the leftover time carried over.

pub mod animation;
pub mod cycle;

pub use animation::{Animation, AnimationError};
pub use cycle::AnimationView;
