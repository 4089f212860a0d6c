//! Core of a recursive ray tracer, split from its numeric shell.
//!
//! The scene registry, the frame buffer, the per-pixel task list, the
//! recursion budget and the animation state machines live here with full
//! contracts; the floating-point geometry that consumes them is left to the
//! binary around the library.

pub mod anim;
pub mod buffer;
pub mod registry;
pub mod trace;
