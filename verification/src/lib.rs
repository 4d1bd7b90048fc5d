//! The decisions behind two Wayland task bars.
//!
//! A bar is an event-driven program: the compositor reports outputs, surfaces,
//! pointer input and tag changes, and the bar answers with repaints, frame
//! requests and commands. This crate holds the state that those answers depend
//! on and the functions from event to next state and action. Connections, GPU
//! work and anything that computes with floating-point coordinates belong to
//! the program around it. Compositor objects are known here by `u64` numbers
//! that the program hands out, and coordinates by an opaque scalar type.

pub mod bar_input;
pub mod battery;
pub mod clock;
pub mod frame;
pub mod input;
pub mod keys;
pub mod layer;
pub mod layershell;
pub mod number;
pub mod render;
pub mod river;
pub mod scale;
pub mod tags;
pub mod taskbar;
pub mod text;

pub use crate::frame::{FrameEdge, FrameInfo};
pub use crate::input::{Capability, InputEvent, PointerEvent, PointerEventKind};
pub use crate::render::{RenderContext, ViewportInfo};
pub use crate::scale::Scale;
