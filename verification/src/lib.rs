//! Rendering engine and command protocol for an addressable LED matrix.
//!
//! The crate models colours as signed fixed-point numbers, paints procedural
//! patterns into a bounds-checked pixel grid, cross-fades between patterns,
//! and decodes the remote-control byte stream that drives all of it.

pub mod client;
pub mod codec;
pub mod command;
pub mod decoder;
pub mod dispatch;
pub mod engine;
pub mod fixed;
pub mod fixedcolor;
pub mod geometry;
pub mod random;
pub mod render;
pub mod render_laws;
pub mod renderbuffer;
pub mod stream;
pub mod stream_laws;
pub mod tasks;
pub mod transition;
pub mod trig;
pub mod wire_laws;

pub use crate::engine::RenderEngine;
pub use crate::fixed::Fixed;
pub use crate::geometry::UVec2;
pub use crate::render::{RenderType, Renderer};
pub use crate::renderbuffer::RenderBuffer;
