//! Thread-safety and lifecycle rules for one shared OpenGL context, its
//! deferred-destruction queue, and the shader source pipeline.

pub mod currency;
pub mod debug;
pub mod negotiate;
pub mod queue;
pub mod render;
pub mod shader;
pub mod text;
