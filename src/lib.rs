//! Rendering core of a small real-time 3D engine: the shader-program
//! registry with its fallback program, the material and mesh-renderer
//! composition, the per-frame draw-call batching pass and the engine's
//! run-state machine.

mod engine;
pub mod laws;
mod mesh;
mod renderer;
mod shaders;

pub use engine::{Engine, EngineMessage, EngineState};
pub use mesh::{Material, Mesh, MeshRenderer, MeshType};
pub use renderer::{select_main_camera, DefaultOpenGlRenderer, RenderCommand, Renderer};
pub use shaders::ShaderProgram;
