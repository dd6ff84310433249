//! A render-plugin core for drawing tessellated vector shapes as coloured
//! triangle meshes.
//!
//! The host engine owns the GPU pipeline, the shader modules, the entity
//! storage and the window; this crate owns the one piece of per-frame logic
//! worth stating precisely: gathering the live meshes, concatenating them
//! into one vertex buffer and one index buffer, recording the sub-range each
//! mesh occupies, and deriving the indexed draw calls that render them with
//! a shared pipeline bind.
//!
//! Index values are always mesh-local: a mesh's indices refer to that mesh's
//! own vertex list, and the consolidated buffers never rewrite them. Global
//! addressing happens purely through the base-vertex parameter of each draw
//! call.

pub mod pass;
pub mod utils;
