//! The client's side: chunk data, the meshes made from it, the chunk store
//! and the light sources.

pub mod chunk;
pub mod coherence;
pub mod edit;
pub mod laws;
pub mod light;
pub mod lighting;
pub mod mesh;
pub mod region;
pub mod remesh;
pub mod store;
pub mod streaming;
