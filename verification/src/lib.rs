//! Decoding of COLLADA scene documents into typed meshes, skins, skeletons,
//! animations and scene graphs, with machine-checked contracts.

pub mod collada;
pub mod math;
pub mod text;
pub mod xml_tree;
