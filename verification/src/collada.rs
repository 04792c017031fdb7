//! The decoding layer: from the attributed tree of a document to its typed
//! assets.

use vstd::prelude::*;

pub mod accessor;
pub mod animation;
pub mod document;
pub mod error;
pub mod mesh;
pub mod skeleton;
pub mod skin;
pub mod source;
pub mod util;

pub use self::animation::Animation;
pub use self::document::controller::Controller;
pub use self::document::geometry::Geometry;
pub use self::document::visual_scene::{InstanceController, Node, NodeData, VisualScene};
pub use self::document::Document;
pub use self::mesh::primitive_elements::Shape;
pub use self::mesh::{GenericMesh, Vertex};
pub use self::skeleton::node::SkeletonNode;
pub use self::skeleton::Skeleton;
pub use self::skin::Skin;

verus! {

/// A mesh whose vertices are their positions.
pub type Mesh<S> = GenericMesh<crate::math::Vector3<S>, S>;

/// A corner of a shape: the indices of its position, texture coordinate,
/// normal and color.
pub type PTNCIndex = (usize, Option<usize>, Option<usize>, Option<usize>);

/// A corner of a shape without its color.
pub type PTNIndex = (usize, Option<usize>, Option<usize>);

} // verus!
