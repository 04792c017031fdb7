//! The generic attributed tree of a document: an arena of nodes, each with
//! its tag, its attributes and either children or text.

pub mod error;
pub mod node;
pub mod tree;

pub use self::node::XmlNode;
pub use self::tree::XmlTree;
