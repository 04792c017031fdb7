//! One joint of a skeleton.

use crate::collada::error::{Error, ErrorKind, Stage};
use crate::collada::util::{
    fault, parse_transformation, required, required_attribute, transformation_model,
};
use crate::math::{Matrix4, Scalar};
use crate::xml_tree::node::NodeModel;
use crate::xml_tree::tree::XmlTree;
use vstd::prelude::*;

verus! {

/// A joint: its id, the arena index of its parent, its default local
/// transform and the arena indices of its children.
#[derive(Clone, Debug)]
pub struct SkeletonNode<S> {
    pub id: String,
    pub parent: Option<usize>,
    pub default_trans: Matrix4<S>,
    pub children: Vec<usize>,
}

/// The model of a joint; its transform is the 16 entries of the matrix.
pub struct SkeletonNodeModel<S> {
    pub id: Seq<char>,
    pub parent: Option<usize>,
    pub default_trans: Seq<S>,
    pub children: Seq<usize>,
}

impl<S> View for SkeletonNode<S> {
    type V = SkeletonNodeModel<S>;

    open spec fn view(&self) -> SkeletonNodeModel<S> {
        SkeletonNodeModel {
            id: self.id@,
            parent: self.parent,
            default_trans: self.default_trans.values@,
            children: self.children@,
        }
    }
}

/// What the element at `node` decodes to as a joint with the parent
/// `parent` and no children yet: it must have an id, and its transform
/// operators must decode.
pub open spec fn skeleton_node_model<S: Scalar>(
    tree: Seq<NodeModel>,
    node: int,
    parent: Option<usize>,
) -> Result<SkeletonNodeModel<S>, Error> {
    if !(0 <= node < tree.len()) {
        Err(fault(ErrorKind::Structure, Stage::Skeleton))
    } else {
        match required(tree[node], "id", Stage::Skeleton) {
            Err(error) => Err(error),
            Ok(id) => match transformation_model::<S>(tree, node) {
                Err(error) => Err(error),
                Ok(default_trans) => Ok(
                    SkeletonNodeModel { id, parent, default_trans, children: Seq::empty() },
                ),
            },
        }
    }
}

impl<S: Scalar> SkeletonNode<S> {
    /// The arena indices of the children.
    pub fn children(&self) -> (children: &[usize])
        ensures
            children@ == self@.children,
    {
        self.children.as_slice()
    }

    /// Decodes the element at `node` as a joint with the parent `parent`
    /// and no children yet.
    pub fn parse_node(node: usize, tree: &XmlTree, parent: Option<usize>) -> (parsed: Result<
        SkeletonNode<S>,
        Error,
    >)
        ensures
            match parsed {
                Ok(joint) => skeleton_node_model::<S>(tree@, node as int, parent) == Ok::<
                    SkeletonNodeModel<S>,
                    Error,
                >(joint@),
                Err(error) => skeleton_node_model::<S>(tree@, node as int, parent) == Err::<
                    SkeletonNodeModel<S>,
                    Error,
                >(error),
            },
    {
        let element = match tree.get_node(node) {
            Some(element) => element,
            None => {
                return Err(Error::new(ErrorKind::Structure, Stage::Skeleton));
            },
        };
        let id = required_attribute(element, "id", Stage::Skeleton)?;
        let default_trans = parse_transformation::<S>(node, tree)?;
        Ok(SkeletonNode { id: id.to_owned(), parent, default_trans, children: Vec::new() })
    }
}

} // verus!
