//! Skeletons: a hierarchy of joints, kept as a flat arena in pre-order.

use crate::collada::error::{Error, ErrorKind, Stage};
use crate::collada::skeleton::node::{skeleton_node_model, SkeletonNode, SkeletonNodeModel};
use crate::collada::util::{child_at, children_or_none, fault, has_tag, required, required_attribute};
use crate::math::Scalar;
use crate::text::same_text;
use crate::xml_tree::node::NodeModel;
use crate::xml_tree::tree::XmlTree;
use vstd::prelude::*;

pub mod node;

verus! {

/// A skeleton: its id and its joints in pre-order, the root first.
#[derive(Clone, Debug)]
pub struct Skeleton<S> {
    pub id: String,
    pub nodes: Vec<SkeletonNode<S>>,
}

/// The model of a skeleton.
pub struct SkeletonModel<S> {
    pub id: Seq<char>,
    pub nodes: Seq<SkeletonNodeModel<S>>,
}

/// The models of a list of joints.
pub open spec fn joints_model<S>(nodes: Seq<SkeletonNode<S>>) -> Seq<SkeletonNodeModel<S>> {
    Seq::new(nodes.len(), |i: int| nodes[i]@)
}

impl<S> View for Skeleton<S> {
    type V = SkeletonModel<S>;

    open spec fn view(&self) -> SkeletonModel<S> {
        SkeletonModel { id: self.id@, nodes: joints_model(self.nodes@) }
    }
}

/// The joint `joint` with one more child.
pub open spec fn with_joint<S>(joint: SkeletonNodeModel<S>, child: usize) -> SkeletonNodeModel<S> {
    SkeletonNodeModel { children: joint.children.push(child), ..joint }
}

/// The joints that the element at `node` and the elements below it append
/// to an arena that holds `base` joints: first the joint of the element,
/// with the parent `parent`, then, for each `node` child in document order,
/// the joints of that child, whose parent is the joint of the element.
pub open spec fn joints_of<S: Scalar>(
    tree: Seq<NodeModel>,
    node: int,
    parent: Option<usize>,
    base: int,
) -> Result<Seq<SkeletonNodeModel<S>>, Error>
    decreases tree.len() - node, tree[node].child_list().len() + 1,
{
    if !(0 <= node < tree.len()) || tree[node].name != "node"@ {
        Err(fault(ErrorKind::Structure, Stage::Skeleton))
    } else {
        match skeleton_node_model::<S>(tree, node, parent) {
            Err(error) => Err(error),
            Ok(joint) => joints_below::<S>(tree, node, tree[node].child_list(), 0, base, seq![joint]),
        }
    }
}

/// The joints `joints` of the element at `node`, which start at index
/// `base` of the arena, followed by the joints of its `node` children from
/// position `from` on; each such child becomes a child of the first joint.
pub open spec fn joints_below<S: Scalar>(
    tree: Seq<NodeModel>,
    node: int,
    children: Seq<usize>,
    from: int,
    base: int,
    joints: Seq<SkeletonNodeModel<S>>,
) -> Result<Seq<SkeletonNodeModel<S>>, Error>
    decreases tree.len() - node, children.len() - from,
{
    if from < 0 || from >= children.len() {
        Ok(joints)
    } else {
        let child = children[from] as int;
        if !(node < child < tree.len()) {
            Err(fault(ErrorKind::Structure, Stage::Skeleton))
        } else if tree[child].name != "node"@ {
            joints_below::<S>(tree, node, children, from + 1, base, joints)
        } else {
            let index = (base + joints.len()) as usize;
            match joints_of::<S>(tree, child, Some(base as usize), base + joints.len()) {
                Err(error) => Err(error),
                Ok(below) => joints_below::<S>(
                    tree,
                    node,
                    children,
                    from + 1,
                    base,
                    joints.update(0, with_joint(joints[0], index)) + below,
                ),
            }
        }
    }
}

/// What the element at `node` decodes to as a skeleton: its tag must be
/// `node`, it must have an id, and it and the `node` elements below it must
/// decode as joints.
pub open spec fn skeleton_model<S: Scalar>(tree: Seq<NodeModel>, node: int) -> Result<
    SkeletonModel<S>,
    Error,
> {
    if !(0 <= node < tree.len()) || tree[node].name != "node"@ {
        Err(fault(ErrorKind::Structure, Stage::Skeleton))
    } else {
        match required(tree[node], "id", Stage::Skeleton) {
            Err(error) => Err(error),
            Ok(id) => match joints_of::<S>(tree, node, None, 0) {
                Err(error) => Err(error),
                Ok(nodes) => Ok(SkeletonModel { id, nodes }),
            },
        }
    }
}

/// The joints `joints`, which start at index `base` of an arena, are a
/// hierarchy below `parent` in pre-order: the first joint has the parent
/// `parent`; every later joint has a parent among the joints before it; and
/// every child that a joint lists comes after it and has it as its parent.
pub open spec fn hierarchy<S>(joints: Seq<SkeletonNodeModel<S>>, base: int, parent: Option<usize>) -> bool {
    &&& joints.len() >= 1
    &&& joints[0].parent == parent
    &&& forall|i: int|
        1 <= i < joints.len() ==> (#[trigger] joints[i]).parent is Some && base
            <= joints[i].parent->0 < base + i
    &&& forall|k: int, j: int|
        0 <= k < joints.len() && 0 <= j < joints[k].children.len() ==> {
            let child = #[trigger] joints[k].children[j];
            &&& base + k < child < base + joints.len()
            &&& joints[child - base].parent == Some((base + k) as usize)
        }
}

/// The joints of an element are a hierarchy below the parent given.
pub proof fn lemma_joints_of_hierarchy<S: Scalar>(
    tree: Seq<NodeModel>,
    node: int,
    parent: Option<usize>,
    base: int,
)
    requires
        0 <= base,
        joints_of::<S>(tree, node, parent, base) is Ok,
        base + joints_of::<S>(tree, node, parent, base)->Ok_0.len() <= usize::MAX,
    ensures
        hierarchy(joints_of::<S>(tree, node, parent, base)->Ok_0, base, parent),
    decreases tree.len() - node, tree[node].child_list().len() + 1,
{
    let joint = skeleton_node_model::<S>(tree, node, parent)->Ok_0;
    let start = seq![joint];
    assert(hierarchy(start, base, parent));
    lemma_joints_below_hierarchy::<S>(tree, node, tree[node].child_list(), 0, base, start, parent);
}

/// Adding the joints of further children keeps a hierarchy.
pub proof fn lemma_joints_below_hierarchy<S: Scalar>(
    tree: Seq<NodeModel>,
    node: int,
    children: Seq<usize>,
    from: int,
    base: int,
    joints: Seq<SkeletonNodeModel<S>>,
    parent: Option<usize>,
)
    requires
        0 <= base,
        0 <= from,
        0 <= node < tree.len(),
        hierarchy(joints, base, parent),
        joints_below::<S>(tree, node, children, from, base, joints) is Ok,
        base + joints_below::<S>(tree, node, children, from, base, joints)->Ok_0.len()
            <= usize::MAX,
    ensures
        hierarchy(joints_below::<S>(tree, node, children, from, base, joints)->Ok_0, base, parent),
        joints_below::<S>(tree, node, children, from, base, joints)->Ok_0.len() >= joints.len(),
    decreases tree.len() - node, children.len() - from,
{
    if from >= children.len() {
    } else {
        let child = children[from] as int;
        if tree[child].name != "node"@ {
            lemma_joints_below_hierarchy::<S>(tree, node, children, from + 1, base, joints, parent);
        } else {
            let index = (base + joints.len()) as usize;
            let below = joints_of::<S>(tree, child, Some(base as usize), base + joints.len())->Ok_0;
            let next = joints.update(0, with_joint(joints[0], index)) + below;
            lemma_joints_of_length::<S>(tree, child, Some(base as usize), base + joints.len());
            lemma_joints_below_length::<S>(tree, node, children, from + 1, base, next);
            lemma_joints_of_hierarchy::<S>(tree, child, Some(base as usize), base + joints.len());
            lemma_joints_below_step::<S>(joints, below, base, parent);
            lemma_joints_below_hierarchy::<S>(tree, node, children, from + 1, base, next, parent);
        }
    }
}

/// An element contributes at least its own joint.
pub proof fn lemma_joints_of_length<S: Scalar>(
    tree: Seq<NodeModel>,
    node: int,
    parent: Option<usize>,
    base: int,
)
    requires
        joints_of::<S>(tree, node, parent, base) is Ok,
    ensures
        joints_of::<S>(tree, node, parent, base)->Ok_0.len() >= 1,
    decreases tree.len() - node, tree[node].child_list().len() + 1,
{
    let joint = skeleton_node_model::<S>(tree, node, parent)->Ok_0;
    lemma_joints_below_length::<S>(tree, node, tree[node].child_list(), 0, base, seq![joint]);
}

/// Adding the joints of further children removes none.
pub proof fn lemma_joints_below_length<S: Scalar>(
    tree: Seq<NodeModel>,
    node: int,
    children: Seq<usize>,
    from: int,
    base: int,
    joints: Seq<SkeletonNodeModel<S>>,
)
    requires
        0 <= from,
        joints.len() >= 1,
        joints_below::<S>(tree, node, children, from, base, joints) is Ok,
    ensures
        joints_below::<S>(tree, node, children, from, base, joints)->Ok_0.len() >= joints.len(),
    decreases tree.len() - node, children.len() - from,
{
    if from >= children.len() {
    } else {
        let child = children[from] as int;
        if tree[child].name != "node"@ {
            lemma_joints_below_length::<S>(tree, node, children, from + 1, base, joints);
        } else {
            let index = (base + joints.len()) as usize;
            let below = joints_of::<S>(tree, child, Some(base as usize), base + joints.len())->Ok_0;
            let next = joints.update(0, with_joint(joints[0], index)) + below;
            lemma_joints_below_length::<S>(tree, node, children, from + 1, base, next);
        }
    }
}

/// The joints `joints`, which start at index `base` of an arena, are listed
/// by their parents: every joint after the first is among the children of
/// its parent, and the children of a joint are listed by rising index, so
/// that none is listed twice.
pub open spec fn family<S>(joints: Seq<SkeletonNodeModel<S>>, base: int) -> bool {
    &&& forall|i: int|
        1 <= i < joints.len() ==> (#[trigger] joints[i]).parent is Some && joints[joints[i].parent->0
            - base].children.contains((base + i) as usize)
    &&& forall|k: int, j: int, l: int|
        0 <= k < joints.len() && 0 <= j < l < joints[k].children.len() ==> (
        #[trigger] joints[k].children[j]) < (#[trigger] joints[k].children[l])
}

/// In the joints of an element every joint after the first is listed by
/// its parent, once.
pub proof fn lemma_joints_of_family<S: Scalar>(
    tree: Seq<NodeModel>,
    node: int,
    parent: Option<usize>,
    base: int,
)
    requires
        0 <= base,
        joints_of::<S>(tree, node, parent, base) is Ok,
        base + joints_of::<S>(tree, node, parent, base)->Ok_0.len() <= usize::MAX,
    ensures
        family(joints_of::<S>(tree, node, parent, base)->Ok_0, base),
    decreases tree.len() - node, tree[node].child_list().len() + 1,
{
    let joint = skeleton_node_model::<S>(tree, node, parent)->Ok_0;
    let start = seq![joint];
    assert(hierarchy(start, base, parent));
    assert(family(start, base));
    lemma_joints_below_family::<S>(tree, node, tree[node].child_list(), 0, base, start, parent);
}

/// Adding the joints of further children keeps every joint listed by its
/// parent, once.
pub proof fn lemma_joints_below_family<S: Scalar>(
    tree: Seq<NodeModel>,
    node: int,
    children: Seq<usize>,
    from: int,
    base: int,
    joints: Seq<SkeletonNodeModel<S>>,
    parent: Option<usize>,
)
    requires
        0 <= base,
        0 <= from,
        0 <= node < tree.len(),
        hierarchy(joints, base, parent),
        family(joints, base),
        joints_below::<S>(tree, node, children, from, base, joints) is Ok,
        base + joints_below::<S>(tree, node, children, from, base, joints)->Ok_0.len()
            <= usize::MAX,
    ensures
        family(joints_below::<S>(tree, node, children, from, base, joints)->Ok_0, base),
    decreases tree.len() - node, children.len() - from,
{
    if from >= children.len() {
    } else {
        let child = children[from] as int;
        if tree[child].name != "node"@ {
            lemma_joints_below_family::<S>(tree, node, children, from + 1, base, joints, parent);
        } else {
            let index = (base + joints.len()) as usize;
            let under = base + joints.len();
            let below = joints_of::<S>(tree, child, Some(base as usize), under)->Ok_0;
            let next = joints.update(0, with_joint(joints[0], index)) + below;
            lemma_joints_of_length::<S>(tree, child, Some(base as usize), under);
            lemma_joints_below_length::<S>(tree, node, children, from + 1, base, next);
            lemma_joints_of_hierarchy::<S>(tree, child, Some(base as usize), under);
            lemma_joints_of_family::<S>(tree, child, Some(base as usize), under);
            lemma_joints_below_step::<S>(joints, below, base, parent);
            assert(family(next, base)) by {
                assert(index == under);
                assert forall|i: int| 1 <= i < next.len() implies (#[trigger] next[i]).parent
                    is Some && next[next[i].parent->0 - base].children.contains(
                    (base + i) as usize,
                ) by {
                    if i < joints.len() {
                        assert(next[i] == joints[i]);
                        let p = joints[i].parent->0 - base;
                        let listed = joints[p].children;
                        let j = choose|j: int|
                            0 <= j < listed.len() && listed[j] == (base + i) as usize;
                        if p == 0 {
                            assert(next[0].children[j] == listed[j]);
                        } else {
                            assert(next[p] == joints[p]);
                        }
                    } else if i == joints.len() {
                        assert(next[i] == below[0]);
                        assert(next[0].children[joints[0].children.len() as int] == index);
                    } else {
                        let at = i - joints.len();
                        assert(next[i] == below[at]);
                        let p = below[at].parent->0 - under;
                        let listed = below[p].children;
                        let j = choose|j: int|
                            0 <= j < listed.len() && listed[j] == (under + at) as usize;
                        assert(next[p + joints.len()] == below[p]);
                        assert(next[p + joints.len()].children[j] == (base + i) as usize);
                    }
                }
                assert forall|k: int, j: int, l: int|
                    0 <= k < next.len() && 0 <= j < l < next[k].children.len() implies (
                #[trigger] next[k].children[j]) < (#[trigger] next[k].children[l]) by {
                    if k == 0 {
                        let listed = joints[0].children;
                        assert(next[0].children[j] == listed[j]);
                        if l < listed.len() {
                            assert(next[0].children[l] == listed[l]);
                        } else {
                            assert(next[0].children[l] == index);
                            assert(listed[j] < base + joints.len());
                        }
                    } else if k < joints.len() {
                        assert(next[k] == joints[k]);
                    } else {
                        assert(next[k] == below[k - joints.len()]);
                    }
                }
            }
            lemma_joints_below_family::<S>(tree, node, children, from + 1, base, next, parent);
        }
    }
}

/// The joints of one more child, put after a hierarchy whose first joint
/// lists the child, make a hierarchy.
pub proof fn lemma_joints_below_step<S>(
    joints: Seq<SkeletonNodeModel<S>>,
    below: Seq<SkeletonNodeModel<S>>,
    base: int,
    parent: Option<usize>,
)
    requires
        0 <= base,
        base + joints.len() + below.len() <= usize::MAX,
        hierarchy(joints, base, parent),
        hierarchy(below, base + joints.len(), Some(base as usize)),
    ensures
        hierarchy(
            joints.update(0, with_joint(joints[0], (base + joints.len()) as usize)) + below,
            base,
            parent,
        ),
{
    let index = (base + joints.len()) as usize;
    let next = joints.update(0, with_joint(joints[0], index)) + below;
    assert forall|i: int| 1 <= i < next.len() implies (#[trigger] next[i]).parent is Some && base
        <= next[i].parent->0 < base + i by {
        if i < joints.len() {
            assert(next[i] == joints[i]);
        } else {
            assert(next[i] == below[i - joints.len()]);
        }
    }
    assert forall|k: int, j: int|
        0 <= k < next.len() && 0 <= j < next[k].children.len() implies {
        let c = #[trigger] next[k].children[j];
        &&& base + k < c < base + next.len()
        &&& next[c - base].parent == Some((base + k) as usize)
    } by {
        let c = next[k].children[j];
        if k == 0 {
            if j < joints[0].children.len() {
                assert(c == joints[0].children[j]);
                assert(next[c - base] == joints[c - base]);
            } else {
                assert(c == index);
                assert(next[c - base] == below[0]);
            }
        } else if k < joints.len() {
            assert(next[k] == joints[k]);
            assert(c == joints[k].children[j]);
            assert(next[c - base] == joints[c - base]);
        } else {
            assert(next[k] == below[k - joints.len()]);
            assert(c == below[k - joints.len()].children[j]);
            assert(next[c - base] == below[c - base - joints.len()]);
        }
    }
}

impl<S> SkeletonModel<S> {
    /// The arena is a hierarchy in pre-order: joint 0 has no parent, every
    /// other joint has a parent with a smaller index, every child that a
    /// joint lists has that joint as its parent, and every joint but the
    /// first is listed by its parent, once.
    pub open spec fn well_formed(self) -> bool {
        hierarchy(self.nodes, 0, None) && family(self.nodes, 0)
    }
}

/// Every skeleton that decodes is a hierarchy in pre-order.
pub proof fn lemma_skeleton_well_formed<S: Scalar>(tree: Seq<NodeModel>, node: int)
    requires
        skeleton_model::<S>(tree, node) is Ok,
        skeleton_model::<S>(tree, node)->Ok_0.nodes.len() <= usize::MAX,
    ensures
        skeleton_model::<S>(tree, node)->Ok_0.well_formed(),
{
    lemma_joints_of_hierarchy::<S>(tree, node, None, 0);
    lemma_joints_of_family::<S>(tree, node, None, 0);
}

impl<S: Scalar> Skeleton<S> {
    /// The root joint.
    pub fn first_node(&self) -> (first: Option<&SkeletonNode<S>>)
        ensures
            match first {
                Some(joint) => self@.nodes.len() > 0 && joint@ == self@.nodes[0],
                None => self@.nodes.len() == 0,
            },
    {
        if self.nodes.len() > 0 {
            Some(&self.nodes[0])
        } else {
            None
        }
    }

    /// The index that the next joint gets.
    pub fn next_index(&self) -> (index: usize)
        ensures
            index == self@.nodes.len(),
    {
        self.nodes.len()
    }

    /// The first joint with the id `name`.
    pub fn node_with_name<'a>(&'a self, name: &str) -> (found: Option<&'a SkeletonNode<S>>)
        ensures
            match found {
                Some(joint) => exists|i: int|
                    0 <= i < self@.nodes.len() && self@.nodes[i] == joint@ && joint@.id == name@
                        && forall|k: int| 0 <= k < i ==> self@.nodes[k].id != name@,
                None => forall|k: int| 0 <= k < self@.nodes.len() ==> self@.nodes[k].id != name@,
            },
    {
        let mut i: usize = 0;
        while i < self.nodes.len()
            invariant
                i <= self.nodes@.len(),
                forall|k: int| 0 <= k < i ==> self@.nodes[k].id != name@,
            decreases self.nodes@.len() - i,
        {
            if same_text(self.nodes[i].id.as_str(), name) {
                assert(self@.nodes[i as int] == self.nodes@[i as int]@);
                return Some(&self.nodes[i]);
            }
            i += 1;
        }
        None
    }

    /// Appends the joint of the element at `node`, with the parent
    /// `parent`, and the joints of the elements below it; gives the index
    /// of the joint of the element.
    #[verifier::loop_isolation(false)]
    fn parse_node(&mut self, node: usize, tree: &XmlTree, parent: Option<usize>) -> (parsed: Result<
        usize,
        Error,
    >)
        ensures
            final(self).id == old(self).id,
            match parsed {
                Ok(index) => {
                    let joints = joints_of::<S>(tree@, node as int, parent, index as int);
                    &&& index == old(self)@.nodes.len()
                    &&& joints is Ok
                    &&& final(self)@.nodes == old(self)@.nodes + joints->Ok_0
                },
                Err(error) => joints_of::<S>(
                    tree@,
                    node as int,
                    parent,
                    old(self)@.nodes.len() as int,
                ) == Err::<Seq<SkeletonNodeModel<S>>, Error>(error),
            },
        decreases tree@.len() - node,
    {
        let element = match tree.get_node(node) {
            Some(element) => element,
            None => {
                return Err(Error::new(ErrorKind::Structure, Stage::Skeleton));
            },
        };
        if !has_tag(element, "node") {
            return Err(Error::new(ErrorKind::Structure, Stage::Skeleton));
        }
        let index = self.nodes.len();
        let ghost before = self@.nodes;
        let joint = SkeletonNode::<S>::parse_node(node, tree, parent)?;
        let ghost first = joint@;
        self.nodes.push(joint);
        let none: Vec<usize> = Vec::new();
        let children = children_or_none(element, &none);
        let ghost mut joints = seq![first];
        assert(self@.nodes =~= before + joints);
        let mut i: usize = 0;
        while i < children.len()
            invariant
                i <= children@.len(),
                self.id == old(self).id,
                joints.len() >= 1,
                self@.nodes == before + joints,
                joints_below::<S>(tree@, node as int, children@, 0, index as int, seq![first])
                    == joints_below::<S>(tree@, node as int, children@, i as int, index as int, joints),
            decreases children@.len() - i,
        {
            let child = child_at(tree, children, i, Ghost(node as int));
            let at = children[i];
            if has_tag(child, "node") {
                let ghost so_far = self@.nodes;
                let child_index = self.parse_node(at, tree, Some(index))?;
                let ghost below = joints_of::<S>(
                    tree@,
                    at as int,
                    Some(index),
                    index + joints.len(),
                )->Ok_0;
                assert(self@.nodes == so_far + below);
                assert(index < self.nodes@.len());
                self.nodes[index].children.push(child_index);
                proof {
                    let next = joints.update(0, with_joint(joints[0], child_index)) + below;
                    assert(self@.nodes =~= before + next) by {
                        assert forall|k: int| 0 <= k < self@.nodes.len() implies self@.nodes[k] == (
                        before + next)[k] by {
                            if k < index {
                                assert((so_far + below)[k] == before[k]);
                            } else if k == index {
                                assert((so_far + below)[k] == joints[0]);
                            } else if k < index + joints.len() {
                                assert((so_far + below)[k] == joints[k - index]);
                            } else {
                                assert((so_far + below)[k] == below[k - index - joints.len()]);
                            }
                        }
                    }
                    joints = next;
                }
            }
            i += 1;
        }
        Ok(index)
    }

    /// Decodes the element at `node` and the `node` elements below it as a
    /// skeleton.
    pub fn parse_skeleton(node: usize, tree: &XmlTree) -> (parsed: Result<Skeleton<S>, Error>)
        ensures
            match parsed {
                Ok(skeleton) => skeleton_model::<S>(tree@, node as int) == Ok::<
                    SkeletonModel<S>,
                    Error,
                >(skeleton@) && skeleton@.well_formed(),
                Err(error) => skeleton_model::<S>(tree@, node as int) == Err::<
                    SkeletonModel<S>,
                    Error,
                >(error),
            },
    {
        let element = match tree.get_node(node) {
            Some(element) => element,
            None => {
                return Err(Error::new(ErrorKind::Structure, Stage::Skeleton));
            },
        };
        if !has_tag(element, "node") {
            return Err(Error::new(ErrorKind::Structure, Stage::Skeleton));
        }
        let id = required_attribute(element, "id", Stage::Skeleton)?;
        let mut skeleton = Skeleton { id: id.to_owned(), nodes: Vec::new() };
        assert(skeleton@.nodes =~= Seq::empty());
        skeleton.parse_node(node, tree, None)?;
        let count = skeleton.nodes.len();
        proof {
            assert(skeleton@.nodes =~= joints_of::<S>(tree@, node as int, None, 0)->Ok_0);
            lemma_skeleton_well_formed::<S>(tree@, node as int);
        }
        Ok(skeleton)
    }
}

} // verus!
