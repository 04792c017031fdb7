//! The scene graph: a tree of nodes that group other nodes, place a
//! skinned object, or embed a skeleton.

use crate::collada::error::{Error, ErrorKind, Stage};
use crate::collada::skeleton::{skeleton_model, Skeleton, SkeletonModel};
use crate::collada::util::{
    child_at, children_or_none, fault, has_tag, parse_transformation, required,
    required_attribute, transformation_model,
};
use crate::math::{Matrix4, Scalar};
use crate::text::same_text;
use crate::xml_tree::node::NodeModel;
use crate::xml_tree::tree::XmlTree;
use vstd::prelude::*;

verus! {

/// The use of a controller in a scene: the reference to the controller and
/// the reference to the root joint of the skeleton that it is bound to.
#[derive(Clone, Debug)]
pub struct InstanceController {
    pub url: String,
    pub skeleton: String,
}

/// The model of the use of a controller.
pub struct InstanceControllerModel {
    pub url: Seq<char>,
    pub skeleton: Seq<char>,
}

impl View for InstanceController {
    type V = InstanceControllerModel;

    open spec fn view(&self) -> InstanceControllerModel {
        InstanceControllerModel { url: self.url@, skeleton: self.skeleton@ }
    }
}

/// The text of the `skeleton` child among `children` from position `from`
/// on, given the one found before; a second one fails, and so does one
/// without text.
pub open spec fn bound_skeleton_from(
    tree: Seq<NodeModel>,
    children: Seq<usize>,
    from: int,
    found: Option<Seq<char>>,
) -> Result<Option<Seq<char>>, Error>
    decreases children.len() - from,
{
    if from < 0 || from >= children.len() {
        Ok(found)
    } else {
        let child = tree[children[from] as int];
        if child.name != "skeleton"@ {
            bound_skeleton_from(tree, children, from + 1, found)
        } else if found is Some {
            Err(fault(ErrorKind::Structure, Stage::Controller))
        } else {
            match child.characters() {
                None => Err(fault(ErrorKind::Structure, Stage::Controller)),
                Some(text) => bound_skeleton_from(tree, children, from + 1, Some(text)),
            }
        }
    }
}

/// What the element at `node` decodes to as the use of a controller: it
/// must have a `url` and exactly one `skeleton` child, with text.
pub open spec fn instance_controller_model(tree: Seq<NodeModel>, node: int) -> Result<
    InstanceControllerModel,
    Error,
> {
    if !(0 <= node < tree.len()) {
        Err(fault(ErrorKind::Structure, Stage::Controller))
    } else {
        match required(tree[node], "url", Stage::Controller) {
            Err(error) => Err(error),
            Ok(url) => match bound_skeleton_from(tree, tree[node].child_list(), 0, None) {
                Err(error) => Err(error),
                Ok(None) => Err(fault(ErrorKind::Structure, Stage::Controller)),
                Ok(Some(skeleton)) => Ok(InstanceControllerModel { url, skeleton }),
            },
        }
    }
}

impl InstanceController {
    /// Decodes the `instance_controller` element at `node`.
    #[verifier::loop_isolation(false)]
    pub fn parse_controller(node: usize, tree: &XmlTree) -> (parsed: Result<
        InstanceController,
        Error,
    >)
        ensures
            match parsed {
                Ok(controller) => instance_controller_model(tree@, node as int) == Ok::<
                    InstanceControllerModel,
                    Error,
                >(controller@),
                Err(error) => instance_controller_model(tree@, node as int) == Err::<
                    InstanceControllerModel,
                    Error,
                >(error),
            },
    {
        let element = match tree.get_node(node) {
            Some(element) => element,
            None => {
                return Err(Error::new(ErrorKind::Structure, Stage::Controller));
            },
        };
        let url = required_attribute(element, "url", Stage::Controller)?;
        let none: Vec<usize> = Vec::new();
        let children = children_or_none(element, &none);
        let mut skeleton: Option<&str> = None;
        let mut i: usize = 0;
        while i < children.len()
            invariant
                i <= children@.len(),
                bound_skeleton_from(tree@, children@, 0, None) == bound_skeleton_from(
                    tree@,
                    children@,
                    i as int,
                    match skeleton {
                        Some(text) => Some(text@),
                        None => None,
                    },
                ),
            decreases children@.len() - i,
        {
            let child = child_at(tree, children, i, Ghost(node as int));
            if has_tag(child, "skeleton") {
                if skeleton.is_some() {
                    return Err(Error::new(ErrorKind::Structure, Stage::Controller));
                }
                match child.get_characters() {
                    Some(text) => {
                        skeleton = Some(text);
                    },
                    None => {
                        return Err(Error::new(ErrorKind::Structure, Stage::Controller));
                    },
                }
            }
            i += 1;
        }
        match skeleton {
            Some(skeleton) => Ok(
                InstanceController { url: url.to_owned(), skeleton: skeleton.to_owned() },
            ),
            None => Err(Error::new(ErrorKind::Structure, Stage::Controller)),
        }
    }
}

/// What a node of the scene graph is.
#[derive(Debug)]
pub enum NodeData<S> {
    /// A group: its local transform and the nodes below it.
    Multi { matrix: Matrix4<S>, sub_nodes: Vec<Node<S>> },
    /// A skinned object: its local transform and the controller it uses.
    ObjectInstance { matrix: Matrix4<S>, controller: InstanceController },
    /// An embedded skeleton.
    Skeleton(Skeleton<S>),
    /// A leaf of no decoded kind.
    Other,
}

/// A node of the scene graph.
#[derive(Debug)]
pub struct Node<S> {
    pub name: String,
    pub id: String,
    pub data: NodeData<S>,
}

/// The model of what a node is; a transform is the 16 entries of its
/// matrix.
pub enum SceneDataModel<S> {
    Multi { matrix: Seq<S>, sub_nodes: Seq<SceneNodeModel<S>> },
    ObjectInstance { matrix: Seq<S>, controller: InstanceControllerModel },
    Skeleton(SkeletonModel<S>),
    Other,
}

/// The model of a node of the scene graph.
pub struct SceneNodeModel<S> {
    pub name: Seq<char>,
    pub id: Seq<char>,
    pub data: SceneDataModel<S>,
}

/// The model of a node.
pub open spec fn node_model<S>(node: Node<S>) -> SceneNodeModel<S>
    decreases node,
{
    SceneNodeModel {
        name: node.name@,
        id: node.id@,
        data: match node.data {
            NodeData::Multi { matrix, sub_nodes } => SceneDataModel::Multi {
                matrix: matrix.values@,
                sub_nodes: Seq::new(
                    sub_nodes@.len(),
                    |i: int|
                        if 0 <= i < sub_nodes@.len() {
                            node_model(sub_nodes@[i])
                        } else {
                            arbitrary()
                        },
                ),
            },
            NodeData::ObjectInstance { matrix, controller } => SceneDataModel::ObjectInstance {
                matrix: matrix.values@,
                controller: controller@,
            },
            NodeData::Skeleton(skeleton) => SceneDataModel::Skeleton(skeleton@),
            NodeData::Other => SceneDataModel::Other,
        },
    }
}

impl<S> View for Node<S> {
    type V = SceneNodeModel<S>;

    open spec fn view(&self) -> SceneNodeModel<S> {
        node_model(*self)
    }
}

/// The models of a list of nodes.
pub open spec fn scene_nodes_model<S>(nodes: Seq<Node<S>>) -> Seq<SceneNodeModel<S>> {
    Seq::new(nodes.len(), |i: int| node_model(nodes[i]))
}

/// The nodes below a group have the models of the group's model.
pub proof fn lemma_group_model<S>(node: Node<S>)
    requires
        node.data is Multi,
    ensures
        node@.data is Multi,
        node@.data->Multi_sub_nodes == scene_nodes_model(node.data->Multi_sub_nodes@),
        node@.data->Multi_matrix == node.data->Multi_matrix.values@,
{
    assert(node@.data->Multi_sub_nodes =~= scene_nodes_model(node.data->Multi_sub_nodes@));
}

/// The skeletons embedded in a node and the nodes below it, in document
/// order.
pub open spec fn skeletons_in<S>(node: SceneNodeModel<S>) -> Seq<SkeletonModel<S>>
    decreases node, 0int,
{
    match node.data {
        SceneDataModel::Multi { sub_nodes, .. } => skeletons_among(sub_nodes, 0),
        SceneDataModel::Skeleton(skeleton) => seq![skeleton],
        _ => Seq::empty(),
    }
}

/// The skeletons embedded in the nodes from position `from` on and the
/// nodes below them, in document order.
pub open spec fn skeletons_among<S>(nodes: Seq<SceneNodeModel<S>>, from: int) -> Seq<
    SkeletonModel<S>,
>
    decreases nodes, nodes.len() - from,
{
    if from < 0 || from >= nodes.len() {
        Seq::empty()
    } else {
        skeletons_in(nodes[from]) + skeletons_among(nodes, from + 1)
    }
}

/// The controllers used by a node and the nodes below it, in document
/// order.
pub open spec fn controllers_in<S>(node: SceneNodeModel<S>) -> Seq<InstanceControllerModel>
    decreases node, 0int,
{
    match node.data {
        SceneDataModel::Multi { sub_nodes, .. } => controllers_among(sub_nodes, 0),
        SceneDataModel::ObjectInstance { controller, .. } => seq![controller],
        _ => Seq::empty(),
    }
}

/// The controllers used by the nodes from position `from` on and the nodes
/// below them, in document order.
pub open spec fn controllers_among<S>(nodes: Seq<SceneNodeModel<S>>, from: int) -> Seq<
    InstanceControllerModel,
>
    decreases nodes, nodes.len() - from,
{
    if from < 0 || from >= nodes.len() {
        Seq::empty()
    } else {
        controllers_in(nodes[from]) + controllers_among(nodes, from + 1)
    }
}

/// The number of children among `children` from position `from` on whose
/// tag is `name`.
pub open spec fn tagged_from(tree: Seq<NodeModel>, children: Seq<usize>, name: Seq<char>, from: int) -> nat
    decreases children.len() - from,
{
    if from < 0 || from >= children.len() {
        0
    } else {
        tagged_from(tree, children, name, from + 1) + if tree[children[from] as int].name == name {
            1nat
        } else {
            0
        }
    }
}

/// The first child among `children` from position `from` on whose tag is
/// `name`.
pub open spec fn first_tagged_from(
    tree: Seq<NodeModel>,
    children: Seq<usize>,
    name: Seq<char>,
    from: int,
) -> Option<usize>
    decreases children.len() - from,
{
    if from < 0 || from >= children.len() {
        None
    } else if tree[children[from] as int].name == name {
        Some(children[from])
    } else {
        first_tagged_from(tree, children, name, from + 1)
    }
}

/// What the element at `node` decodes to as a node of the scene graph. It
/// must have an id, a name and a type. With the type `JOINT` it is an
/// embedded skeleton. Else its transform must decode; with exactly one
/// `instance_controller` child it is a skinned object; else it is the group
/// of its `node` children, or a leaf where it has none.
pub open spec fn scene_node_model<S: Scalar>(tree: Seq<NodeModel>, node: int) -> Result<
    SceneNodeModel<S>,
    Error,
>
    decreases tree.len() - node, tree[node].child_list().len() + 1,
{
    if !(0 <= node < tree.len()) {
        Err(fault(ErrorKind::Structure, Stage::SceneNode))
    } else {
        match required(tree[node], "id", Stage::SceneNode) {
            Err(error) => Err(error),
            Ok(id) => match required(tree[node], "name", Stage::SceneNode) {
                Err(error) => Err(error),
                Ok(name) => match required(tree[node], "type", Stage::SceneNode) {
                    Err(error) => Err(error),
                    Ok(kind) => if kind == "JOINT"@ {
                        match skeleton_model::<S>(tree, node) {
                            Err(error) => Err(error),
                            Ok(skeleton) => Ok(
                                SceneNodeModel {
                                    name,
                                    id,
                                    data: SceneDataModel::Skeleton(skeleton),
                                },
                            ),
                        }
                    } else {
                        match transformation_model::<S>(tree, node) {
                            Err(error) => Err(error),
                            Ok(matrix) => {
                                let children = tree[node].child_list();
                                if tagged_from(tree, children, "instance_controller"@, 0) == 1 {
                                    match instance_controller_model(
                                        tree,
                                        first_tagged_from(
                                            tree,
                                            children,
                                            "instance_controller"@,
                                            0,
                                        )->0 as int,
                                    ) {
                                        Err(error) => Err(error),
                                        Ok(controller) => Ok(
                                            SceneNodeModel {
                                                name,
                                                id,
                                                data: SceneDataModel::ObjectInstance {
                                                    matrix,
                                                    controller,
                                                },
                                            },
                                        ),
                                    }
                                } else {
                                    match scene_nodes_from::<S>(
                                        tree,
                                        node,
                                        children,
                                        0,
                                        Seq::empty(),
                                    ) {
                                        Err(error) => Err(error),
                                        Ok(sub_nodes) => Ok(
                                            SceneNodeModel {
                                                name,
                                                id,
                                                data: if sub_nodes.len() == 0 {
                                                    SceneDataModel::Other
                                                } else {
                                                    SceneDataModel::Multi { matrix, sub_nodes }
                                                },
                                            },
                                        ),
                                    }
                                }
                            },
                        }
                    },
                },
            },
        }
    }
}

/// The nodes that the `node` children of the element at `node` from
/// position `from` on decode to, appended to `nodes`.
pub open spec fn scene_nodes_from<S: Scalar>(
    tree: Seq<NodeModel>,
    node: int,
    children: Seq<usize>,
    from: int,
    nodes: Seq<SceneNodeModel<S>>,
) -> Result<Seq<SceneNodeModel<S>>, Error>
    decreases tree.len() - node, children.len() - from,
{
    if from < 0 || from >= children.len() {
        Ok(nodes)
    } else {
        let child = children[from] as int;
        if !(node < child < tree.len()) {
            Err(fault(ErrorKind::Structure, Stage::SceneNode))
        } else if tree[child].name != "node"@ {
            scene_nodes_from::<S>(tree, node, children, from + 1, nodes)
        } else {
            match scene_node_model::<S>(tree, child) {
                Err(error) => Err(error),
                Ok(decoded) => scene_nodes_from::<S>(
                    tree,
                    node,
                    children,
                    from + 1,
                    nodes.push(decoded),
                ),
            }
        }
    }
}

/// Counts the children with a tag and finds the first of them.
fn count_tagged(tree: &XmlTree, children: &[usize], name: &str, Ghost(parent): Ghost<int>) -> (found: (
    usize,
    Option<usize>,
))
    requires
        0 <= parent < tree@.len(),
        children@ == tree@[parent].child_list(),
    ensures
        found.0 == tagged_from(tree@, children@, name@, 0),
        found.1 == first_tagged_from(tree@, children@, name@, 0),
{
    let mut count: usize = 0;
    let mut first: Option<usize> = None;
    let len = children.len();
    let mut i: usize = len;
    while i > 0
        invariant
            i <= children@.len(),
            len == children@.len(),
            0 <= parent < tree@.len(),
            children@ == tree@[parent].child_list(),
            count == tagged_from(tree@, children@, name@, i as int),
            count <= children@.len() - i,
            first == first_tagged_from(tree@, children@, name@, i as int),
        decreases i,
    {
        i -= 1;
        let child = child_at(tree, children, i, Ghost(parent));
        if has_tag(child, name) {
            count += 1;
            first = Some(children[i]);
        }
    }
    (count, first)
}

impl<S: Scalar> Node<S> {
    /// Decodes the element at `node` and the nodes below it.
    #[verifier::loop_isolation(false)]
    pub fn parse_node(node: usize, tree: &XmlTree) -> (parsed: Result<Node<S>, Error>)
        ensures
            match parsed {
                Ok(decoded) => scene_node_model::<S>(tree@, node as int) == Ok::<
                    SceneNodeModel<S>,
                    Error,
                >(decoded@),
                Err(error) => scene_node_model::<S>(tree@, node as int) == Err::<
                    SceneNodeModel<S>,
                    Error,
                >(error),
            },
        decreases tree@.len() - node,
    {
        let element = match tree.get_node(node) {
            Some(element) => element,
            None => {
                return Err(Error::new(ErrorKind::Structure, Stage::SceneNode));
            },
        };
        let id = required_attribute(element, "id", Stage::SceneNode)?;
        let name = required_attribute(element, "name", Stage::SceneNode)?;
        let kind = required_attribute(element, "type", Stage::SceneNode)?;
        if same_text(kind, "JOINT") {
            let skeleton = Skeleton::<S>::parse_skeleton(node, tree)?;
            return Ok(
                Node { name: name.to_owned(), id: id.to_owned(), data: NodeData::Skeleton(skeleton) },
            );
        }
        let matrix = parse_transformation::<S>(node, tree)?;
        let none: Vec<usize> = Vec::new();
        let children = children_or_none(element, &none);
        let (count, first) = count_tagged(tree, children, "instance_controller", Ghost(node as int));
        if count == 1 {
            match first {
                Some(at) => {
                    let controller = InstanceController::parse_controller(at, tree)?;
                    return Ok(
                        Node {
                            name: name.to_owned(),
                            id: id.to_owned(),
                            data: NodeData::ObjectInstance { matrix, controller },
                        },
                    );
                },
                None => {
                    proof {
                        lemma_first_tagged(tree@, children@, "instance_controller"@, 0);
                    }
                },
            }
        }
        let mut sub_nodes: Vec<Node<S>> = Vec::new();
        assert(scene_nodes_model(sub_nodes@) =~= Seq::empty());
        let mut i: usize = 0;
        while i < children.len()
            invariant
                i <= children@.len(),
                scene_nodes_from::<S>(tree@, node as int, children@, 0, Seq::empty())
                    == scene_nodes_from::<S>(
                    tree@,
                    node as int,
                    children@,
                    i as int,
                    scene_nodes_model(sub_nodes@),
                ),
            decreases children@.len() - i,
        {
            let child = child_at(tree, children, i, Ghost(node as int));
            if has_tag(child, "node") {
                let decoded = Node::<S>::parse_node(children[i], tree)?;
                let ghost before = scene_nodes_model(sub_nodes@);
                let ghost model = decoded@;
                sub_nodes.push(decoded);
                assert(scene_nodes_model(sub_nodes@) =~= before.push(model));
            }
            i += 1;
        }
        if sub_nodes.len() == 0 {
            return Ok(Node { name: name.to_owned(), id: id.to_owned(), data: NodeData::Other });
        }
        let made = Node {
            name: name.to_owned(),
            id: id.to_owned(),
            data: NodeData::Multi { matrix, sub_nodes },
        };
        proof {
            lemma_group_model(made);
        }
        Ok(made)
    }

    /// Appends the skeletons embedded in this node and the nodes below it.
    pub fn add_skeletons<'a>(&'a self, skeletons: &mut Vec<&'a Skeleton<S>>)
        ensures
            skeletons_view(final(skeletons)@) == skeletons_view(old(skeletons)@) + skeletons_in(
                self@,
            ),
        decreases self,
    {
        match &self.data {
            NodeData::Multi { sub_nodes, .. } => {
                let ghost models = self@.data->Multi_sub_nodes;
                let mut i: usize = 0;
                proof {
                    lemma_group_model(*self);
                    lemma_skeletons_prefix(models, 0);
                }
                while i < sub_nodes.len()
                    invariant
                        i <= sub_nodes@.len(),
                        self.data is Multi,
                        self.data->Multi_sub_nodes == *sub_nodes,
                        models == self@.data->Multi_sub_nodes,
                        models.len() == sub_nodes@.len(),
                        skeletons_view(skeletons@) == skeletons_view(old(skeletons)@)
                            + skeletons_up_to(models, i as int),
                    decreases sub_nodes@.len() - i,
                {
                    assert(models[i as int] == node_model(sub_nodes@[i as int]));
                    sub_nodes[i].add_skeletons(skeletons);
                    assert(skeletons_view(skeletons@) == skeletons_view(old(skeletons)@)
                        + skeletons_up_to(models, i + 1));
                    i += 1;
                }
                proof {
                    lemma_skeletons_prefix(models, models.len() as int);
                }
            },
            NodeData::Skeleton(skeleton) => {
                let ghost before = skeletons_view(skeletons@);
                skeletons.push(skeleton);
                assert(skeletons_view(skeletons@) =~= before + seq![skeleton@]);
            },
            _ => {
                assert(skeletons_view(skeletons@) =~= skeletons_view(skeletons@) + Seq::empty());
            },
        }
    }

    /// Appends the controllers used by this node and the nodes below it.
    pub fn add_controller<'a>(&'a self, controllers: &mut Vec<&'a InstanceController>)
        ensures
            controllers_view(final(controllers)@) == controllers_view(old(controllers)@)
                + controllers_in(self@),
        decreases self,
    {
        match &self.data {
            NodeData::Multi { sub_nodes, .. } => {
                let ghost models = self@.data->Multi_sub_nodes;
                let mut i: usize = 0;
                proof {
                    lemma_group_model(*self);
                    lemma_controllers_prefix(models, 0);
                }
                while i < sub_nodes.len()
                    invariant
                        i <= sub_nodes@.len(),
                        self.data is Multi,
                        self.data->Multi_sub_nodes == *sub_nodes,
                        models == self@.data->Multi_sub_nodes,
                        models.len() == sub_nodes@.len(),
                        controllers_view(controllers@) == controllers_view(old(controllers)@)
                            + controllers_up_to(models, i as int),
                    decreases sub_nodes@.len() - i,
                {
                    assert(models[i as int] == node_model(sub_nodes@[i as int]));
                    sub_nodes[i].add_controller(controllers);
                    assert(controllers_view(controllers@) == controllers_view(old(controllers)@)
                        + controllers_up_to(models, i + 1));
                    i += 1;
                }
                proof {
                    lemma_controllers_prefix(models, models.len() as int);
                }
            },
            NodeData::ObjectInstance { controller, .. } => {
                let ghost before = controllers_view(controllers@);
                controllers.push(controller);
                assert(controllers_view(controllers@) =~= before + seq![controller@]);
            },
            _ => {
                assert(controllers_view(controllers@) =~= controllers_view(controllers@)
                    + Seq::empty());
            },
        }
    }

    /// The skeletons embedded in this node and the nodes below it, in
    /// document order.
    pub fn get_skeletons(&self) -> (skeletons: Vec<&Skeleton<S>>)
        ensures
            skeletons_view(skeletons@) == skeletons_in(self@),
    {
        let mut skeletons: Vec<&Skeleton<S>> = Vec::new();
        assert(skeletons_view(skeletons@) =~= Seq::empty());
        self.add_skeletons(&mut skeletons);
        assert(Seq::<SkeletonModel<S>>::empty() + skeletons_in(self@) =~= skeletons_in(self@));
        skeletons
    }
}

/// The models of a list of skeletons.
pub open spec fn skeletons_view<S>(skeletons: Seq<&Skeleton<S>>) -> Seq<SkeletonModel<S>> {
    Seq::new(skeletons.len(), |i: int| skeletons[i]@)
}

/// The models of a list of controllers.
pub open spec fn controllers_view(controllers: Seq<&InstanceController>) -> Seq<
    InstanceControllerModel,
> {
    Seq::new(controllers.len(), |i: int| controllers[i]@)
}

/// The skeletons embedded in the first `to` nodes and the nodes below
/// them.
pub open spec fn skeletons_up_to<S>(nodes: Seq<SceneNodeModel<S>>, to: int) -> Seq<SkeletonModel<S>>
    decreases to,
{
    if to <= 0 {
        Seq::empty()
    } else {
        skeletons_up_to(nodes, to - 1) + skeletons_in(nodes[to - 1])
    }
}

/// The controllers used by the first `to` nodes and the nodes below them.
pub open spec fn controllers_up_to<S>(nodes: Seq<SceneNodeModel<S>>, to: int) -> Seq<
    InstanceControllerModel,
>
    decreases to,
{
    if to <= 0 {
        Seq::empty()
    } else {
        controllers_up_to(nodes, to - 1) + controllers_in(nodes[to - 1])
    }
}

/// The skeletons of a list are those of a prefix followed by those of the
/// rest.
pub proof fn lemma_skeletons_prefix<S>(nodes: Seq<SceneNodeModel<S>>, to: int)
    requires
        0 <= to <= nodes.len(),
    ensures
        skeletons_among(nodes, 0) == skeletons_up_to(nodes, to) + skeletons_among(nodes, to),
    decreases to,
{
    if to == 0 {
        assert(skeletons_among(nodes, 0) =~= Seq::empty() + skeletons_among(nodes, 0));
    } else {
        lemma_skeletons_prefix(nodes, to - 1);
        assert(skeletons_up_to(nodes, to) + skeletons_among(nodes, to) =~= skeletons_up_to(
            nodes,
            to - 1,
        ) + skeletons_among(nodes, to - 1));
    }
}

/// The controllers of a list are those of a prefix followed by those of
/// the rest.
pub proof fn lemma_controllers_prefix<S>(nodes: Seq<SceneNodeModel<S>>, to: int)
    requires
        0 <= to <= nodes.len(),
    ensures
        controllers_among(nodes, 0) == controllers_up_to(nodes, to) + controllers_among(nodes, to),
    decreases to,
{
    if to == 0 {
        assert(controllers_among(nodes, 0) =~= Seq::empty() + controllers_among(nodes, 0));
    } else {
        lemma_controllers_prefix(nodes, to - 1);
        assert(controllers_up_to(nodes, to) + controllers_among(nodes, to) =~= controllers_up_to(
            nodes,
            to - 1,
        ) + controllers_among(nodes, to - 1));
    }
}

/// Where a child has the tag, a first such child exists.
pub proof fn lemma_first_tagged(tree: Seq<NodeModel>, children: Seq<usize>, name: Seq<char>, from: int)
    requires
        0 <= from,
    ensures
        tagged_from(tree, children, name, from) > 0 ==> first_tagged_from(
            tree,
            children,
            name,
            from,
        ) is Some,
    decreases children.len() - from,
{
    if from < children.len() {
        lemma_first_tagged(tree, children, name, from + 1);
    }
}

/// A scene: its id and its root nodes.
#[derive(Debug)]
pub struct VisualScene<S> {
    pub id: String,
    pub nodes: Vec<Node<S>>,
}

/// The model of a scene.
pub struct VisualSceneModel<S> {
    pub id: Seq<char>,
    pub nodes: Seq<SceneNodeModel<S>>,
}

impl<S> View for VisualScene<S> {
    type V = VisualSceneModel<S>;

    open spec fn view(&self) -> VisualSceneModel<S> {
        VisualSceneModel { id: self.id@, nodes: scene_nodes_model(self.nodes@) }
    }
}

/// The nodes that the `node` children from position `from` on decode to,
/// appended to `nodes`.
pub open spec fn root_nodes_from<S: Scalar>(
    tree: Seq<NodeModel>,
    children: Seq<usize>,
    from: int,
    nodes: Seq<SceneNodeModel<S>>,
) -> Result<Seq<SceneNodeModel<S>>, Error>
    decreases children.len() - from,
{
    if from < 0 || from >= children.len() {
        Ok(nodes)
    } else if tree[children[from] as int].name != "node"@ {
        root_nodes_from::<S>(tree, children, from + 1, nodes)
    } else {
        match scene_node_model::<S>(tree, children[from] as int) {
            Err(error) => Err(error),
            Ok(decoded) => root_nodes_from::<S>(tree, children, from + 1, nodes.push(decoded)),
        }
    }
}

/// What the element at `node` decodes to as a scene: its tag must be
/// `visual_scene`, it must have an id, and its `node` children must decode.
pub open spec fn visual_scene_model<S: Scalar>(tree: Seq<NodeModel>, node: int) -> Result<
    VisualSceneModel<S>,
    Error,
> {
    if !(0 <= node < tree.len()) || tree[node].name != "visual_scene"@ {
        Err(fault(ErrorKind::Structure, Stage::VisualScene))
    } else {
        match required(tree[node], "id", Stage::VisualScene) {
            Err(error) => Err(error),
            Ok(id) => match root_nodes_from::<S>(tree, tree[node].child_list(), 0, Seq::empty()) {
                Err(error) => Err(error),
                Ok(nodes) => Ok(VisualSceneModel { id, nodes }),
            },
        }
    }
}

impl<S: Scalar> VisualScene<S> {
    /// The skeletons embedded in the scene, in document order.
    pub fn get_skeletons(&self) -> (skeletons: Vec<&Skeleton<S>>)
        ensures
            skeletons_view(skeletons@) == skeletons_among(self@.nodes, 0),
    {
        let mut skeletons: Vec<&Skeleton<S>> = Vec::new();
        assert(skeletons_view(skeletons@) =~= Seq::empty());
        let mut i: usize = 0;
        while i < self.nodes.len()
            invariant
                i <= self.nodes@.len(),
                skeletons_view(skeletons@) == skeletons_up_to(self@.nodes, i as int),
            decreases self.nodes@.len() - i,
        {
            let ghost before = skeletons_view(skeletons@);
            assert(self@.nodes[i as int] == node_model(self.nodes@[i as int]));
            self.nodes[i].add_skeletons(&mut skeletons);
            i += 1;
        }
        proof {
            lemma_skeletons_prefix(self@.nodes, self@.nodes.len() as int);
            assert(skeletons_up_to(self@.nodes, self@.nodes.len() as int) + Seq::empty()
                =~= skeletons_up_to(self@.nodes, self@.nodes.len() as int));
        }
        skeletons
    }

    /// The controllers used in the scene, in document order.
    pub fn get_controllers(&self) -> (controllers: Vec<&InstanceController>)
        ensures
            controllers_view(controllers@) == controllers_among(self@.nodes, 0),
    {
        let mut controllers: Vec<&InstanceController> = Vec::new();
        assert(controllers_view(controllers@) =~= Seq::empty());
        let mut i: usize = 0;
        while i < self.nodes.len()
            invariant
                i <= self.nodes@.len(),
                controllers_view(controllers@) == controllers_up_to(self@.nodes, i as int),
            decreases self.nodes@.len() - i,
        {
            assert(self@.nodes[i as int] == node_model(self.nodes@[i as int]));
            self.nodes[i].add_controller(&mut controllers);
            i += 1;
        }
        proof {
            lemma_controllers_prefix(self@.nodes, self@.nodes.len() as int);
            assert(controllers_up_to(self@.nodes, self@.nodes.len() as int) + Seq::empty()
                =~= controllers_up_to(self@.nodes, self@.nodes.len() as int));
        }
        controllers
    }

    /// Decodes the `visual_scene` element at `node`.
    #[verifier::loop_isolation(false)]
    pub fn parse_scene(node: usize, tree: &XmlTree) -> (parsed: Result<VisualScene<S>, Error>)
        ensures
            match parsed {
                Ok(scene) => visual_scene_model::<S>(tree@, node as int) == Ok::<
                    VisualSceneModel<S>,
                    Error,
                >(scene@),
                Err(error) => visual_scene_model::<S>(tree@, node as int) == Err::<
                    VisualSceneModel<S>,
                    Error,
                >(error),
            },
    {
        let element = match tree.get_node(node) {
            Some(element) => element,
            None => {
                return Err(Error::new(ErrorKind::Structure, Stage::VisualScene));
            },
        };
        if !has_tag(element, "visual_scene") {
            return Err(Error::new(ErrorKind::Structure, Stage::VisualScene));
        }
        let id = required_attribute(element, "id", Stage::VisualScene)?;
        let none: Vec<usize> = Vec::new();
        let children = children_or_none(element, &none);
        let mut nodes: Vec<Node<S>> = Vec::new();
        assert(scene_nodes_model(nodes@) =~= Seq::empty());
        let mut i: usize = 0;
        while i < children.len()
            invariant
                i <= children@.len(),
                root_nodes_from::<S>(tree@, children@, 0, Seq::empty()) == root_nodes_from::<S>(
                    tree@,
                    children@,
                    i as int,
                    scene_nodes_model(nodes@),
                ),
            decreases children@.len() - i,
        {
            let child = child_at(tree, children, i, Ghost(node as int));
            if has_tag(child, "node") {
                let decoded = Node::<S>::parse_node(children[i], tree)?;
                let ghost before = scene_nodes_model(nodes@);
                let ghost model = decoded@;
                nodes.push(decoded);
                assert(scene_nodes_model(nodes@) =~= before.push(model));
            }
            i += 1;
        }
        Ok(VisualScene { id: id.to_owned(), nodes })
    }
}

} // verus!
