//! Skins: the binding of the vertices of a mesh to joints.

use crate::collada::accessor::lemma_records;
use crate::collada::error::{Error, ErrorKind, Stage};
use crate::collada::skin::vertex_weights::{
    vertex_weights_model, VertexWeights, VertexWeightsModel,
};
use crate::collada::source::{source_model, source_parts, DataSource, SourceModel};
use crate::collada::util::{
    child_at, children_or_none, fault, has_tag, matrix_value, read_matrix, required,
    required_attribute, texts,
};
use crate::math::{Matrix4, Scalar};
use crate::text::{is_joined, reference_target, refers_to, tokens, Literal};
use crate::xml_tree::node::NodeModel;
use crate::xml_tree::tree::XmlTree;
use vstd::prelude::*;

pub mod vertex_weights;

verus! {

/// The weight with which a joint moves a vertex.
#[derive(Copy, Clone, Debug)]
pub struct JointWeight<S> {
    pub joint: usize,
    pub weight: S,
}

/// The parts of a skin element, decoded one by one.
#[derive(Debug)]
pub struct SkinParser<S> {
    source: String,
    bind_shape_matrix: Matrix4<S>,
    joint_names: DataSource<String>,
    bind_poses: DataSource<S>,
    skin_weights: DataSource<S>,
    vertex_weights: VertexWeights,
}

/// The model of the parts of a skin element: the reference to its mesh, the
/// 16 entries of its bind-shape matrix, the sources of joint names, bind
/// poses and weights, and the vertex weights.
pub struct SkinParserModel<S> {
    pub source: Seq<char>,
    pub bind_shape_matrix: Seq<S>,
    pub joint_names: SourceModel<Seq<char>>,
    pub bind_poses: SourceModel<S>,
    pub skin_weights: SourceModel<S>,
    pub vertex_weights: VertexWeightsModel,
}

/// The model of a source of names.
pub open spec fn names_model(source: SourceModel<String>) -> SourceModel<Seq<char>> {
    SourceModel { id: source.id, array: texts(source.array), accessor: source.accessor }
}

/// The records of a source of names are the views of its records.
pub proof fn lemma_names_record(source: SourceModel<String>, n: int)
    requires
        0 <= n,
    ensures
        names_model(source).records() == source.records(),
        names_model(source).record(n) == match source.record(n) {
            Some(record) => Some(texts(record)),
            None => None,
        },
{
    let stride = source.accessor.stride as int;
    assert(n * stride <= (n + 1) * stride) by (nonlinear_arith)
        requires
            stride >= 0,
            n >= 0,
    ;
    assert(0 <= n * stride) by (nonlinear_arith)
        requires
            stride >= 0,
            n >= 0,
    ;
    if source.record(n) is Some {
        assert(names_model(source).record(n)->0 =~= texts(source.record(n)->0));
    }
}

/// What the element at `node` decodes to as a source of names: its array,
/// with the tag `Name_array`, holds the names as tokens.
pub open spec fn name_source_model(tree: Seq<NodeModel>, node: int) -> Result<
    SourceModel<Seq<char>>,
    Error,
> {
    match source_parts::<String>(tree, node, "Name_array"@) {
        Err(error) => Err(error),
        Ok(parts) => Ok(
            SourceModel { id: parts.id, array: tokens(parts.text), accessor: parts.accessor },
        ),
    }
}

impl<S> View for SkinParser<S> {
    type V = SkinParserModel<S>;

    closed spec fn view(&self) -> SkinParserModel<S> {
        SkinParserModel {
            source: self.source@,
            bind_shape_matrix: self.bind_shape_matrix.values@,
            joint_names: names_model(self.joint_names@),
            bind_poses: self.bind_poses@,
            skin_weights: self.skin_weights@,
            vertex_weights: self.vertex_weights@,
        }
    }
}

/// The index of a pair at slot `slot`.
pub open spec fn at_slot(pair: (usize, usize), slot: usize) -> usize {
    if slot == 0 {
        pair.0
    } else {
        pair.1
    }
}

impl<S> SkinParserModel<S> {
    /// The weight that a pair names: the first element of the record of the
    /// weights source at the pair's weight index.
    pub open spec fn weight_at(self, pair: (usize, usize)) -> Option<S> {
        match self.skin_weights.record(at_slot(pair, self.vertex_weights.weights) as int) {
            Some(record) => if record.len() > 0 {
                Some(record[0])
            } else {
                None
            },
            None => None,
        }
    }

    /// The joint weight that a pair stands for: the joint index as it
    /// stands, and the weight that the weight index names.
    pub open spec fn joint_weight(self, pair: (usize, usize)) -> Option<JointWeight<S>> {
        match self.weight_at(pair) {
            Some(weight) => Some(
                JointWeight { joint: at_slot(pair, self.vertex_weights.joints), weight },
            ),
            None => None,
        }
    }

    /// The joint weights of vertex `n`, one for each of its pairs. `None`
    /// where the vertex has no pairs to read or a weight index names no
    /// weight.
    pub open spec fn weights_of(self, n: int) -> Option<Seq<JointWeight<S>>> {
        match self.vertex_weights.pairs(n) {
            None => None,
            Some(pairs) => if forall|k: int|
                0 <= k < pairs.len() ==> (#[trigger] self.joint_weight(pairs[k])) is Some {
                Some(Seq::new(pairs.len(), |k: int| self.joint_weight(pairs[k])->0))
            } else {
                None
            },
        }
    }
}

/// A skin: the mesh it binds, its bind-shape matrix, the names and bind
/// poses of its joints, and the joint weights of each vertex.
#[derive(Debug)]
pub struct Skin<S> {
    pub source: String,
    pub bind_shape_matrix: Matrix4<S>,
    pub joint_names: Vec<String>,
    pub bind_poses: Vec<Matrix4<S>>,
    pub vertex_weights: Vec<Vec<JointWeight<S>>>,
}

/// The model of a skin; a matrix is its 16 entries.
pub struct SkinModel<S> {
    pub source: Seq<char>,
    pub bind_shape_matrix: Seq<S>,
    pub joint_names: Seq<Seq<char>>,
    pub bind_poses: Seq<Seq<S>>,
    pub vertex_weights: Seq<Seq<JointWeight<S>>>,
}

/// The entries of each matrix of a list.
pub open spec fn matrices_model<S>(matrices: Seq<Matrix4<S>>) -> Seq<Seq<S>> {
    Seq::new(matrices.len(), |i: int| matrices[i].values@)
}

/// The views of a list of lists.
pub open spec fn lists_model<T>(lists: Seq<Vec<T>>) -> Seq<Seq<T>> {
    Seq::new(lists.len(), |i: int| lists[i]@)
}

impl<S> View for Skin<S> {
    type V = SkinModel<S>;

    open spec fn view(&self) -> SkinModel<S> {
        SkinModel {
            source: self.source@,
            bind_shape_matrix: self.bind_shape_matrix.values@,
            joint_names: texts(self.joint_names@),
            bind_poses: matrices_model(self.bind_poses@),
            vertex_weights: lists_model(self.vertex_weights@),
        }
    }
}

/// The first element of each record of a source.
pub open spec fn first_elements<T>(source: SourceModel<T>) -> Seq<T> {
    Seq::new(source.records(), |i: int| source.record(i)->0[0])
}

/// The records of a source.
pub open spec fn all_records<T>(source: SourceModel<T>) -> Seq<Seq<T>> {
    Seq::new(source.records(), |i: int| source.record(i)->0)
}

/// The skin that the parts of a skin element make: the joint names are the
/// first elements of the records of the names source; the bind poses are
/// the records of their source, which must have 16 entries each; each
/// declared vertex must have its joint weights.
pub open spec fn skin_model<S>(parts: SkinParserModel<S>) -> Result<SkinModel<S>, Error> {
    if parts.bind_poses.records() > 0 && parts.bind_poses.accessor.stride != 16 {
        Err(fault(ErrorKind::Literal, Stage::Matrix))
    } else if !(forall|i: int|
        0 <= i < parts.vertex_weights.count ==> (#[trigger] parts.weights_of(i)) is Some) {
        Err(fault(ErrorKind::Consistency, Stage::Skin))
    } else {
        Ok(
            SkinModel {
                source: parts.source,
                bind_shape_matrix: parts.bind_shape_matrix,
                joint_names: first_elements(parts.joint_names),
                bind_poses: all_records(parts.bind_poses),
                vertex_weights: Seq::new(
                    parts.vertex_weights.count as nat,
                    |i: int| parts.weights_of(i)->0,
                ),
            },
        )
    }
}

/// What is found in a skin element so far.
pub struct SkinParts<S> {
    pub bind_shape_matrix: Option<Seq<S>>,
    pub joint_names: Option<SourceModel<Seq<char>>>,
    pub bind_poses: Option<SourceModel<S>>,
    pub skin_weights: Option<SourceModel<S>>,
    pub vertex_weights: Option<VertexWeightsModel>,
}

/// The parts among `children` from position `from` on, added to those
/// found before. A `source` child must have an id; the one whose id is
/// `name` followed by `-joints` holds the joint names, `-bind_poses` the
/// bind poses, `-weights` the weights. Of each part the last one counts.
pub open spec fn skin_parts_from<S: Literal>(
    tree: Seq<NodeModel>,
    children: Seq<usize>,
    from: int,
    name: Seq<char>,
    parts: SkinParts<S>,
) -> Result<SkinParts<S>, Error>
    decreases children.len() - from,
{
    if from < 0 || from >= children.len() {
        Ok(parts)
    } else {
        let at = children[from] as int;
        let child = tree[at];
        if child.name == "bind_shape_matrix"@ {
            match matrix_value::<S>(child, Stage::Skin) {
                Err(error) => Err(error),
                Ok(values) => skin_parts_from(
                    tree,
                    children,
                    from + 1,
                    name,
                    SkinParts { bind_shape_matrix: Some(values), ..parts },
                ),
            }
        } else if child.name == "source"@ {
            match required(child, "id", Stage::Skin) {
                Err(error) => Err(error),
                Ok(id) => if id == name + "-joints"@ {
                    match name_source_model(tree, at) {
                        Err(error) => Err(error),
                        Ok(source) => skin_parts_from(
                            tree,
                            children,
                            from + 1,
                            name,
                            SkinParts { joint_names: Some(source), ..parts },
                        ),
                    }
                } else if id == name + "-bind_poses"@ {
                    match source_model::<S>(tree, at, "float_array"@) {
                        Err(error) => Err(error),
                        Ok(source) => skin_parts_from(
                            tree,
                            children,
                            from + 1,
                            name,
                            SkinParts { bind_poses: Some(source), ..parts },
                        ),
                    }
                } else if id == name + "-weights"@ {
                    match source_model::<S>(tree, at, "float_array"@) {
                        Err(error) => Err(error),
                        Ok(source) => skin_parts_from(
                            tree,
                            children,
                            from + 1,
                            name,
                            SkinParts { skin_weights: Some(source), ..parts },
                        ),
                    }
                } else {
                    skin_parts_from(tree, children, from + 1, name, parts)
                },
            }
        } else if child.name == "vertex_weights"@ {
            match vertex_weights_model(tree, at) {
                Err(error) => Err(error),
                Ok(weights) => skin_parts_from(
                    tree,
                    children,
                    from + 1,
                    name,
                    SkinParts { vertex_weights: Some(weights), ..parts },
                ),
            }
        } else {
            skin_parts_from(tree, children, from + 1, name, parts)
        }
    }
}

/// What the element at `node` decodes to as the parts of the skin of the
/// controller `name`: its tag must be `skin`, it must name its mesh in
/// `source`, and all five parts must be there.
pub open spec fn skin_parser_model<S: Literal>(tree: Seq<NodeModel>, node: int, name: Seq<char>) -> Result<
    SkinParserModel<S>,
    Error,
> {
    if !(0 <= node < tree.len()) || tree[node].name != "skin"@ {
        Err(fault(ErrorKind::Structure, Stage::Skin))
    } else {
        match required(tree[node], "source", Stage::Skin) {
            Err(error) => Err(error),
            Ok(source) => match skin_parts_from::<S>(
                tree,
                tree[node].child_list(),
                0,
                name,
                SkinParts {
                    bind_shape_matrix: None,
                    joint_names: None,
                    bind_poses: None,
                    skin_weights: None,
                    vertex_weights: None,
                },
            ) {
                Err(error) => Err(error),
                Ok(parts) => match (
                    parts.bind_shape_matrix,
                    parts.joint_names,
                    parts.bind_poses,
                    parts.skin_weights,
                    parts.vertex_weights,
                ) {
                    (
                        Some(bind_shape_matrix),
                        Some(joint_names),
                        Some(bind_poses),
                        Some(skin_weights),
                        Some(vertex_weights),
                    ) => Ok(
                        SkinParserModel {
                            source,
                            bind_shape_matrix,
                            joint_names,
                            bind_poses,
                            skin_weights,
                            vertex_weights,
                        },
                    ),
                    _ => Err(fault(ErrorKind::Structure, Stage::Skin)),
                },
            },
        }
    }
}

/// What the element at `node` decodes to as the skin of the controller
/// `name`.
pub open spec fn parsed_skin_model<S: Literal>(tree: Seq<NodeModel>, node: int, name: Seq<char>) -> Result<
    SkinModel<S>,
    Error,
> {
    match skin_parser_model::<S>(tree, node, name) {
        Err(error) => Err(error),
        Ok(parts) => skin_model(parts),
    }
}

/// The models of the parts found so far.
pub open spec fn found_parts<S>(
    bind_shape_matrix: Option<Matrix4<S>>,
    joint_names: Option<DataSource<String>>,
    bind_poses: Option<DataSource<S>>,
    skin_weights: Option<DataSource<S>>,
    vertex_weights: Option<VertexWeights>,
) -> SkinParts<S> {
    SkinParts {
        bind_shape_matrix: match bind_shape_matrix {
            Some(matrix) => Some(matrix.values@),
            None => None,
        },
        joint_names: match joint_names {
            Some(source) => Some(names_model(source@)),
            None => None,
        },
        bind_poses: match bind_poses {
            Some(source) => Some(source@),
            None => None,
        },
        skin_weights: match skin_weights {
            Some(source) => Some(source@),
            None => None,
        },
        vertex_weights: match vertex_weights {
            Some(weights) => Some(weights@),
            None => None,
        },
    }
}

impl<S: Scalar> SkinParser<S> {
    /// The joint weights of vertex `n`.
    pub fn get_nth_vertex_weights(&self, n: usize) -> (weights: Option<Vec<JointWeight<S>>>)
        ensures
            match weights {
                Some(list) => self@.weights_of(n as int) == Some(list@),
                None => self@.weights_of(n as int) is None,
            },
    {
        let joint_index = self.vertex_weights.get_joints_offset();
        let weights_index = self.vertex_weights.get_weights_offset();
        let indices = self.vertex_weights.get_nth_indices(n)?;
        let ghost pairs = self@.vertex_weights.pairs(n as int)->0;
        let mut weights: Vec<JointWeight<S>> = Vec::new();
        let mut k: usize = 0;
        while k < indices.len()
            invariant
                k <= indices@.len(),
                joint_index == self@.vertex_weights.joints,
                weights_index == self@.vertex_weights.weights,
                joint_index < 2,
                weights_index < 2,
                self@.vertex_weights.pairs(n as int) == Some(pairs),
                indices@.len() == pairs.len(),
                forall|j: int|
                    0 <= j < indices@.len() ==> (#[trigger] indices@[j])@[0] == pairs[j].0
                        && indices@[j]@[1] == pairs[j].1,
                weights@.len() == k,
                forall|j: int|
                    0 <= j < k ==> self@.joint_weight(pairs[j]) == Some(#[trigger] weights@[j]),
            decreases indices@.len() - k,
        {
            let pair = &indices[k];
            assert(indices@[k as int]@[0] == pairs[k as int].0);
            assert(indices@[k as int]@[1] == pairs[k as int].1);
            let joint = pair[joint_index];
            let at = pair[weights_index];
            assert(joint == at_slot(pairs[k as int], self@.vertex_weights.joints));
            assert(at == at_slot(pairs[k as int], self@.vertex_weights.weights));
            let record = match self.skin_weights.get_nth_value(at) {
                Some(record) => record,
                None => {
                    assert(self@.joint_weight(pairs[k as int]) is None);
                    return None;
                },
            };
            if record.len() == 0 {
                assert(self@.joint_weight(pairs[k as int]) is None);
                return None;
            }
            assert(self@.weight_at(pairs[k as int]) == Some(record@[0]));
            weights.push(JointWeight { joint, weight: record[0] });
            k += 1;
        }
        proof {
            assert forall|j: int| 0 <= j < pairs.len() implies (#[trigger] self@.joint_weight(
                pairs[j],
            )) is Some by {
                assert(self@.joint_weight(pairs[j]) == Some(weights@[j]));
            }
            assert(weights@ =~= self@.weights_of(n as int)->0);
        }
        Some(weights)
    }

    /// Decodes the parts of the `skin` element at `node`, which belongs to
    /// the controller `name`.
    #[verifier::loop_isolation(false)]
    pub fn parse_skin(node: usize, tree: &XmlTree, name: &str) -> (parsed: Result<
        SkinParser<S>,
        Error,
    >)
        ensures
            match parsed {
                Ok(parser) => skin_parser_model::<S>(tree@, node as int, name@) == Ok::<
                    SkinParserModel<S>,
                    Error,
                >(parser@),
                Err(error) => skin_parser_model::<S>(tree@, node as int, name@) == Err::<
                    SkinParserModel<S>,
                    Error,
                >(error),
            },
    {
        let element = match tree.get_node(node) {
            Some(element) => element,
            None => {
                return Err(Error::new(ErrorKind::Structure, Stage::Skin));
            },
        };
        if !has_tag(element, "skin") {
            return Err(Error::new(ErrorKind::Structure, Stage::Skin));
        }
        let source = required_attribute(element, "source", Stage::Skin)?;
        let none: Vec<usize> = Vec::new();
        let children = children_or_none(element, &none);
        let mut bind_shape_matrix: Option<Matrix4<S>> = None;
        let mut joint_names: Option<DataSource<String>> = None;
        let mut bind_poses: Option<DataSource<S>> = None;
        let mut skin_weights: Option<DataSource<S>> = None;
        let mut vertex_weights: Option<VertexWeights> = None;
        let ghost start = SkinParts::<S> {
            bind_shape_matrix: None,
            joint_names: None,
            bind_poses: None,
            skin_weights: None,
            vertex_weights: None,
        };
        let mut i: usize = 0;
        while i < children.len()
            invariant
                i <= children@.len(),
                skin_parts_from::<S>(tree@, children@, 0, name@, start) == skin_parts_from::<S>(
                    tree@,
                    children@,
                    i as int,
                    name@,
                    found_parts(
                        bind_shape_matrix,
                        joint_names,
                        bind_poses,
                        skin_weights,
                        vertex_weights,
                    ),
                ),
            decreases children@.len() - i,
        {
            let child = child_at(tree, children, i, Ghost(node as int));
            let at = children[i];
            if has_tag(child, "bind_shape_matrix") {
                bind_shape_matrix = Some(read_matrix::<S>(child, Stage::Skin)?);
            } else if has_tag(child, "source") {
                let id = required_attribute(child, "id", Stage::Skin)?;
                if is_joined(id, name, "-joints") {
                    joint_names = Some(DataSource::<String>::parse_source(at, tree, "Name_array")?);
                } else if is_joined(id, name, "-bind_poses") {
                    bind_poses = Some(DataSource::<S>::parse_source(at, tree, "float_array")?);
                } else if is_joined(id, name, "-weights") {
                    skin_weights = Some(DataSource::<S>::parse_source(at, tree, "float_array")?);
                }
            } else if has_tag(child, "vertex_weights") {
                vertex_weights = Some(VertexWeights::parse_vertex_weights(at, tree)?);
            }
            i += 1;
        }
        match (bind_shape_matrix, joint_names, bind_poses, skin_weights, vertex_weights) {
            (
                Some(bind_shape_matrix),
                Some(joint_names),
                Some(bind_poses),
                Some(skin_weights),
                Some(vertex_weights),
            ) => Ok(
                SkinParser {
                    source: source.to_owned(),
                    bind_shape_matrix,
                    joint_names,
                    bind_poses,
                    skin_weights,
                    vertex_weights,
                },
            ),
            _ => Err(Error::new(ErrorKind::Structure, Stage::Skin)),
        }
    }

    /// Makes the skin of the parts.
    #[verifier::loop_isolation(false)]
    pub fn to_skin(&self) -> (skin: Result<Skin<S>, Error>)
        ensures
            match skin {
                Ok(made) => skin_model(self@) == Ok::<SkinModel<S>, Error>(made@),
                Err(error) => skin_model(self@) == Err::<SkinModel<S>, Error>(error),
            },
    {
        let mut joint_names: Vec<String> = Vec::new();
        let names = self.joint_names.record_count();
        let mut i: usize = 0;
        while i < names
            invariant
                i <= names,
                names == self@.joint_names.records(),
                self@.joint_names == names_model(self.joint_names@),
                joint_names@.len() == i,
                forall|k: int|
                    0 <= k < i ==> (#[trigger] joint_names@[k])@ == first_elements(
                        self@.joint_names,
                    )[k],
            decreases names - i,
        {
            proof {
                lemma_records(self.joint_names@.array, self.joint_names@.accessor.stride, i as int);
                lemma_names_record(self.joint_names@, i as int);
            }
            match self.joint_names.get_nth_value(i) {
                Some(record) => {
                    joint_names.push(record[0].clone());
                },
                None => {
                    assert(false);
                },
            }
            i += 1;
        }
        assert(texts(joint_names@) =~= first_elements(self@.joint_names));
        let mut bind_poses: Vec<Matrix4<S>> = Vec::new();
        let poses = self.bind_poses.record_count();
        let mut i: usize = 0;
        while i < poses
            invariant
                i <= poses,
                poses == self@.bind_poses.records(),
                self@.bind_poses == self.bind_poses@,
                bind_poses@.len() == i,
                i > 0 ==> self@.bind_poses.accessor.stride == 16,
                forall|k: int|
                    0 <= k < i ==> (#[trigger] bind_poses@[k]).values@ == all_records(
                        self@.bind_poses,
                    )[k],
            decreases poses - i,
        {
            proof {
                lemma_records(self.bind_poses@.array, self.bind_poses@.accessor.stride, i as int);
            }
            match self.bind_poses.get_nth_value(i) {
                Some(record) => match Matrix4::from_slice(record) {
                    Ok(matrix) => {
                        bind_poses.push(matrix);
                    },
                    Err(_) => {
                        return Err(Error::new(ErrorKind::Literal, Stage::Matrix));
                    },
                },
                None => {
                    assert(false);
                },
            }
            i += 1;
        }
        assert(matrices_model(bind_poses@) =~= all_records(self@.bind_poses));
        let count = self.vertex_weights.count();
        let mut vertex_weights: Vec<Vec<JointWeight<S>>> = Vec::new();
        let mut i: usize = 0;
        while i < count
            invariant
                i <= count,
                count == self@.vertex_weights.count,
                vertex_weights@.len() == i,
                forall|k: int|
                    0 <= k < i ==> self@.weights_of(k) == Some((#[trigger] vertex_weights@[k])@),
            decreases count - i,
        {
            match self.get_nth_vertex_weights(i) {
                Some(weights) => {
                    vertex_weights.push(weights);
                },
                None => {
                    return Err(Error::new(ErrorKind::Consistency, Stage::Skin));
                },
            }
            i += 1;
        }
        proof {
            assert forall|k: int| 0 <= k < count implies (#[trigger] self@.weights_of(k)) is Some by {
                assert(self@.weights_of(k) == Some(vertex_weights@[k]@));
            }
            assert(lists_model(vertex_weights@) =~= skin_model(self@)->Ok_0.vertex_weights);
        }
        Ok(
            Skin {
                source: self.source.clone(),
                bind_shape_matrix: self.bind_shape_matrix,
                joint_names,
                bind_poses,
                vertex_weights,
            },
        )
    }
}

impl<S: Scalar> Skin<S> {
    /// Decodes the `skin` element at `node`, which belongs to the
    /// controller `name`.
    pub fn parse_skin(node: usize, tree: &XmlTree, name: &str) -> (parsed: Result<Skin<S>, Error>)
        ensures
            match parsed {
                Ok(skin) => parsed_skin_model::<S>(tree@, node as int, name@) == Ok::<
                    SkinModel<S>,
                    Error,
                >(skin@),
                Err(error) => parsed_skin_model::<S>(tree@, node as int, name@) == Err::<
                    SkinModel<S>,
                    Error,
                >(error),
            },
    {
        let parser = SkinParser::<S>::parse_skin(node, tree, name)?;
        parser.to_skin()
    }

    /// Whether the skin binds the mesh with id `name`.
    pub fn is_for_mesh(&self, name: &str) -> (is: bool)
        ensures
            is == (reference_target(self@.source) == name@),
    {
        refers_to(self.source.as_str(), name)
    }
}

} // verus!
