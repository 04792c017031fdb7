//! The vertices element of a mesh: which sources make up a vertex.

use crate::collada::error::{Error, ErrorKind, Stage};
use crate::collada::source::{DataSource, ListElement, SourceModel};
use crate::collada::util::{
    child_at, children_or_none, fault, has_tag, required, required_attribute, texts,
};
use crate::text::{reference_target, refers_to};
use crate::xml_tree::node::NodeModel;
use crate::xml_tree::tree::XmlTree;
use vstd::prelude::*;

verus! {

/// One input of a vertices element: its semantic and the reference to its
/// source.
#[derive(Debug)]
pub struct VertexInput {
    semantic: String,
    source: String,
}

/// The model of a vertices element: its id, its inputs as pairs of semantic
/// and source reference, and, once the inputs are resolved, the position of
/// each input's source and the count that the sources share.
pub struct VerticesModel {
    pub id: Seq<char>,
    pub inputs: Seq<(Seq<char>, Seq<char>)>,
    pub semantics_map: Seq<usize>,
    pub count: Option<usize>,
}

/// One attribute of a vertex: its semantic, the component names of its
/// source and, if the source reaches that far, the record of the vertex.
pub struct AttributeModel<S> {
    pub semantic: Seq<char>,
    pub parameters: Seq<Seq<char>>,
    pub data: Option<Seq<S>>,
}

/// The model of the attributes handed to a vertex builder.
pub open spec fn attributes_model<S>(
    attributes: Seq<(&str, &[String], Option<&[S]>)>,
) -> Seq<AttributeModel<S>> {
    Seq::new(
        attributes.len(),
        |i: int|
            AttributeModel {
                semantic: attributes[i].0@,
                parameters: texts(attributes[i].1@),
                data: match attributes[i].2 {
                    Some(data) => Some(data@),
                    None => None,
                },
            },
    )
}

/// The position of the first source from position `from` on whose id is
/// `id`.
pub open spec fn position_from<S>(sources: Seq<SourceModel<S>>, id: Seq<char>, from: int) -> Option<
    usize,
>
    decreases sources.len() - from,
{
    if from < 0 || from >= sources.len() {
        None
    } else if sources[from].id == id {
        Some(from as usize)
    } else {
        position_from(sources, id, from + 1)
    }
}

/// The position of the first source whose id is `id`.
pub open spec fn source_position<S>(sources: Seq<SourceModel<S>>, id: Seq<char>) -> Option<usize> {
    position_from(sources, id, 0)
}

/// The positions and the shared count of the inputs from input `from` on,
/// given those of the inputs before. An input whose reference names no
/// source is a reference failure; a source whose declared count differs
/// from that of the sources before is a consistency failure.
pub open spec fn mapping_from<S>(
    sources: Seq<SourceModel<S>>,
    inputs: Seq<(Seq<char>, Seq<char>)>,
    from: int,
    map: Seq<usize>,
    count: Option<usize>,
) -> Result<(Seq<usize>, Option<usize>), Error>
    decreases inputs.len() - from,
{
    if from < 0 || from >= inputs.len() {
        Ok((map, count))
    } else {
        match source_position(sources, reference_target(inputs[from].1)) {
            None => Err(fault(ErrorKind::Reference, Stage::MissingSource)),
            Some(position) => {
                let declared = sources[position as int].accessor.count;
                if count is Some && count != Some(declared) {
                    Err(fault(ErrorKind::Consistency, Stage::Vertices))
                } else {
                    mapping_from(sources, inputs, from + 1, map.push(position), Some(declared))
                }
            },
        }
    }
}

impl VerticesModel {
    /// The inputs are resolved against a list of `len` sources: each has a
    /// position, and each position is in the list.
    pub open spec fn mapped(self, len: nat) -> bool {
        &&& self.semantics_map.len() == self.inputs.len()
        &&& forall|k: int| 0 <= k < self.semantics_map.len() ==> #[trigger] self.semantics_map[k] < len
    }

    /// The attributes of vertex `n`: for each input its semantic, and the
    /// component names and record `n` of its source.
    pub open spec fn attributes<S>(self, n: int, sources: Seq<SourceModel<S>>) -> Seq<
        AttributeModel<S>,
    > {
        Seq::new(
            self.inputs.len(),
            |k: int|
                AttributeModel {
                    semantic: self.inputs[k].0,
                    parameters: sources[self.semantics_map[k] as int].accessor.parameters,
                    data: sources[self.semantics_map[k] as int].record(n),
                },
        )
    }

    /// The vertices element with its inputs resolved against `sources`.
    pub open spec fn resolved<S>(self, sources: Seq<SourceModel<S>>) -> Result<VerticesModel, Error> {
        match mapping_from(sources, self.inputs, 0, Seq::empty(), None) {
            Err(error) => Err(error),
            Ok((map, count)) => Ok(VerticesModel { semantics_map: map, count, ..self }),
        }
    }
}

/// The models of a list of sources.
pub open spec fn sources_model<S>(sources: Seq<DataSource<S>>) -> Seq<SourceModel<S>> {
    Seq::new(sources.len(), |i: int| sources[i]@)
}

/// The models of a list of inputs.
pub closed spec fn inputs_model(inputs: Seq<VertexInput>) -> Seq<(Seq<char>, Seq<char>)> {
    Seq::new(inputs.len(), |i: int| (inputs[i].semantic@, inputs[i].source@))
}

/// The inputs among `children` from position `from` on, appended to
/// `inputs`; an `input` child without `semantic` or `source` fails.
pub open spec fn vertex_inputs_from(
    tree: Seq<NodeModel>,
    children: Seq<usize>,
    from: int,
    inputs: Seq<(Seq<char>, Seq<char>)>,
) -> Result<Seq<(Seq<char>, Seq<char>)>, Error>
    decreases children.len() - from,
{
    if from < 0 || from >= children.len() {
        Ok(inputs)
    } else {
        let child = tree[children[from] as int];
        if child.name != "input"@ {
            vertex_inputs_from(tree, children, from + 1, inputs)
        } else {
            match required(child, "semantic", Stage::Vertices) {
                Err(error) => Err(error),
                Ok(semantic) => match required(child, "source", Stage::Vertices) {
                    Err(error) => Err(error),
                    Ok(source) => vertex_inputs_from(
                        tree,
                        children,
                        from + 1,
                        inputs.push((semantic, source)),
                    ),
                },
            }
        }
    }
}

/// What the element at `node` decodes to as a vertices element: its tag
/// must be `vertices`, it must have an id, and its inputs must be well
/// formed. The inputs are not resolved yet.
pub open spec fn vertices_model(tree: Seq<NodeModel>, node: int) -> Result<VerticesModel, Error> {
    if !(0 <= node < tree.len()) || tree[node].name != "vertices"@ {
        Err(fault(ErrorKind::Structure, Stage::Vertices))
    } else {
        match required(tree[node], "id", Stage::Vertices) {
            Err(error) => Err(error),
            Ok(id) => match vertex_inputs_from(tree, tree[node].child_list(), 0, Seq::empty()) {
                Err(error) => Err(error),
                Ok(inputs) => Ok(
                    VerticesModel { id, inputs, semantics_map: Seq::empty(), count: None },
                ),
            },
        }
    }
}

/// The vertices element of a mesh.
#[derive(Debug)]
pub struct Vertices {
    id: String,
    inputs: Vec<VertexInput>,
    semantics_map: Vec<usize>,
    count: Option<usize>,
}

impl View for Vertices {
    type V = VerticesModel;

    closed spec fn view(&self) -> VerticesModel {
        VerticesModel {
            id: self.id@,
            inputs: inputs_model(self.inputs@),
            semantics_map: self.semantics_map@,
            count: self.count,
        }
    }
}

impl Vertices {
    /// The id of the element.
    pub fn get_id(&self) -> (id: &str)
        ensures
            id@ == self@.id,
    {
        self.id.as_str()
    }

    /// The count that the resolved sources share, if the inputs are
    /// resolved and there is one.
    pub fn count(&self) -> (count: Option<usize>)
        ensures
            count == self@.count,
    {
        self.count
    }

    /// The vertices element without id and inputs.
    pub fn new() -> (vertices: Vertices)
        ensures
            vertices@ == (VerticesModel {
                id: Seq::empty(),
                inputs: Seq::empty(),
                semantics_map: Seq::empty(),
                count: None,
            }),
    {
        let vertices = Vertices {
            id: String::new(),
            inputs: Vec::new(),
            semantics_map: Vec::new(),
            count: None,
        };
        assert(inputs_model(vertices.inputs@) =~= Seq::empty());
        vertices
    }

    /// Whether the inputs are resolved against a list of `len` sources.
    pub fn is_mapped(&self, len: usize) -> (mapped: bool)
        ensures
            mapped == self@.mapped(len as nat),
    {
        if self.semantics_map.len() != self.inputs.len() {
            return false;
        }
        let mut k: usize = 0;
        while k < self.semantics_map.len()
            invariant
                k <= self.semantics_map@.len(),
                self@.semantics_map == self.semantics_map@,
                self@.inputs.len() == self.inputs@.len(),
                self.semantics_map@.len() == self.inputs@.len(),
                forall|j: int| 0 <= j < k ==> #[trigger] self.semantics_map@[j] < len,
            decreases self.semantics_map@.len() - k,
        {
            if self.semantics_map[k] >= len {
                return false;
            }
            k += 1;
        }
        true
    }

    /// Resolves each input against `sources`: the reference, its marker
    /// stripped, must be the id of a source, and all sources that the
    /// inputs name must declare the same count. On failure nothing changes.
    pub fn map_semantics<S: ListElement>(&mut self, sources: &[DataSource<S>]) -> (mapped: Result<
        (),
        Error,
    >)
        ensures
            match mapped {
                Ok(_) => old(self)@.resolved(sources_model(sources@)) == Ok::<VerticesModel, Error>(
                    final(self)@,
                ) && final(self)@.mapped(sources@.len()),
                Err(error) => old(self)@.resolved(sources_model(sources@)) == Err::<
                    VerticesModel,
                    Error,
                >(error) && *final(self) == *old(self),
            },
    {
        let ghost all = sources_model(sources@);
        let mut map: Vec<usize> = Vec::new();
        let mut count: Option<usize> = None;
        let mut k: usize = 0;
        while k < self.inputs.len()
            invariant
                k <= self.inputs@.len(),
                *self == *old(self),
                all == sources_model(sources@),
                map@.len() == k,
                forall|j: int| 0 <= j < map@.len() ==> #[trigger] map@[j] < sources@.len(),
                mapping_from(all, self@.inputs, 0, Seq::empty(), None) == mapping_from(
                    all,
                    self@.inputs,
                    k as int,
                    map@,
                    count,
                ),
            decreases self.inputs@.len() - k,
        {
            let reference = self.inputs[k].source.as_str();
            assert(self@.inputs[k as int].1 == reference@);
            let mut position: Option<usize> = None;
            let mut i: usize = 0;
            while i < sources.len() && position.is_none()
                invariant
                    i <= sources@.len(),
                    all == sources_model(sources@),
                    position is Some ==> source_position(all, reference_target(reference@))
                        == position && position->0 < sources@.len(),
                    position is None ==> source_position(all, reference_target(reference@))
                        == position_from(all, reference_target(reference@), i as int),
                decreases sources@.len() - i + if position is None { 1int } else { 0 },
            {
                assert(all[i as int] == sources@[i as int]@);
                if refers_to(reference, sources[i].get_id()) {
                    position = Some(i);
                } else {
                    i += 1;
                }
            }
            match position {
                None => {
                    return Err(Error::new(ErrorKind::Reference, Stage::MissingSource));
                },
                Some(position) => {
                    let declared = sources[position].count();
                    assert(all[position as int] == sources@[position as int]@);
                    match count {
                        Some(shared) => {
                            if shared != declared {
                                return Err(Error::new(ErrorKind::Consistency, Stage::Vertices));
                            }
                        },
                        None => {},
                    }
                    count = Some(declared);
                    map.push(position);
                },
            }
            k += 1;
        }
        self.semantics_map = map;
        self.count = count;
        Ok(())
    }

    /// The attributes of vertex `n`.
    pub fn get_nth_attributes<'a, S: ListElement>(&'a self, n: usize, sources: &'a [DataSource<S>]) -> (attributes:
        Vec<(&'a str, &'a [String], Option<&'a [S]>)>)
        requires
            self@.mapped(sources@.len()),
        ensures
            attributes_model(attributes@) == self@.attributes(n as int, sources_model(sources@)),
    {
        let ghost all = sources_model(sources@);
        let mut attributes: Vec<(&'a str, &'a [String], Option<&'a [S]>)> = Vec::new();
        let mut k: usize = 0;
        while k < self.inputs.len()
            invariant
                k <= self.inputs@.len(),
                self@.mapped(sources@.len()),
                self@.semantics_map == self.semantics_map@,
                self@.inputs == inputs_model(self.inputs@),
                all == sources_model(sources@),
                attributes@.len() == k,
                forall|j: int|
                    0 <= j < k ==> (#[trigger] attributes_model(attributes@)[j])
                        == self@.attributes(n as int, all)[j],
            decreases self.inputs@.len() - k,
        {
            let position = self.semantics_map[k];
            assert(self@.semantics_map[k as int] < sources@.len());
            let source = &sources[position];
            assert(all[position as int] == source@);
            let entry = (
                self.inputs[k].semantic.as_str(),
                source.get_parameter_names(),
                source.get_nth_value(n),
            );
            let ghost before = attributes@;
            attributes.push(entry);
            assert forall|j: int| 0 <= j < k + 1 implies (#[trigger] attributes_model(
                attributes@,
            )[j]) == self@.attributes(n as int, all)[j] by {
                if j < k {
                    assert(attributes@[j] == before[j]);
                    assert(attributes_model(before)[j] == self@.attributes(n as int, all)[j]);
                }
            }
            k += 1;
        }
        assert(attributes_model(attributes@) =~= self@.attributes(n as int, all));
        attributes
    }

    /// For each input its semantic and the component names of its source.
    pub fn get_attributes_parameters<'a, S: ListElement>(&'a self, sources: &'a [DataSource<S>]) -> (parameters:
        Vec<(&'a str, &'a [String])>)
        requires
            self@.mapped(sources@.len()),
        ensures
            parameters@.len() == self@.inputs.len(),
            forall|k: int|
                0 <= k < parameters@.len() ==> (#[trigger] parameters@[k]).0@ == self@.inputs[k].0
                    && texts(parameters@[k].1@) == sources@[self@.semantics_map[k] as int]@.accessor.parameters,
    {
        let mut parameters: Vec<(&'a str, &'a [String])> = Vec::new();
        let mut k: usize = 0;
        while k < self.inputs.len()
            invariant
                k <= self.inputs@.len(),
                self@.mapped(sources@.len()),
                self@.semantics_map == self.semantics_map@,
                self@.inputs == inputs_model(self.inputs@),
                parameters@.len() == k,
                forall|j: int|
                    0 <= j < k ==> (#[trigger] parameters@[j]).0@ == self@.inputs[j].0 && texts(
                        parameters@[j].1@,
                    ) == sources@[self@.semantics_map[j] as int]@.accessor.parameters,
            decreases self.inputs@.len() - k,
        {
            let position = self.semantics_map[k];
            assert(self@.semantics_map[k as int] < sources@.len());
            parameters.push((self.inputs[k].semantic.as_str(), sources[position].get_parameter_names()));
            k += 1;
        }
        parameters
    }

    /// Decodes the `vertices` element at `node`. Its inputs are not
    /// resolved yet.
    #[verifier::loop_isolation(false)]
    pub fn parse_vertices(node: usize, tree: &XmlTree) -> (parsed: Result<Vertices, Error>)
        ensures
            match parsed {
                Ok(vertices) => vertices_model(tree@, node as int) == Ok::<VerticesModel, Error>(
                    vertices@,
                ),
                Err(error) => vertices_model(tree@, node as int) == Err::<VerticesModel, Error>(
                    error,
                ),
            },
    {
        let element = match tree.get_node(node) {
            Some(element) => element,
            None => {
                return Err(Error::new(ErrorKind::Structure, Stage::Vertices));
            },
        };
        if !has_tag(element, "vertices") {
            return Err(Error::new(ErrorKind::Structure, Stage::Vertices));
        }
        let id = required_attribute(element, "id", Stage::Vertices)?;
        let none: Vec<usize> = Vec::new();
        let children = children_or_none(element, &none);
        let mut inputs: Vec<VertexInput> = Vec::new();
        let mut i: usize = 0;
        assert(inputs_model(inputs@) =~= Seq::empty());
        while i < children.len()
            invariant
                i <= children@.len(),
                vertex_inputs_from(tree@, children@, 0, Seq::empty()) == vertex_inputs_from(
                    tree@,
                    children@,
                    i as int,
                    inputs_model(inputs@),
                ),
            decreases children@.len() - i,
        {
            let child = child_at(tree, children, i, Ghost(node as int));
            if has_tag(child, "input") {
                let semantic = required_attribute(child, "semantic", Stage::Vertices)?;
                let source = required_attribute(child, "source", Stage::Vertices)?;
                let ghost before = inputs_model(inputs@);
                inputs.push(VertexInput { semantic: semantic.to_owned(), source: source.to_owned() });
                assert(inputs_model(inputs@) =~= before.push((semantic@, source@)));
            }
            i += 1;
        }
        let semantics_map: Vec<usize> = Vec::new();
        Ok(Vertices { id: id.to_owned(), inputs, semantics_map, count: None })
    }
}

} // verus!
