//! Meshes: sources, vertices and primitive lists, and their assembly.

use crate::collada::accessor::lemma_records;
use crate::collada::error::{Error, ErrorKind, Stage};
use crate::collada::mesh::index::IndexAccessorModel;
use crate::collada::mesh::primitive_elements::{
    primitive_element_model, PrimitiveElement, PrimitiveElementModel, Shape,
};
use crate::collada::mesh::vertices::{
    attributes_model, position_from, source_position, sources_model, vertices_model,
    AttributeModel, Vertices, VerticesModel,
};
use crate::collada::source::{source_model, DataSource, ListElement, SourceModel};
use crate::collada::util::{
    child_at, children_or_none, fault, has_tag, same_optional_text, texts,
};
use crate::collada::PTNCIndex;
use crate::math::{Vector2, Vector3};
use crate::text::{reference_target, refers_to, same_text, strip_marker, Literal};
use crate::xml_tree::node::NodeModel;
use crate::xml_tree::tree::XmlTree;
use vstd::prelude::*;

pub mod index;
pub mod primitive_elements;
pub mod vertices;

verus! {

/// Either a source or the vertices element of a mesh.
pub enum SourceOrVertices<'a, S> {
    Source(&'a DataSource<S>),
    Vertices(&'a Vertices),
}

/// The parts of a mesh element, decoded one by one.
#[derive(Debug)]
pub struct MeshParser<S> {
    pub sources: Vec<DataSource<S>>,
    pub vertices: Vertices,
    pub primitive_elements: Vec<PrimitiveElement>,
}

/// The model of the parts of a mesh element.
pub struct MeshParserModel<S> {
    pub sources: Seq<SourceModel<S>>,
    pub vertices: VerticesModel,
    pub primitive_elements: Seq<PrimitiveElementModel>,
}

/// The models of a list of primitive lists.
pub open spec fn elements_model(elements: Seq<PrimitiveElement>) -> Seq<PrimitiveElementModel> {
    Seq::new(elements.len(), |i: int| elements[i]@)
}

impl<S> View for MeshParser<S> {
    type V = MeshParserModel<S>;

    open spec fn view(&self) -> MeshParserModel<S> {
        MeshParserModel {
            sources: sources_model(self.sources@),
            vertices: self.vertices@,
            primitive_elements: elements_model(self.primitive_elements@),
        }
    }
}

/// The attributes of a vertex as contracts speak of them.
pub type Attributes<S> = Seq<AttributeModel<S>>;

/// A vertex representation: how one vertex is made from its attributes.
pub trait Vertex<S>: Sized {
    /// The vertex that the attributes make, or `None` where they make none.
    /// It is never run: contracts speak of it.
    spec fn build(attributes: Attributes<S>) -> Option<Self>;

    /// Makes a vertex from its attributes: for each input of the vertices
    /// element its semantic, the component names of its source and the
    /// record of the vertex.
    fn from_attributes(attributes: &Vec<(&str, &[String], Option<&[S]>)>) -> (vertex: Option<Self>)
        ensures
            vertex == Self::build(attributes_model(attributes@)),
    ;
}

/// A mesh: its vertices, the normals, texture coordinates and colors that
/// its corners index, and its shapes.
#[derive(Debug)]
pub struct GenericMesh<T, S> {
    pub vertices: Vec<T>,
    pub normals: Vec<Vector3<S>>,
    pub tex_coords: Vec<Vector2<S>>,
    pub colors: Vec<Vector3<S>>,
    pub shapes: Vec<Shape<PTNCIndex>>,
}

/// The model of a mesh.
pub struct MeshModel<T, S> {
    pub vertices: Seq<T>,
    pub normals: Seq<Vector3<S>>,
    pub tex_coords: Seq<Vector2<S>>,
    pub colors: Seq<Vector3<S>>,
    pub shapes: Seq<Shape<PTNCIndex>>,
}

impl<T, S> View for GenericMesh<T, S> {
    type V = MeshModel<T, S>;

    open spec fn view(&self) -> MeshModel<T, S> {
        MeshModel {
            vertices: self.vertices@,
            normals: self.normals@,
            tex_coords: self.tex_coords@,
            colors: self.colors@,
            shapes: self.shapes@,
        }
    }
}

/// The state of decoding a mesh element between two children.
pub struct MeshParts<S> {
    pub sources: Seq<SourceModel<S>>,
    pub vertices: VerticesModel,
    pub primitive_elements: Seq<PrimitiveElementModel>,
}

/// The parts among `children` from position `from` on, added to those found
/// before: each `source` child is a source of floats, the last `vertices`
/// child is the vertices element, each `triangles` or `lines` child a
/// primitive list. The first child that does not decode fails the mesh.
pub open spec fn mesh_parts_from<S: Literal>(
    tree: Seq<NodeModel>,
    children: Seq<usize>,
    from: int,
    parts: MeshParts<S>,
) -> Result<MeshParts<S>, Error>
    decreases children.len() - from,
{
    if from < 0 || from >= children.len() {
        Ok(parts)
    } else {
        let at = children[from] as int;
        let child = tree[at];
        if child.name == "source"@ {
            match source_model::<S>(tree, at, "float_array"@) {
                Err(error) => Err(error),
                Ok(source) => mesh_parts_from(
                    tree,
                    children,
                    from + 1,
                    MeshParts { sources: parts.sources.push(source), ..parts },
                ),
            }
        } else if child.name == "vertices"@ {
            match vertices_model(tree, at) {
                Err(error) => Err(error),
                Ok(vertices) => mesh_parts_from(
                    tree,
                    children,
                    from + 1,
                    MeshParts { vertices, ..parts },
                ),
            }
        } else if child.name == "triangles"@ || child.name == "lines"@ {
            match primitive_element_model(tree, at) {
                Err(error) => Err(error),
                Ok(element) => mesh_parts_from(
                    tree,
                    children,
                    from + 1,
                    MeshParts {
                        primitive_elements: parts.primitive_elements.push(element),
                        ..parts
                    },
                ),
            }
        } else {
            mesh_parts_from(tree, children, from + 1, parts)
        }
    }
}

/// The vertices element that stands for a mesh without one.
pub open spec fn no_vertices() -> VerticesModel {
    VerticesModel { id: Seq::empty(), inputs: Seq::empty(), semantics_map: Seq::empty(), count: None }
}

/// What the element at `node` decodes to as the parts of a mesh: its tag
/// must be `mesh`, each part must decode, and the inputs of the vertices
/// element must resolve against the sources.
pub open spec fn mesh_parser_model<S: Literal>(tree: Seq<NodeModel>, node: int) -> Result<
    MeshParserModel<S>,
    Error,
> {
    if !(0 <= node < tree.len()) || tree[node].name != "mesh"@ {
        Err(fault(ErrorKind::Structure, Stage::Mesh))
    } else {
        match mesh_parts_from::<S>(
            tree,
            tree[node].child_list(),
            0,
            MeshParts {
                sources: Seq::empty(),
                vertices: no_vertices(),
                primitive_elements: Seq::empty(),
            },
        ) {
            Err(error) => Err(error),
            Ok(parts) => match parts.vertices.resolved(parts.sources) {
                Err(error) => Err(error),
                Ok(vertices) => Ok(
                    MeshParserModel {
                        sources: parts.sources,
                        vertices,
                        primitive_elements: parts.primitive_elements,
                    },
                ),
            },
        }
    }
}

/// The source references of the inputs of a primitive list: vertex, texture
/// coordinate, normal, color.
pub type SourceTuple = (Seq<char>, Option<Seq<char>>, Option<Seq<char>>, Option<Seq<char>>);

/// The source references of a set of inputs.
pub open spec fn source_tuple(inputs: IndexAccessorModel) -> SourceTuple {
    (
        inputs.vertex.source,
        match inputs.tex_coord {
            Some(input) => Some(input.source),
            None => None,
        },
        match inputs.normal {
            Some(input) => Some(input.source),
            None => None,
        },
        match inputs.color {
            Some(input) => Some(input.source),
            None => None,
        },
    )
}

/// The views of a tuple of source references.
pub open spec fn tuple_model(sources: (&str, Option<&str>, Option<&str>, Option<&str>)) -> SourceTuple {
    (
        sources.0@,
        match sources.1 {
            Some(text) => Some(text@),
            None => None,
        },
        match sources.2 {
            Some(text) => Some(text@),
            None => None,
        },
        match sources.3 {
            Some(text) => Some(text@),
            None => None,
        },
    )
}

/// The shapes of the primitive lists from list `from` on, appended to
/// `shapes`; a list whose source references differ from `shared` fails.
pub open spec fn shapes_from(
    elements: Seq<PrimitiveElementModel>,
    shared: SourceTuple,
    from: int,
    shapes: Seq<Shape<PTNCIndex>>,
) -> Result<Seq<Shape<PTNCIndex>>, Error>
    decreases elements.len() - from,
{
    if from < 0 || from >= elements.len() {
        Ok(shapes)
    } else if source_tuple(elements[from].indices.accessor) != shared {
        Err(fault(ErrorKind::Consistency, Stage::MeshAssembly))
    } else {
        shapes_from(elements, shared, from + 1, shapes + elements[from].shapes())
    }
}

/// The position of the last name from position `from` on that is `name`,
/// or `found` where there is none.
pub open spec fn last_from(names: Seq<Seq<char>>, name: Seq<char>, from: int, found: Option<usize>) -> Option<
    usize,
>
    decreases names.len() - from,
{
    if from < 0 || from >= names.len() {
        found
    } else {
        last_from(
            names,
            name,
            from + 1,
            if names[from] == name {
                Some(from as usize)
            } else {
                found
            },
        )
    }
}

/// The position of the last component called `name`.
pub open spec fn component(names: Seq<Seq<char>>, name: Seq<char>) -> Option<usize> {
    last_from(names, name, 0, None)
}

/// The vectors made of the components `x`, `y` and `z` of each record of a
/// source, in record order.
pub open spec fn projected3<S>(source: SourceModel<S>, x: int, y: int, z: int) -> Seq<Vector3<S>> {
    Seq::new(
        source.records(),
        |i: int|
            Vector3 {
                x: source.record(i)->0[x],
                y: source.record(i)->0[y],
                z: source.record(i)->0[z],
            },
    )
}

/// The vectors made of the components `x` and `y` of each record of a
/// source, in record order.
pub open spec fn projected2<S>(source: SourceModel<S>, x: int, y: int) -> Seq<Vector2<S>> {
    Seq::new(
        source.records(),
        |i: int| Vector2 { x: source.record(i)->0[x], y: source.record(i)->0[y] },
    )
}

/// The source that a reference names.
pub open spec fn referenced<S>(sources: Seq<SourceModel<S>>, reference: Seq<char>) -> Option<
    SourceModel<S>,
> {
    match source_position(sources, reference_target(reference)) {
        Some(position) => Some(sources[position as int]),
        None => None,
    }
}

/// The vectors of an optional source reference: none without a reference;
/// else the reference must name a source whose components `first`,
/// `second` and `third` exist and lie within its stride.
pub open spec fn vectors3<S>(
    sources: Seq<SourceModel<S>>,
    reference: Option<Seq<char>>,
    first: Seq<char>,
    second: Seq<char>,
    third: Seq<char>,
) -> Result<Seq<Vector3<S>>, Error> {
    match reference {
        None => Ok(Seq::empty()),
        Some(name) => match referenced(sources, name) {
            None => Err(fault(ErrorKind::Reference, Stage::MeshAssembly)),
            Some(source) => {
                let names = source.accessor.parameters;
                match (component(names, first), component(names, second), component(names, third)) {
                    (Some(x), Some(y), Some(z)) => if x < source.accessor.stride && y
                        < source.accessor.stride && z < source.accessor.stride {
                        Ok(projected3(source, x as int, y as int, z as int))
                    } else {
                        Err(fault(ErrorKind::Structure, Stage::MeshAssembly))
                    },
                    _ => Err(fault(ErrorKind::Structure, Stage::MeshAssembly)),
                }
            },
        },
    }
}

/// The texture coordinates of an optional source reference: the components
/// `S` and `T` of each record.
pub open spec fn vectors2<S>(sources: Seq<SourceModel<S>>, reference: Option<Seq<char>>) -> Result<
    Seq<Vector2<S>>,
    Error,
> {
    match reference {
        None => Ok(Seq::empty()),
        Some(name) => match referenced(sources, name) {
            None => Err(fault(ErrorKind::Reference, Stage::MeshAssembly)),
            Some(source) => {
                let names = source.accessor.parameters;
                match (component(names, "S"@), component(names, "T"@)) {
                    (Some(x), Some(y)) => if x < source.accessor.stride && y
                        < source.accessor.stride {
                        Ok(projected2(source, x as int, y as int))
                    } else {
                        Err(fault(ErrorKind::Structure, Stage::MeshAssembly))
                    },
                    _ => Err(fault(ErrorKind::Structure, Stage::MeshAssembly)),
                }
            },
        },
    }
}

/// The colors of an optional source reference: the first three components
/// of each record.
pub open spec fn colors<S>(sources: Seq<SourceModel<S>>, reference: Option<Seq<char>>) -> Result<
    Seq<Vector3<S>>,
    Error,
> {
    match reference {
        None => Ok(Seq::empty()),
        Some(name) => match referenced(sources, name) {
            None => Err(fault(ErrorKind::Reference, Stage::MeshAssembly)),
            Some(source) => if source.records() == 0 || source.accessor.stride >= 3 {
                Ok(projected3(source, 0, 1, 2))
            } else {
                Err(fault(ErrorKind::Structure, Stage::MeshAssembly))
            },
        },
    }
}

/// The vertices of a mesh: one for each of the count that the sources of
/// the vertices element share, each built from its attributes. The inputs
/// must be resolved, and every vertex must build.
pub open spec fn built_vertices<T: Vertex<S>, S>(parts: MeshParserModel<S>) -> Result<Seq<T>, Error> {
    if parts.vertices.count is None || !parts.vertices.mapped(parts.sources.len()) {
        Err(fault(ErrorKind::Structure, Stage::MeshAssembly))
    } else {
        let count = parts.vertices.count->0 as int;
        if forall|i: int|
            0 <= i < count ==> (#[trigger] T::build(parts.vertices.attributes(i, parts.sources)))
                is Some {
            Ok(Seq::new(count as nat, |i: int| T::build(parts.vertices.attributes(i, parts.sources))->0))
        } else {
            Err(fault(ErrorKind::Structure, Stage::MeshAssembly))
        }
    }
}

/// The mesh that the parts of a mesh element assemble to. There must be a
/// primitive list; the vertex input of the first must name the vertices
/// element; all lists must name the same sources; then come the vertices,
/// the normals (components `X`, `Y`, `Z`), the texture coordinates (`S`,
/// `T`) and the colors, and the first of them that fails, fails the mesh.
pub open spec fn mesh_model<T: Vertex<S>, S>(parts: MeshParserModel<S>) -> Result<MeshModel<T, S>, Error> {
    if parts.primitive_elements.len() == 0 {
        Err(fault(ErrorKind::Structure, Stage::MeshAssembly))
    } else {
        let shared = source_tuple(parts.primitive_elements[0].indices.accessor);
        if reference_target(shared.0) != parts.vertices.id {
            Err(fault(ErrorKind::Reference, Stage::MeshAssembly))
        } else {
            match shapes_from(parts.primitive_elements, shared, 0, Seq::empty()) {
                Err(error) => Err(error),
                Ok(shapes) => match built_vertices::<T, S>(parts) {
                    Err(error) => Err(error),
                    Ok(vertices) => match vectors3(parts.sources, shared.2, "X"@, "Y"@, "Z"@) {
                        Err(error) => Err(error),
                        Ok(normals) => match vectors2(parts.sources, shared.1) {
                            Err(error) => Err(error),
                            Ok(tex_coords) => match colors(parts.sources, shared.3) {
                                Err(error) => Err(error),
                                Ok(colors) => Ok(
                                    MeshModel { vertices, normals, tex_coords, colors, shapes },
                                ),
                            },
                        },
                    },
                },
            }
        }
    }
}

/// What the element at `node` decodes to as a mesh.
pub open spec fn generic_mesh_model<T: Vertex<S>, S: Literal>(tree: Seq<NodeModel>, node: int) -> Result<
    MeshModel<T, S>,
    Error,
> {
    match mesh_parser_model::<S>(tree, node) {
        Err(error) => Err(error),
        Ok(parts) => mesh_model::<T, S>(parts),
    }
}

/// The position of the last name that is `name`.
pub fn find_component(names: &[String], name: &str) -> (found: Option<usize>)
    ensures
        found == component(texts(names@), name@),
{
    let mut found: Option<usize> = None;
    let mut i: usize = 0;
    while i < names.len()
        invariant
            i <= names@.len(),
            component(texts(names@), name@) == last_from(texts(names@), name@, i as int, found),
        decreases names@.len() - i,
    {
        if same_text(names[i].as_str(), name) {
            found = Some(i);
        }
        i += 1;
    }
    found
}

impl<S: ListElement + Copy> MeshParser<S> {
    /// The first source whose id is `name`.
    pub fn get_source_with_name<'a>(&'a self, name: &str) -> (source: Option<&'a DataSource<S>>)
        ensures
            match source {
                Some(found) => source_position(self@.sources, name@) matches Some(position)
                    && found@ == self@.sources[position as int],
                None => source_position(self@.sources, name@) is None,
            },
    {
        let mut i: usize = 0;
        while i < self.sources.len()
            invariant
                i <= self.sources@.len(),
                source_position(self@.sources, name@) == position_from(
                    self@.sources,
                    name@,
                    i as int,
                ),
            decreases self.sources@.len() - i,
        {
            assert(self@.sources[i as int] == self.sources@[i as int]@);
            if same_text(self.sources[i].get_id(), name) {
                return Some(&self.sources[i]);
            }
            i += 1;
        }
        None
    }

    /// The source that an id reference names.
    fn get_referenced<'a>(&'a self, reference: &str) -> (source: Result<&'a DataSource<S>, Error>)
        ensures
            match source {
                Ok(found) => referenced(self@.sources, reference@) == Some(found@),
                Err(error) => referenced(self@.sources, reference@) is None && error == fault(
                    ErrorKind::Reference,
                    Stage::MeshAssembly,
                ),
            },
    {
        let target = strip_marker(reference);
        match self.get_source_with_name(target.as_str()) {
            Some(found) => Ok(found),
            None => Err(Error::new(ErrorKind::Reference, Stage::MeshAssembly)),
        }
    }

    /// The vectors made of three components of each record of a source.
    fn project3(source: &DataSource<S>, x: usize, y: usize, z: usize) -> (vectors: Vec<Vector3<S>>)
        requires
            source@.records() == 0 || (x < source@.accessor.stride && y < source@.accessor.stride
                && z < source@.accessor.stride),
        ensures
            vectors@ == projected3(source@, x as int, y as int, z as int),
    {
        let count = source.record_count();
        let mut vectors: Vec<Vector3<S>> = Vec::new();
        let mut i: usize = 0;
        while i < count
            invariant
                i <= count,
                count == source@.records(),
                count == 0 || (x < source@.accessor.stride && y < source@.accessor.stride && z
                    < source@.accessor.stride),
                vectors@.len() == i,
                forall|k: int|
                    0 <= k < i ==> (#[trigger] vectors@[k]) == projected3(
                        source@,
                        x as int,
                        y as int,
                        z as int,
                    )[k],
            decreases count - i,
        {
            proof {
                lemma_records(source@.array, source@.accessor.stride, i as int);
            }
            match source.get_nth_value(i) {
                Some(record) => {
                    vectors.push(Vector3 { x: record[x], y: record[y], z: record[z] });
                },
                None => {
                    assert(false);
                },
            }
            i += 1;
        }
        assert(vectors@ =~= projected3(source@, x as int, y as int, z as int));
        vectors
    }

    /// The vectors made of two components of each record of a source.
    fn project2(source: &DataSource<S>, x: usize, y: usize) -> (vectors: Vec<Vector2<S>>)
        requires
            x < source@.accessor.stride && y < source@.accessor.stride,
        ensures
            vectors@ == projected2(source@, x as int, y as int),
    {
        let count = source.record_count();
        let mut vectors: Vec<Vector2<S>> = Vec::new();
        let mut i: usize = 0;
        while i < count
            invariant
                i <= count,
                count == source@.records(),
                x < source@.accessor.stride && y < source@.accessor.stride,
                vectors@.len() == i,
                forall|k: int|
                    0 <= k < i ==> (#[trigger] vectors@[k]) == projected2(
                        source@,
                        x as int,
                        y as int,
                    )[k],
            decreases count - i,
        {
            proof {
                lemma_records(source@.array, source@.accessor.stride, i as int);
            }
            match source.get_nth_value(i) {
                Some(record) => {
                    vectors.push(Vector2 { x: record[x], y: record[y] });
                },
                None => {
                    assert(false);
                },
            }
            i += 1;
        }
        assert(vectors@ =~= projected2(source@, x as int, y as int));
        vectors
    }

    /// The vectors of an optional source reference.
    fn read_vectors3(&self, reference: Option<&str>, first: &str, second: &str, third: &str) -> (vectors:
        Result<Vec<Vector3<S>>, Error>)
        ensures
            ({
                let model = vectors3(
                    self@.sources,
                    match reference {
                        Some(name) => Some(name@),
                        None => None,
                    },
                    first@,
                    second@,
                    third@,
                );
                match vectors {
                    Ok(list) => model == Ok::<Seq<Vector3<S>>, Error>(list@),
                    Err(error) => model == Err::<Seq<Vector3<S>>, Error>(error),
                }
            }),
    {
        let name = match reference {
            Some(name) => name,
            None => {
                return Ok(Vec::new());
            },
        };
        let source = self.get_referenced(name)?;
        let names = source.get_parameter_names();
        let stride = source.stride();
        match (find_component(names, first), find_component(names, second), find_component(names, third)) {
            (Some(x), Some(y), Some(z)) => {
                if x < stride && y < stride && z < stride {
                    Ok(Self::project3(source, x, y, z))
                } else {
                    Err(Error::new(ErrorKind::Structure, Stage::MeshAssembly))
                }
            },
            _ => Err(Error::new(ErrorKind::Structure, Stage::MeshAssembly)),
        }
    }

    /// The texture coordinates of an optional source reference.
    fn read_vectors2(&self, reference: Option<&str>) -> (vectors: Result<Vec<Vector2<S>>, Error>)
        ensures
            ({
                let model = vectors2(
                    self@.sources,
                    match reference {
                        Some(name) => Some(name@),
                        None => None,
                    },
                );
                match vectors {
                    Ok(list) => model == Ok::<Seq<Vector2<S>>, Error>(list@),
                    Err(error) => model == Err::<Seq<Vector2<S>>, Error>(error),
                }
            }),
    {
        let name = match reference {
            Some(name) => name,
            None => {
                return Ok(Vec::new());
            },
        };
        let source = self.get_referenced(name)?;
        let names = source.get_parameter_names();
        let stride = source.stride();
        match (find_component(names, "S"), find_component(names, "T")) {
            (Some(x), Some(y)) => {
                if x < stride && y < stride {
                    Ok(Self::project2(source, x, y))
                } else {
                    Err(Error::new(ErrorKind::Structure, Stage::MeshAssembly))
                }
            },
            _ => Err(Error::new(ErrorKind::Structure, Stage::MeshAssembly)),
        }
    }

    /// The colors of an optional source reference.
    fn read_colors(&self, reference: Option<&str>) -> (vectors: Result<Vec<Vector3<S>>, Error>)
        ensures
            ({
                let model = colors(
                    self@.sources,
                    match reference {
                        Some(name) => Some(name@),
                        None => None,
                    },
                );
                match vectors {
                    Ok(list) => model == Ok::<Seq<Vector3<S>>, Error>(list@),
                    Err(error) => model == Err::<Seq<Vector3<S>>, Error>(error),
                }
            }),
    {
        let name = match reference {
            Some(name) => name,
            None => {
                return Ok(Vec::new());
            },
        };
        let source = self.get_referenced(name)?;
        if source.record_count() == 0 || source.stride() >= 3 {
            Ok(Self::project3(source, 0, 1, 2))
        } else {
            Err(Error::new(ErrorKind::Structure, Stage::MeshAssembly))
        }
    }

    /// The vertices of the mesh.
    fn build_vertices<T: Vertex<S>>(&self) -> (vertices: Result<Vec<T>, Error>)
        ensures
            match vertices {
                Ok(list) => built_vertices::<T, S>(self@) == Ok::<Seq<T>, Error>(list@),
                Err(error) => built_vertices::<T, S>(self@) == Err::<Seq<T>, Error>(error),
            },
    {
        let count = match self.vertices.count() {
            Some(count) => count,
            None => {
                return Err(Error::new(ErrorKind::Structure, Stage::MeshAssembly));
            },
        };
        if !self.vertices.is_mapped(self.sources.len()) {
            return Err(Error::new(ErrorKind::Structure, Stage::MeshAssembly));
        }
        let mut vertices: Vec<T> = Vec::new();
        let mut i: usize = 0;
        while i < count
            invariant
                i <= count,
                self@.vertices.count == Some(count),
                self@.vertices.mapped(self@.sources.len()),
                vertices@.len() == i,
                forall|k: int|
                    0 <= k < i ==> T::build(self@.vertices.attributes(k, self@.sources)) == Some(
                        #[trigger] vertices@[k],
                    ),
            decreases count - i,
        {
            let attributes = self.vertices.get_nth_attributes(i, self.sources.as_slice());
            match T::from_attributes(&attributes) {
                Some(vertex) => {
                    vertices.push(vertex);
                },
                None => {
                    assert(T::build(self@.vertices.attributes(i as int, self@.sources)) is None);
                    return Err(Error::new(ErrorKind::Structure, Stage::MeshAssembly));
                },
            }
            i += 1;
        }
        proof {
            assert forall|k: int| 0 <= k < count implies (#[trigger] T::build(
                self@.vertices.attributes(k, self@.sources),
            )) is Some by {
                assert(T::build(self@.vertices.attributes(k, self@.sources)) == Some(vertices@[k]));
            }
            assert(vertices@ =~= built_vertices::<T, S>(self@)->Ok_0);
        }
        Ok(vertices)
    }

    /// Assembles the parts into a mesh.
    #[verifier::loop_isolation(false)]
    pub fn into_mesh<T: Vertex<S>>(&self) -> (mesh: Result<GenericMesh<T, S>, Error>)
        ensures
            match mesh {
                Ok(made) => mesh_model::<T, S>(self@) == Ok::<MeshModel<T, S>, Error>(made@),
                Err(error) => mesh_model::<T, S>(self@) == Err::<MeshModel<T, S>, Error>(error),
            },
    {
        if self.primitive_elements.len() == 0 {
            return Err(Error::new(ErrorKind::Structure, Stage::MeshAssembly));
        }
        let ghost elements = self@.primitive_elements;
        assert(elements[0] == self.primitive_elements@[0]@);
        let sources = self.primitive_elements[0].get_ptnc_sources();
        let ghost shared = source_tuple(elements[0].indices.accessor);
        assert(shared == tuple_model(sources));
        if !refers_to(sources.0, self.vertices.get_id()) {
            return Err(Error::new(ErrorKind::Reference, Stage::MeshAssembly));
        }
        let mut shapes: Vec<Shape<PTNCIndex>> = Vec::new();
        let mut k: usize = 0;
        while k < self.primitive_elements.len()
            invariant
                k <= self.primitive_elements@.len(),
                elements == self@.primitive_elements,
                shared == source_tuple(elements[0].indices.accessor),
                shared == tuple_model(sources),
                shapes_from(elements, shared, 0, Seq::empty()) == shapes_from(
                    elements,
                    shared,
                    k as int,
                    shapes@,
                ),
            decreases self.primitive_elements@.len() - k,
        {
            let element = &self.primitive_elements[k];
            assert(elements[k as int] == element@);
            let named = element.get_ptnc_sources();
            assert(source_tuple(element@.indices.accessor) == tuple_model(named));
            if !(same_text(sources.0, named.0) && same_optional_text(sources.1, named.1)
                && same_optional_text(sources.2, named.2) && same_optional_text(
                sources.3,
                named.3,
            )) {
                return Err(Error::new(ErrorKind::Consistency, Stage::MeshAssembly));
            }
            let mut more = element.ptnc_shape_iter();
            shapes.append(&mut more);
            k += 1;
        }
        let vertices = self.build_vertices::<T>()?;
        assert(mesh_model::<T, S>(self@) is Ok ==> mesh_model::<T, S>(self@)->Ok_0.shapes
            == shapes@);
        let normals = self.read_vectors3(sources.2, "X", "Y", "Z")?;
        let tex_coords = self.read_vectors2(sources.1)?;
        let colors = self.read_colors(sources.3)?;
        Ok(GenericMesh { vertices, normals, tex_coords, colors, shapes })
    }
}

impl<S: Literal + Copy> MeshParser<S> {
    /// Decodes the parts of the `mesh` element at `node`.
    #[verifier::loop_isolation(false)]
    pub fn parse_mesh(node: usize, tree: &XmlTree) -> (parsed: Result<MeshParser<S>, Error>)
        ensures
            match parsed {
                Ok(parser) => mesh_parser_model::<S>(tree@, node as int) == Ok::<
                    MeshParserModel<S>,
                    Error,
                >(parser@),
                Err(error) => mesh_parser_model::<S>(tree@, node as int) == Err::<
                    MeshParserModel<S>,
                    Error,
                >(error),
            },
    {
        let element = match tree.get_node(node) {
            Some(element) => element,
            None => {
                return Err(Error::new(ErrorKind::Structure, Stage::Mesh));
            },
        };
        if !has_tag(element, "mesh") {
            return Err(Error::new(ErrorKind::Structure, Stage::Mesh));
        }
        let none: Vec<usize> = Vec::new();
        let children = children_or_none(element, &none);
        let mut sources: Vec<DataSource<S>> = Vec::new();
        let mut vertices = Vertices::new();
        let mut primitive_elements: Vec<PrimitiveElement> = Vec::new();
        let ghost start = MeshParts::<S> {
            sources: Seq::empty(),
            vertices: no_vertices(),
            primitive_elements: Seq::empty(),
        };
        assert(sources_model(sources@) =~= start.sources);
        assert(elements_model(primitive_elements@) =~= start.primitive_elements);
        let mut i: usize = 0;
        while i < children.len()
            invariant
                i <= children@.len(),
                mesh_parts_from::<S>(tree@, children@, 0, start) == mesh_parts_from::<S>(
                    tree@,
                    children@,
                    i as int,
                    MeshParts {
                        sources: sources_model(sources@),
                        vertices: vertices@,
                        primitive_elements: elements_model(primitive_elements@),
                    },
                ),
            decreases children@.len() - i,
        {
            let child = child_at(tree, children, i, Ghost(node as int));
            let at = children[i];
            if has_tag(child, "source") {
                let source = DataSource::<S>::parse_source(at, tree, "float_array")?;
                let ghost before = sources_model(sources@);
                let ghost model = source@;
                sources.push(source);
                assert(sources_model(sources@) =~= before.push(model));
            } else if has_tag(child, "vertices") {
                vertices = Vertices::parse_vertices(at, tree)?;
            } else if has_tag(child, "triangles") || has_tag(child, "lines") {
                let list = PrimitiveElement::parse_primitive_element(at, tree)?;
                let ghost before = elements_model(primitive_elements@);
                let ghost model = list@;
                primitive_elements.push(list);
                assert(elements_model(primitive_elements@) =~= before.push(model));
            }
            i += 1;
        }
        vertices.map_semantics(sources.as_slice())?;
        Ok(MeshParser { sources, vertices, primitive_elements })
    }
}

impl<T: Vertex<S>, S: Literal + Copy> GenericMesh<T, S> {
    /// Decodes the `mesh` element at `node` into a mesh.
    pub fn parse_mesh(node: usize, tree: &XmlTree) -> (parsed: Result<GenericMesh<T, S>, Error>)
        ensures
            match parsed {
                Ok(mesh) => generic_mesh_model::<T, S>(tree@, node as int) == Ok::<
                    MeshModel<T, S>,
                    Error,
                >(mesh@),
                Err(error) => generic_mesh_model::<T, S>(tree@, node as int) == Err::<
                    MeshModel<T, S>,
                    Error,
                >(error),
            },
    {
        let parser = MeshParser::<S>::parse_mesh(node, tree)?;
        parser.into_mesh::<T>()
    }
}

} // verus!
