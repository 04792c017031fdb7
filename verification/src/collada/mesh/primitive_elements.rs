//! Primitive lists: a flat index array read corner by corner and grouped
//! into triangles or lines.

use crate::collada::error::{Error, ErrorKind, PrimitiveIndicesError, Stage};
use crate::collada::mesh::index::{index_accessor_model, IndexAccessor, IndexAccessorModel};
use crate::collada::util::{
    child_at, children_or_none, fault, has_tag, parse_array, required_unsigned, unsigned_attribute,
};
use crate::collada::{PTNCIndex, PTNIndex};
use crate::text::list_value;
use crate::xml_tree::node::NodeModel;
use crate::xml_tree::tree::XmlTree;
use vstd::prelude::*;

verus! {

/// The model of the indices of a primitive list: its inputs and the flat
/// index array.
pub struct PrimitiveIndicesModel {
    pub accessor: IndexAccessorModel,
    pub indices: Seq<usize>,
}

impl PrimitiveIndicesModel {
    /// Corner `n`, or `None` where the indices end before it.
    pub open spec fn corner(self, n: int) -> Option<PTNCIndex> {
        self.accessor.corner(self.indices, n)
    }

    /// The number of corners.
    pub open spec fn corners(self) -> nat {
        self.indices.len() / self.accessor.components()
    }

    /// The inputs are valid and the indices are whole corners.
    pub open spec fn whole(self) -> bool {
        self.accessor.valid() && self.indices.len() % self.accessor.components() == 0
    }
}

/// The indices of a primitive list. Their number is always a multiple of
/// the number of indices per corner.
#[derive(Debug)]
pub struct PrimitiveIndices {
    accessor: IndexAccessor,
    indices: Vec<usize>,
    element_count: usize,
}

impl View for PrimitiveIndices {
    type V = PrimitiveIndicesModel;

    closed spec fn view(&self) -> PrimitiveIndicesModel {
        PrimitiveIndicesModel { accessor: self.accessor@, indices: self.indices@ }
    }
}

/// The index list among `children` from position `from` on: the literal
/// list of the last `p` child, or `indices` where there is none. A `p`
/// without text fails, and so does one with a token that is no unsigned
/// decimal.
pub open spec fn indices_from(
    tree: Seq<NodeModel>,
    children: Seq<usize>,
    from: int,
    indices: Seq<usize>,
) -> Result<Seq<usize>, Error>
    decreases children.len() - from,
{
    if from < 0 || from >= children.len() {
        Ok(indices)
    } else {
        let child = tree[children[from] as int];
        if child.name != "p"@ {
            indices_from(tree, children, from + 1, indices)
        } else {
            match child.characters() {
                None => Err(fault(ErrorKind::Structure, Stage::PrimitiveIndices)),
                Some(list) => match list_value::<usize>(list) {
                    None => Err(fault(ErrorKind::Literal, Stage::Array)),
                    Some(read) => indices_from(tree, children, from + 1, read),
                },
            }
        }
    }
}

/// What the element at `node` decodes to as the indices of a primitive
/// list: its inputs, and the index list, which must be whole corners.
pub open spec fn primitive_indices_model(tree: Seq<NodeModel>, node: int) -> Result<
    PrimitiveIndicesModel,
    Error,
> {
    match index_accessor_model(tree, node) {
        Err(error) => Err(error),
        Ok(accessor) => match indices_from(tree, tree[node].child_list(), 0, Seq::empty()) {
            Err(error) => Err(error),
            Ok(indices) => if indices.len() % accessor.components() == 0 {
                Ok(PrimitiveIndicesModel { accessor, indices })
            } else {
                Err(fault(ErrorKind::Consistency, Stage::PrimitiveIndices))
            },
        },
    }
}

impl PrimitiveIndices {
    /// What holds of every value: the indices are whole corners.
    #[verifier::type_invariant]
    pub closed spec fn well_formed(&self) -> bool {
        &&& self@.whole()
        &&& self.indices@.len() == self.element_count * self@.accessor.components()
    }

    /// The indices `indices` under the inputs `accessor`, if they are whole
    /// corners.
    pub fn new(accessor: IndexAccessor, indices: Vec<usize>) -> (made: Result<
        PrimitiveIndices,
        PrimitiveIndicesError,
    >)
        ensures
            match made {
                Ok(list) => indices@.len() % accessor@.components() == 0 && list@ == (
                PrimitiveIndicesModel { accessor: accessor@, indices: indices@ }),
                Err(_) => indices@.len() % accessor@.components() != 0,
            },
    {
        proof {
            use_type_invariant(&accessor);
        }
        let components = accessor.components();
        if indices.len() % components != 0 {
            return Err(PrimitiveIndicesError);
        }
        let element_count = indices.len() / components;
        assert(indices@.len() == element_count * components) by {
            vstd::arithmetic::div_mod::lemma_fundamental_div_mod(
                indices@.len() as int,
                components as int,
            );
            assert(components * element_count == element_count * components) by (nonlinear_arith);
        }
        Ok(PrimitiveIndices { accessor, indices, element_count })
    }

    /// The inputs.
    pub fn accessor(&self) -> (accessor: &IndexAccessor)
        ensures
            accessor@ == self@.accessor,
    {
        &self.accessor
    }

    /// The flat index array.
    pub fn indices(&self) -> (indices: &[usize])
        ensures
            indices@ == self@.indices,
    {
        self.indices.as_slice()
    }

    /// Corner `n`, or `None` where the indices end before it.
    pub fn get_nth_ptnc(&self, n: usize) -> (corner: Option<PTNCIndex>)
        ensures
            corner == self@.corner(n as int),
    {
        self.accessor.get_nth_ptnc(n, self.indices.as_slice())
    }

    /// Corner `n` without its color index.
    pub fn get_nth_ptn(&self, n: usize) -> (corner: Option<PTNIndex>)
        ensures
            corner is Some <==> self@.corner(n as int) is Some,
            corner matches Some(found) ==> {
                let all = self@.corner(n as int)->0;
                found == (all.0, all.1, all.2)
            },
    {
        self.accessor.get_nth_ptn(n, self.indices.as_slice())
    }

    /// The source references of the inputs: vertex, texture coordinate,
    /// normal, color.
    pub fn get_ptnc_sources(&self) -> (sources: (&str, Option<&str>, Option<&str>, Option<&str>))
        ensures
            sources.0@ == self@.accessor.vertex.source,
            sources.1 is Some <==> self@.accessor.tex_coord is Some,
            sources.1 matches Some(text) ==> text@ == self@.accessor.tex_coord->0.source,
            sources.2 is Some <==> self@.accessor.normal is Some,
            sources.2 matches Some(text) ==> text@ == self@.accessor.normal->0.source,
            sources.3 is Some <==> self@.accessor.color is Some,
            sources.3 matches Some(text) ==> text@ == self@.accessor.color->0.source,
    {
        self.accessor.ptnc_sources()
    }

    /// The source references of the inputs: vertex, texture coordinate,
    /// normal.
    pub fn get_ptn_sources(&self) -> (sources: (&str, Option<&str>, Option<&str>))
        ensures
            sources.0@ == self@.accessor.vertex.source,
            sources.1 is Some <==> self@.accessor.tex_coord is Some,
            sources.1 matches Some(text) ==> text@ == self@.accessor.tex_coord->0.source,
            sources.2 is Some <==> self@.accessor.normal is Some,
            sources.2 matches Some(text) ==> text@ == self@.accessor.normal->0.source,
    {
        self.accessor.ptn_sources()
    }

    /// The number of corners.
    pub fn len(&self) -> (corners: usize)
        ensures
            corners == self@.corners(),
    {
        proof {
            use_type_invariant(self);
            use_type_invariant(&self.accessor);
            let c = self@.accessor.components() as int;
            assert(self.indices@.len() == self.element_count * c);
            vstd::arithmetic::div_mod::lemma_div_multiples_vanish(self.element_count as int, c);
            assert(self.element_count * c == c * self.element_count) by (nonlinear_arith);
        }
        self.element_count
    }

    /// Decodes the inputs and the index list of the primitive list at
    /// `node`.
    #[verifier::loop_isolation(false)]
    pub fn parse_indices(node: usize, tree: &XmlTree) -> (parsed: Result<PrimitiveIndices, Error>)
        ensures
            match parsed {
                Ok(list) => primitive_indices_model(tree@, node as int) == Ok::<
                    PrimitiveIndicesModel,
                    Error,
                >(list@),
                Err(error) => primitive_indices_model(tree@, node as int) == Err::<
                    PrimitiveIndicesModel,
                    Error,
                >(error),
            },
    {
        let accessor = IndexAccessor::parse_accessor(node, tree)?;
        let element = match tree.get_node(node) {
            Some(element) => element,
            None => {
                return Err(Error::new(ErrorKind::Structure, Stage::PrimitiveIndices));
            },
        };
        let none: Vec<usize> = Vec::new();
        let children = children_or_none(element, &none);
        let mut indices: Vec<usize> = Vec::new();
        let mut i: usize = 0;
        while i < children.len()
            invariant
                i <= children@.len(),
                indices_from(tree@, children@, 0, Seq::empty()) == indices_from(
                    tree@,
                    children@,
                    i as int,
                    indices@,
                ),
            decreases children@.len() - i,
        {
            let child = child_at(tree, children, i, Ghost(node as int));
            if has_tag(child, "p") {
                let list = match child.get_characters() {
                    Some(list) => list,
                    None => {
                        return Err(Error::new(ErrorKind::Structure, Stage::PrimitiveIndices));
                    },
                };
                indices = match parse_array::<usize>(list) {
                    Ok(read) => read,
                    Err(_) => {
                        return Err(Error::new(ErrorKind::Literal, Stage::Array));
                    },
                };
            }
            i += 1;
        }
        match PrimitiveIndices::new(accessor, indices) {
            Ok(list) => Ok(list),
            Err(_) => Err(Error::new(ErrorKind::Consistency, Stage::PrimitiveIndices)),
        }
    }
}

/// A shape of a mesh, given by its corners.
#[derive(Debug)]
pub enum Shape<T> {
    Triangle(T, T, T),
    Line(T, T),
    TriFan(Vec<T>),
    TriStrips(Vec<T>),
}

/// The kinds of primitive list that are decoded.
#[derive(Debug, Clone, Copy, PartialEq, Eq, Structural)]
pub enum PrimitiveType {
    Triangles,
    Lines,
}

/// The model of a primitive list: its declared number of shapes, its
/// indices and its kind.
pub struct PrimitiveElementModel {
    pub count: usize,
    pub indices: PrimitiveIndicesModel,
    pub p_type: PrimitiveType,
}

/// A corner without its color index.
pub open spec fn without_color(corner: PTNCIndex) -> PTNIndex {
    (corner.0, corner.1, corner.2)
}

impl PrimitiveElementModel {
    /// Shape `n`: a triangle of the corners `3 * n` to `3 * n + 2`, or a line
    /// of the corners `2 * n` and `2 * n + 1`; `None` where the corners end
    /// before the shape does.
    pub open spec fn shape(self, n: int) -> Option<Shape<PTNCIndex>> {
        match self.p_type {
            PrimitiveType::Triangles => match (
                self.indices.corner(3 * n),
                self.indices.corner(3 * n + 1),
                self.indices.corner(3 * n + 2),
            ) {
                (Some(a), Some(b), Some(c)) => Some(Shape::Triangle(a, b, c)),
                _ => None,
            },
            PrimitiveType::Lines => match (
                self.indices.corner(2 * n),
                self.indices.corner(2 * n + 1),
            ) {
                (Some(a), Some(b)) => Some(Shape::Line(a, b)),
                _ => None,
            },
        }
    }

    /// Shape `n` without its color indices.
    pub open spec fn plain_shape(self, n: int) -> Option<Shape<PTNIndex>> {
        match self.p_type {
            PrimitiveType::Triangles => match (
                self.indices.corner(3 * n),
                self.indices.corner(3 * n + 1),
                self.indices.corner(3 * n + 2),
            ) {
                (Some(a), Some(b), Some(c)) => Some(
                    Shape::Triangle(without_color(a), without_color(b), without_color(c)),
                ),
                _ => None,
            },
            PrimitiveType::Lines => match (
                self.indices.corner(2 * n),
                self.indices.corner(2 * n + 1),
            ) {
                (Some(a), Some(b)) => Some(Shape::Line(without_color(a), without_color(b))),
                _ => None,
            },
        }
    }

    /// The shapes from shape `from` on, appended to `shapes`: up to the
    /// declared count, or to the first shape that the corners do not
    /// reach.
    pub open spec fn shapes_from(self, from: int, shapes: Seq<Shape<PTNCIndex>>) -> Seq<
        Shape<PTNCIndex>,
    >
        decreases self.count - from,
    {
        if from < 0 || from >= self.count {
            shapes
        } else {
            match self.shape(from) {
                None => shapes,
                Some(shape) => self.shapes_from(from + 1, shapes.push(shape)),
            }
        }
    }

    /// The shapes of the list, in order.
    pub open spec fn shapes(self) -> Seq<Shape<PTNCIndex>> {
        self.shapes_from(0, Seq::empty())
    }

    /// The shapes without their color indices from shape `from` on.
    pub open spec fn plain_shapes_from(self, from: int, shapes: Seq<Shape<PTNIndex>>) -> Seq<
        Shape<PTNIndex>,
    >
        decreases self.count - from,
    {
        if from < 0 || from >= self.count {
            shapes
        } else {
            match self.plain_shape(from) {
                None => shapes,
                Some(shape) => self.plain_shapes_from(from + 1, shapes.push(shape)),
            }
        }
    }

    /// The shapes of the list without their color indices, in order.
    pub open spec fn plain_shapes(self) -> Seq<Shape<PTNIndex>> {
        self.plain_shapes_from(0, Seq::empty())
    }
}

/// Collecting shapes from shape `from` on keeps the shapes collected before
/// and adds shape `from`, shape `from + 1` and so on, as long as there are
/// shapes and the declared count is not reached.
pub proof fn lemma_shapes_from(list: PrimitiveElementModel, from: int, shapes: Seq<Shape<PTNCIndex>>)
    requires
        0 <= from,
    ensures
        ({
            let all = list.shapes_from(from, shapes);
            &&& shapes.len() <= all.len() <= shapes.len() + if list.count > from {
                list.count - from
            } else {
                0
            }
            &&& forall|i: int| 0 <= i < shapes.len() ==> all[i] == shapes[i]
            &&& forall|i: int|
                shapes.len() <= i < all.len() ==> list.shape(from + i - shapes.len()) == Some(
                    #[trigger] all[i],
                )
            &&& all.len() - shapes.len() < list.count - from ==> list.shape(
                from + all.len() - shapes.len(),
            ) is None
        }),
    decreases list.count - from,
{
    if from < list.count {
        match list.shape(from) {
            None => {},
            Some(shape) => {
                lemma_shapes_from(list, from + 1, shapes.push(shape));
                let all = list.shapes_from(from, shapes);
                assert forall|i: int| 0 <= i < shapes.len() implies all[i] == shapes[i] by {
                    assert(shapes.push(shape)[i] == shapes[i]);
                }
                assert forall|i: int| shapes.len() <= i < all.len() implies list.shape(
                    from + i - shapes.len(),
                ) == Some(#[trigger] all[i]) by {
                    if i == shapes.len() {
                        assert(shapes.push(shape)[i] == shape);
                    }
                }
            },
        }
    }
}

/// The shapes of a primitive list are its shapes 0, 1, 2 and so on, up to
/// the declared count or the first shape that the corners do not reach.
pub proof fn lemma_shapes(list: PrimitiveElementModel)
    ensures
        list.shapes().len() <= list.count,
        forall|i: int|
            0 <= i < list.shapes().len() ==> list.shape(i) == Some(#[trigger] list.shapes()[i]),
        list.shapes().len() < list.count ==> list.shape(list.shapes().len() as int) is None,
{
    lemma_shapes_from(list, 0, Seq::empty());
}

/// What the element at `node` decodes to as a primitive list: `count` must
/// hold an unsigned decimal, the tag must be `triangles` or `lines`, and
/// the inputs and indices must decode.
pub open spec fn primitive_element_model(tree: Seq<NodeModel>, node: int) -> Result<
    PrimitiveElementModel,
    Error,
> {
    if !(0 <= node < tree.len()) {
        Err(fault(ErrorKind::Structure, Stage::PrimitiveElement))
    } else {
        match required_unsigned(tree[node], "count", Stage::PrimitiveElement) {
            Err(error) => Err(error),
            Ok(count) => if tree[node].name != "triangles"@ && tree[node].name != "lines"@ {
                Err(fault(ErrorKind::Structure, Stage::PrimitiveElement))
            } else {
                match primitive_indices_model(tree, node) {
                    Err(error) => Err(error),
                    Ok(indices) => Ok(
                        PrimitiveElementModel {
                            count,
                            indices,
                            p_type: if tree[node].name == "triangles"@ {
                                PrimitiveType::Triangles
                            } else {
                                PrimitiveType::Lines
                            },
                        },
                    ),
                }
            },
        }
    }
}

/// A primitive list.
#[derive(Debug)]
pub struct PrimitiveElement {
    count: usize,
    indices: PrimitiveIndices,
    p_type: PrimitiveType,
}

impl View for PrimitiveElement {
    type V = PrimitiveElementModel;

    closed spec fn view(&self) -> PrimitiveElementModel {
        PrimitiveElementModel { count: self.count, indices: self.indices@, p_type: self.p_type }
    }
}

impl PrimitiveElement {
    /// The primitive list of kind `p_type` with the declared count `count`
    /// and the indices `indices`.
    pub fn new(count: usize, indices: PrimitiveIndices, p_type: PrimitiveType) -> (made:
        PrimitiveElement)
        ensures
            made@ == (PrimitiveElementModel { count, indices: indices@, p_type }),
    {
        PrimitiveElement { count, indices, p_type }
    }

    /// The declared number of shapes.
    pub fn count(&self) -> (count: usize)
        ensures
            count == self@.count,
    {
        self.count
    }

    /// Decodes the `triangles` or `lines` element at `node`.
    pub fn parse_primitive_element(node: usize, tree: &XmlTree) -> (parsed: Result<
        PrimitiveElement,
        Error,
    >)
        ensures
            match parsed {
                Ok(list) => primitive_element_model(tree@, node as int) == Ok::<
                    PrimitiveElementModel,
                    Error,
                >(list@),
                Err(error) => primitive_element_model(tree@, node as int) == Err::<
                    PrimitiveElementModel,
                    Error,
                >(error),
            },
    {
        let element = match tree.get_node(node) {
            Some(element) => element,
            None => {
                return Err(Error::new(ErrorKind::Structure, Stage::PrimitiveElement));
            },
        };
        let count = unsigned_attribute(element, "count", Stage::PrimitiveElement)?;
        let p_type = if has_tag(element, "triangles") {
            PrimitiveType::Triangles
        } else if has_tag(element, "lines") {
            PrimitiveType::Lines
        } else {
            return Err(Error::new(ErrorKind::Structure, Stage::PrimitiveElement));
        };
        let indices = PrimitiveIndices::parse_indices(node, tree)?;
        Ok(PrimitiveElement { count, indices, p_type })
    }

    /// Shape `n`, or `None` where the corners end before it.
    pub fn get_nth_ptnc_element(&self, n: usize) -> (shape: Option<Shape<PTNCIndex>>)
        ensures
            shape == self@.shape(n as int),
    {
        let len = self.indices.indices().len();
        match self.p_type {
            PrimitiveType::Triangles => {
                if n > (usize::MAX - 2) / 3 {
                    proof {
                        self.lemma_no_corner_beyond(3 * n + 2);
                    }
                    return None;
                }
                let start = n * 3;
                match (
                    self.indices.get_nth_ptnc(start),
                    self.indices.get_nth_ptnc(start + 1),
                    self.indices.get_nth_ptnc(start + 2),
                ) {
                    (Some(a), Some(b), Some(c)) => Some(Shape::Triangle(a, b, c)),
                    _ => None,
                }
            },
            PrimitiveType::Lines => {
                if n > (usize::MAX - 1) / 2 {
                    proof {
                        self.lemma_no_corner_beyond(2 * n + 1);
                    }
                    return None;
                }
                let start = n * 2;
                match (self.indices.get_nth_ptnc(start), self.indices.get_nth_ptnc(start + 1)) {
                    (Some(a), Some(b)) => Some(Shape::Line(a, b)),
                    _ => None,
                }
            },
        }
    }

    /// No corner has a number that leaves the range of `usize`.
    proof fn lemma_no_corner_beyond(&self, n: int)
        requires
            n > usize::MAX,
            self@.indices.indices.len() <= usize::MAX,
        ensures
            self@.indices.corner(n) is None,
    {
        let c = self@.indices.accessor.components() as int;
        assert(c >= 1);
        assert(n * c + c > self@.indices.indices.len()) by (nonlinear_arith)
            requires
                n > usize::MAX,
                c >= 1,
                self@.indices.indices.len() <= usize::MAX,
        ;
    }

    /// Shape `n` without its color indices.
    pub fn get_nth_ptn_element(&self, n: usize) -> (shape: Option<Shape<PTNIndex>>)
        ensures
            shape == self@.plain_shape(n as int),
    {
        match self.get_nth_ptnc_element(n) {
            Some(Shape::Triangle(a, b, c)) => Some(
                Shape::Triangle((a.0, a.1, a.2), (b.0, b.1, b.2), (c.0, c.1, c.2)),
            ),
            Some(Shape::Line(a, b)) => Some(Shape::Line((a.0, a.1, a.2), (b.0, b.1, b.2))),
            _ => None,
        }
    }

    /// The source references of the inputs: vertex, texture coordinate,
    /// normal, color.
    pub fn get_ptnc_sources(&self) -> (sources: (&str, Option<&str>, Option<&str>, Option<&str>))
        ensures
            sources.0@ == self@.indices.accessor.vertex.source,
            sources.1 is Some <==> self@.indices.accessor.tex_coord is Some,
            sources.1 matches Some(text) ==> text@ == self@.indices.accessor.tex_coord->0.source,
            sources.2 is Some <==> self@.indices.accessor.normal is Some,
            sources.2 matches Some(text) ==> text@ == self@.indices.accessor.normal->0.source,
            sources.3 is Some <==> self@.indices.accessor.color is Some,
            sources.3 matches Some(text) ==> text@ == self@.indices.accessor.color->0.source,
    {
        self.indices.get_ptnc_sources()
    }

    /// The source references of the inputs: vertex, texture coordinate,
    /// normal.
    pub fn get_ptn_sources(&self) -> (sources: (&str, Option<&str>, Option<&str>))
        ensures
            sources.0@ == self@.indices.accessor.vertex.source,
            sources.1 is Some <==> self@.indices.accessor.tex_coord is Some,
            sources.1 matches Some(text) ==> text@ == self@.indices.accessor.tex_coord->0.source,
            sources.2 is Some <==> self@.indices.accessor.normal is Some,
            sources.2 matches Some(text) ==> text@ == self@.indices.accessor.normal->0.source,
    {
        self.indices.get_ptn_sources()
    }

    /// The shapes of the list without their color indices, in order.
    pub fn ptn_shape_iter(&self) -> (shapes: Vec<Shape<PTNIndex>>)
        ensures
            shapes@ == self@.plain_shapes(),
    {
        let mut shapes: Vec<Shape<PTNIndex>> = Vec::new();
        let mut i: usize = 0;
        while i < self.count
            invariant
                i <= self@.count,
                self@.plain_shapes() == self@.plain_shapes_from(i as int, shapes@),
            decreases self@.count - i,
        {
            match self.get_nth_ptn_element(i) {
                Some(shape) => {
                    shapes.push(shape);
                },
                None => {
                    return shapes;
                },
            }
            i += 1;
        }
        shapes
    }

    /// The shapes of the list, in order.
    pub fn ptnc_shape_iter(&self) -> (shapes: Vec<Shape<PTNCIndex>>)
        ensures
            shapes@ == self@.shapes(),
    {
        let mut shapes: Vec<Shape<PTNCIndex>> = Vec::new();
        let mut i: usize = 0;
        while i < self.count
            invariant
                i <= self@.count,
                self@.shapes() == self@.shapes_from(i as int, shapes@),
            decreases self@.count - i,
        {
            match self.get_nth_ptnc_element(i) {
                Some(shape) => {
                    shapes.push(shape);
                },
                None => {
                    return shapes;
                },
            }
            i += 1;
        }
        shapes
    }
}

} // verus!
