//! The inputs of a primitive list, and the decoding of its corners.

use crate::collada::error::{Error, ErrorKind, IndexAccessorError, Stage};
use crate::collada::util::{
    child_at, children_or_none, fault, has_tag, required, required_attribute, required_unsigned,
    unsigned_attribute, Input,
};
use crate::collada::{PTNCIndex, PTNIndex};
use crate::text::same_text;
use crate::xml_tree::node::NodeModel;
use crate::xml_tree::tree::XmlTree;
use vstd::prelude::*;

verus! {

/// The model of an input: the reference to its source and its slot.
pub struct InputModel {
    pub source: Seq<char>,
    pub offset: usize,
}

/// The model of the inputs of a primitive list: the vertex input, and the
/// optional inputs for texture coordinates, normals and colors.
pub struct IndexAccessorModel {
    pub vertex: InputModel,
    pub tex_coord: Option<InputModel>,
    pub normal: Option<InputModel>,
    pub color: Option<InputModel>,
}

/// The model of an input.
pub open spec fn input_model(input: Input) -> InputModel {
    InputModel { source: input.source@, offset: input.offset }
}

/// The model of an optional input.
pub open spec fn optional_input_model(input: Option<Input>) -> Option<InputModel> {
    match input {
        Some(input) => Some(input_model(input)),
        None => None,
    }
}

/// The slots of the inputs of a primitive list: that of the vertex input,
/// then those of the inputs for texture coordinates, normals and colors.
pub type Slots = (usize, Option<usize>, Option<usize>, Option<usize>);

/// The slot of an optional input.
pub open spec fn optional_slot(input: Option<InputModel>) -> Option<usize> {
    match input {
        Some(found) => Some(found.offset),
        None => None,
    }
}

/// The number of inputs: the vertex input and the optional inputs that are
/// there.
pub open spec fn slot_count(slots: Slots) -> nat {
    (1 + if slots.1 is Some {
        1nat
    } else {
        0
    } + if slots.2 is Some {
        1nat
    } else {
        0
    } + if slots.3 is Some {
        1nat
    } else {
        0
    }) as nat
}

/// Whether some input has the slot `slot`.
pub open spec fn slot_used(slots: Slots, slot: int) -> bool {
    ||| slots.0 == slot
    ||| slots.1 == Some(slot as usize)
    ||| slots.2 == Some(slot as usize)
    ||| slots.3 == Some(slot as usize)
}

/// No two inputs share a slot.
pub open spec fn slots_distinct(slots: Slots) -> bool {
    &&& slots.1 != Some(slots.0)
    &&& slots.2 != Some(slots.0)
    &&& slots.3 != Some(slots.0)
    &&& !(slots.2 is Some && slots.2 == slots.3)
    &&& !(slots.2 is Some && slots.2 == slots.1)
    &&& !(slots.3 is Some && slots.3 == slots.1)
}

/// Every number below the number of inputs is the slot of some input.
pub open spec fn slots_cover(slots: Slots) -> bool {
    forall|slot: int| 0 <= slot < slot_count(slots) ==> #[trigger] slot_used(slots, slot)
}

/// The slots are pairwise distinct and are exactly the numbers below the
/// number of inputs: none is taken twice and none is left out.
pub open spec fn slots_valid(slots: Slots) -> bool {
    slots_distinct(slots) && slots_cover(slots)
}

/// The index that a corner starting at `start` holds for an optional input.
pub open spec fn optional_index(indices: Seq<usize>, start: int, input: Option<InputModel>) -> Option<
    usize,
> {
    match input {
        Some(found) => Some(indices[start + found.offset]),
        None => None,
    }
}

impl IndexAccessorModel {
    /// The slots of the inputs.
    pub open spec fn slots(self) -> Slots {
        (
            self.vertex.offset,
            optional_slot(self.tex_coord),
            optional_slot(self.normal),
            optional_slot(self.color),
        )
    }

    /// The number of indices that make up one corner: one for each input.
    pub open spec fn components(self) -> nat {
        slot_count(self.slots())
    }

    /// Whether the slots of the inputs are valid.
    pub open spec fn valid(self) -> bool {
        slots_valid(self.slots())
    }

    /// The number of corners that `len` indices make up.
    pub open spec fn corners(self, len: nat) -> nat {
        len / self.components()
    }

    /// Corner `n` of `indices`: for each input the index at its slot among
    /// the `components` indices from `n * components` on; `None` where the
    /// indices end before that.
    pub open spec fn corner(self, indices: Seq<usize>, n: int) -> Option<PTNCIndex> {
        let start = n * self.components();
        if start + self.components() <= indices.len() {
            Some(
                (
                    indices[start + self.vertex.offset],
                    optional_index(indices, start, self.tex_coord),
                    optional_index(indices, start, self.normal),
                    optional_index(indices, start, self.color),
                ),
            )
        } else {
            None
        }
    }
}

/// Valid slots are all below the number of inputs.
pub proof fn lemma_slots_below_count(slots: Slots)
    requires
        slots_valid(slots),
    ensures
        slots.0 < slot_count(slots),
        slots.1 matches Some(slot) ==> slot < slot_count(slots),
        slots.2 matches Some(slot) ==> slot < slot_count(slots),
        slots.3 matches Some(slot) ==> slot < slot_count(slots),
{
    assert(slot_used(slots, 0));
    if slot_count(slots) > 1 {
        assert(slot_used(slots, 1));
    }
    if slot_count(slots) > 2 {
        assert(slot_used(slots, 2));
    }
    if slot_count(slots) > 3 {
        assert(slot_used(slots, 3));
    }
}

/// The inputs found so far in a primitive list.
pub struct Inputs {
    pub vertex: Option<InputModel>,
    pub tex_coord: Option<InputModel>,
    pub normal: Option<InputModel>,
    pub color: Option<InputModel>,
}

/// The inputs among `children` from position `from` on, added to those
/// found before. Each `input` child must have an `offset` that is an
/// unsigned decimal and a `source`; its `semantic` says which input it is,
/// and none may come twice. Other semantics are passed over.
pub open spec fn inputs_from(tree: Seq<NodeModel>, children: Seq<usize>, from: int, found: Inputs) -> Result<
    Inputs,
    Error,
>
    decreases children.len() - from,
{
    if from < 0 || from >= children.len() {
        Ok(found)
    } else {
        let child = tree[children[from] as int];
        if child.name != "input"@ {
            inputs_from(tree, children, from + 1, found)
        } else {
            match required_unsigned(child, "offset", Stage::IndexAccessor) {
                Err(error) => Err(error),
                Ok(offset) => match required(child, "source", Stage::IndexAccessor) {
                    Err(error) => Err(error),
                    Ok(source) => {
                        let input = Some(InputModel { source, offset });
                        let semantic = child.attribute("semantic"@);
                        let twice = Err(fault(ErrorKind::Structure, Stage::IndexAccessor));
                        if semantic == Some("VERTEX"@) {
                            if found.vertex is Some {
                                twice
                            } else {
                                inputs_from(
                                    tree,
                                    children,
                                    from + 1,
                                    Inputs { vertex: input, ..found },
                                )
                            }
                        } else if semantic == Some("NORMAL"@) {
                            if found.normal is Some {
                                twice
                            } else {
                                inputs_from(
                                    tree,
                                    children,
                                    from + 1,
                                    Inputs { normal: input, ..found },
                                )
                            }
                        } else if semantic == Some("COLOR"@) {
                            if found.color is Some {
                                twice
                            } else {
                                inputs_from(
                                    tree,
                                    children,
                                    from + 1,
                                    Inputs { color: input, ..found },
                                )
                            }
                        } else if semantic == Some("TEXCOORD"@) {
                            if found.tex_coord is Some {
                                twice
                            } else {
                                inputs_from(
                                    tree,
                                    children,
                                    from + 1,
                                    Inputs { tex_coord: input, ..found },
                                )
                            }
                        } else {
                            inputs_from(tree, children, from + 1, found)
                        }
                    },
                },
            }
        }
    }
}

/// What the element at `node` decodes to as the inputs of a primitive list.
/// Its inputs must be well formed, the vertex input must be there, and the
/// slots must be valid.
pub open spec fn index_accessor_model(tree: Seq<NodeModel>, node: int) -> Result<
    IndexAccessorModel,
    Error,
> {
    if !(0 <= node < tree.len()) {
        Err(fault(ErrorKind::Structure, Stage::IndexAccessor))
    } else {
        match inputs_from(
            tree,
            tree[node].child_list(),
            0,
            Inputs { vertex: None, tex_coord: None, normal: None, color: None },
        ) {
            Err(error) => Err(error),
            Ok(found) => match found.vertex {
                None => Err(fault(ErrorKind::Structure, Stage::IndexAccessor)),
                Some(vertex) => {
                    let inputs = IndexAccessorModel {
                        vertex,
                        tex_coord: found.tex_coord,
                        normal: found.normal,
                        color: found.color,
                    };
                    if inputs.valid() {
                        Ok(inputs)
                    } else {
                        Err(fault(ErrorKind::Consistency, Stage::IndexAccessor))
                    }
                },
            },
        }
    }
}

/// The inputs of a primitive list. Their slots are always valid.
#[derive(Debug)]
pub struct IndexAccessor {
    vertex: Input,
    tex_coord: Option<Input>,
    normal: Option<Input>,
    color: Option<Input>,
}

impl View for IndexAccessor {
    type V = IndexAccessorModel;

    closed spec fn view(&self) -> IndexAccessorModel {
        IndexAccessorModel {
            vertex: input_model(self.vertex),
            tex_coord: optional_input_model(self.tex_coord),
            normal: optional_input_model(self.normal),
            color: optional_input_model(self.color),
        }
    }
}

/// The slot of an optional input.
fn slot_of(input: &Option<Input>) -> (slot: Option<usize>)
    ensures
        slot == optional_slot(optional_input_model(*input)),
{
    match input {
        Some(input) => Some(input.offset),
        None => None,
    }
}

/// The source reference of an optional input.
fn source_of(input: &Option<Input>) -> (source: Option<&str>)
    ensures
        source is Some <==> input is Some,
        source matches Some(text) ==> text@ == input->0.source@,
{
    match input {
        Some(input) => Some(input.source.as_str()),
        None => None,
    }
}

/// Whether two optional slots are both there and equal.
fn same_slot(a: Option<usize>, b: Option<usize>) -> (same: bool)
    ensures
        same == (a is Some && a == b),
{
    match (a, b) {
        (Some(a), Some(b)) => a == b,
        _ => false,
    }
}

/// The index of a corner for an optional slot.
fn index_at(indices: &[usize], start: usize, slot: Option<usize>) -> (index: Option<usize>)
    requires
        indices@.len() <= usize::MAX,
        slot is Some ==> start + slot->0 < indices@.len(),
    ensures
        index == (match slot {
            Some(offset) => Some(indices@[start + offset]),
            None => None,
        }),
{
    match slot {
        Some(offset) => Some(indices[start + offset]),
        None => None,
    }
}

impl IndexAccessor {
    /// What holds of every value: its slots are valid.
    #[verifier::type_invariant]
    pub open spec fn well_formed(&self) -> bool {
        self@.valid()
    }

    /// The inputs with the given vertex input and optional inputs, if their
    /// slots are valid.
    pub fn new(
        vertex: Input,
        tex_coord: Option<Input>,
        normal: Option<Input>,
        color: Option<Input>,
    ) -> (made: Result<IndexAccessor, IndexAccessorError>)
        ensures
            ({
                let inputs = IndexAccessorModel {
                    vertex: input_model(vertex),
                    tex_coord: optional_input_model(tex_coord),
                    normal: optional_input_model(normal),
                    color: optional_input_model(color),
                };
                match made {
                    Ok(accessor) => inputs.valid() && accessor@ == inputs,
                    Err(_) => !inputs.valid(),
                }
            }),
    {
        let ghost inputs = IndexAccessorModel {
            vertex: input_model(vertex),
            tex_coord: optional_input_model(tex_coord),
            normal: optional_input_model(normal),
            color: optional_input_model(color),
        };
        let slots = (vertex.offset, slot_of(&tex_coord), slot_of(&normal), slot_of(&color));
        assert(slots == inputs.slots());
        if !Self::no_duplicates(slots) || !Self::has_valid_offsets(slots) {
            return Err(IndexAccessorError);
        }
        Ok(IndexAccessor { vertex, tex_coord, normal, color })
    }

    fn no_duplicates(slots: Slots) -> (ok: bool)
        ensures
            ok == slots_distinct(slots),
    {
        let (vertex, tex_coord, normal, color) = slots;
        !(same_slot(Some(vertex), normal) || same_slot(Some(vertex), color) || same_slot(
            Some(vertex),
            tex_coord,
        ) || same_slot(normal, color) || same_slot(normal, tex_coord) || same_slot(
            color,
            tex_coord,
        ))
    }

    fn has_valid_offsets(slots: Slots) -> (ok: bool)
        ensures
            ok == slots_cover(slots),
    {
        let (vertex, tex_coord, normal, color) = slots;
        let components: usize = 1 + if tex_coord.is_some() {
            1usize
        } else {
            0
        } + if normal.is_some() {
            1usize
        } else {
            0
        } + if color.is_some() {
            1usize
        } else {
            0
        };
        let mut i: usize = 0;
        while i < components
            invariant
                i <= components,
                components == slot_count(slots),
                (vertex, tex_coord, normal, color) == slots,
                forall|slot: int| 0 <= slot < i ==> #[trigger] slot_used(slots, slot),
            decreases components - i,
        {
            if i != vertex && !same_slot(Some(i), normal) && !same_slot(Some(i), tex_coord)
                && !same_slot(Some(i), color) {
                assert(!slot_used(slots, i as int));
                return false;
            }
            i += 1;
        }
        true
    }

    /// The number of indices that make up one corner.
    pub fn components(&self) -> (components: usize)
        ensures
            components == self@.components(),
            1 <= components <= 4,
    {
        1 + if self.tex_coord.is_some() {
            1usize
        } else {
            0
        } + if self.normal.is_some() {
            1usize
        } else {
            0
        } + if self.color.is_some() {
            1usize
        } else {
            0
        }
    }

    /// Whether there is an input for texture coordinates.
    pub fn has_tex_coord(&self) -> (has: bool)
        ensures
            has == self@.tex_coord is Some,
    {
        self.tex_coord.is_some()
    }

    /// Whether there is an input for normals.
    pub fn has_normal(&self) -> (has: bool)
        ensures
            has == self@.normal is Some,
    {
        self.normal.is_some()
    }

    /// Whether there is an input for colors.
    pub fn has_color(&self) -> (has: bool)
        ensures
            has == self@.color is Some,
    {
        self.color.is_some()
    }

    /// The slots of the inputs: vertex, texture coordinate, normal, color.
    pub fn ptnc_offsets(&self) -> (slots: Slots)
        ensures
            slots == self@.slots(),
    {
        (self.vertex.offset, slot_of(&self.tex_coord), slot_of(&self.normal), slot_of(&self.color))
    }

    /// The source references of the inputs: vertex, texture coordinate,
    /// normal, color.
    pub fn ptnc_sources(&self) -> (sources: (&str, Option<&str>, Option<&str>, Option<&str>))
        ensures
            sources.0@ == self@.vertex.source,
            sources.1 is Some <==> self@.tex_coord is Some,
            sources.1 matches Some(text) ==> text@ == self@.tex_coord->0.source,
            sources.2 is Some <==> self@.normal is Some,
            sources.2 matches Some(text) ==> text@ == self@.normal->0.source,
            sources.3 is Some <==> self@.color is Some,
            sources.3 matches Some(text) ==> text@ == self@.color->0.source,
    {
        (
            self.vertex.source.as_str(),
            source_of(&self.tex_coord),
            source_of(&self.normal),
            source_of(&self.color),
        )
    }

    /// The source references of the inputs: vertex, texture coordinate,
    /// normal.
    pub fn ptn_sources(&self) -> (sources: (&str, Option<&str>, Option<&str>))
        ensures
            sources.0@ == self@.vertex.source,
            sources.1 is Some <==> self@.tex_coord is Some,
            sources.1 matches Some(text) ==> text@ == self@.tex_coord->0.source,
            sources.2 is Some <==> self@.normal is Some,
            sources.2 matches Some(text) ==> text@ == self@.normal->0.source,
    {
        (self.vertex.source.as_str(), source_of(&self.tex_coord), source_of(&self.normal))
    }

    /// Corner `n` of `indices`, or `None` where the indices end before it.
    pub fn get_nth_ptnc(&self, n: usize, indices: &[usize]) -> (corner: Option<PTNCIndex>)
        ensures
            corner == self@.corner(indices@, n as int),
    {
        proof {
            use_type_invariant(self);
            lemma_slots_below_count(self@.slots());
        }
        let components = self.components();
        let len = indices.len();
        let start = match n.checked_mul(components) {
            Some(start) => start,
            None => {
                return None;
            },
        };
        assert(start == n * self@.components());
        let end = match start.checked_add(components) {
            Some(end) => end,
            None => {
                return None;
            },
        };
        if end > len {
            return None;
        }
        let (vertex, tex_coord, normal, color) = self.ptnc_offsets();
        Some(
            (
                indices[start + vertex],
                index_at(indices, start, tex_coord),
                index_at(indices, start, normal),
                index_at(indices, start, color),
            ),
        )
    }

    /// Corner `n` of `indices` without its color index.
    pub fn get_nth_ptn(&self, n: usize, indices: &[usize]) -> (corner: Option<PTNIndex>)
        ensures
            corner is Some <==> self@.corner(indices@, n as int) is Some,
            corner matches Some(found) ==> {
                let all = self@.corner(indices@, n as int)->0;
                found == (all.0, all.1, all.2)
            },
    {
        match self.get_nth_ptnc(n, indices) {
            Some((position, tex_coord, normal, _)) => Some((position, tex_coord, normal)),
            None => None,
        }
    }

    /// Decodes the inputs of the primitive list at `node`.
    #[verifier::loop_isolation(false)]
    pub fn parse_accessor(node: usize, tree: &XmlTree) -> (parsed: Result<IndexAccessor, Error>)
        ensures
            match parsed {
                Ok(accessor) => index_accessor_model(tree@, node as int) == Ok::<
                    IndexAccessorModel,
                    Error,
                >(accessor@),
                Err(error) => index_accessor_model(tree@, node as int) == Err::<
                    IndexAccessorModel,
                    Error,
                >(error),
            },
    {
        let twice = Error::new(ErrorKind::Structure, Stage::IndexAccessor);
        let element = match tree.get_node(node) {
            Some(element) => element,
            None => {
                return Err(twice);
            },
        };
        let none: Vec<usize> = Vec::new();
        let children = children_or_none(element, &none);
        let mut vertex: Option<Input> = None;
        let mut tex_coord: Option<Input> = None;
        let mut normal: Option<Input> = None;
        let mut color: Option<Input> = None;
        let ghost start = Inputs { vertex: None, tex_coord: None, normal: None, color: None };
        let mut i: usize = 0;
        while i < children.len()
            invariant
                i <= children@.len(),
                inputs_from(tree@, children@, 0, start) == inputs_from(
                    tree@,
                    children@,
                    i as int,
                    Inputs {
                        vertex: optional_input_model(vertex),
                        tex_coord: optional_input_model(tex_coord),
                        normal: optional_input_model(normal),
                        color: optional_input_model(color),
                    },
                ),
            decreases children@.len() - i,
        {
            let child = child_at(tree, children, i, Ghost(node as int));
            if has_tag(child, "input") {
                let offset = unsigned_attribute(child, "offset", Stage::IndexAccessor)?;
                let source = required_attribute(child, "source", Stage::IndexAccessor)?;
                match child.get_attribute_with_name("semantic") {
                    Some(semantic) => {
                        if same_text(semantic, "VERTEX") {
                            if vertex.is_some() {
                                return Err(twice);
                            }
                            vertex = Some(Input::new(source.to_owned(), offset));
                        } else if same_text(semantic, "NORMAL") {
                            if normal.is_some() {
                                return Err(twice);
                            }
                            normal = Some(Input::new(source.to_owned(), offset));
                        } else if same_text(semantic, "COLOR") {
                            if color.is_some() {
                                return Err(twice);
                            }
                            color = Some(Input::new(source.to_owned(), offset));
                        } else if same_text(semantic, "TEXCOORD") {
                            if tex_coord.is_some() {
                                return Err(twice);
                            }
                            tex_coord = Some(Input::new(source.to_owned(), offset));
                        }
                    },
                    None => {},
                }
            }
            i += 1;
        }
        let vertex = match vertex {
            Some(vertex) => vertex,
            None => {
                return Err(twice);
            },
        };
        match IndexAccessor::new(vertex, tex_coord, normal, color) {
            Ok(accessor) => Ok(accessor),
            Err(_) => Err(Error::new(ErrorKind::Consistency, Stage::IndexAccessor)),
        }
    }
}

} // verus!
