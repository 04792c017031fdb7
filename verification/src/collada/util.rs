//! Literal lists, inputs and transform operators: what several decoders
//! share.

use crate::collada::error::{ArrayError, Error, ErrorKind, Stage};
use crate::text::{
    chars_of, list_value, parse_unsigned, same_text, split_tokens, tokens, unsigned_value,
    Literal,
};
use crate::math::{
    identity_values, scaled, with_column, with_translation, Matrix4, Scalar,
};
use crate::xml_tree::node::{NodeModel, XmlNode};
use crate::xml_tree::tree::XmlTree;
use vstd::prelude::*;

verus! {

/// The failure of class `kind` at `stage` that blames no attribute.
pub open spec fn fault(kind: ErrorKind, stage: Stage) -> Error {
    Error { kind, stage, name: None }
}

/// The structural failure of `stage` that blames the attribute `name`: it
/// is missing, or its value cannot be read.
pub open spec fn blame(stage: Stage, name: &'static str) -> Error {
    Error { kind: ErrorKind::Structure, stage, name: Some(name) }
}

/// The views of a list of texts.
pub open spec fn texts(list: Seq<String>) -> Seq<Seq<char>> {
    Seq::new(list.len(), |i: int| list[i]@)
}

/// The value of the mandatory attribute `name`, or the failure of `stage`
/// that blames it.
pub open spec fn required(node: NodeModel, name: &'static str, stage: Stage) -> Result<
    Seq<char>,
    Error,
> {
    match node.attribute(name@) {
        Some(value) => Ok(value),
        None => Err(blame(stage, name)),
    }
}

/// The number in the mandatory attribute `name`, or the failure of `stage`
/// that blames it: the attribute is missing or is no unsigned decimal.
pub open spec fn required_unsigned(node: NodeModel, name: &'static str, stage: Stage) -> Result<
    usize,
    Error,
> {
    match node.attribute(name@) {
        Some(value) => match unsigned_value(value) {
            Some(number) => Ok(number),
            None => Err(blame(stage, name)),
        },
        None => Err(blame(stage, name)),
    }
}

/// Reads a mandatory attribute.
pub fn required_attribute<'a>(node: &'a XmlNode, name: &'static str, stage: Stage) -> (value:
    Result<&'a str, Error>)
    ensures
        match value {
            Ok(text) => required(node@, name, stage) == Ok::<Seq<char>, Error>(text@),
            Err(error) => required(node@, name, stage) == Err::<Seq<char>, Error>(error),
        },
{
    match node.get_attribute_with_name(name) {
        Some(text) => Ok(text),
        None => Err(Error::blame(stage, name)),
    }
}

/// Reads a mandatory attribute that holds an unsigned decimal.
pub fn unsigned_attribute(node: &XmlNode, name: &'static str, stage: Stage) -> (value: Result<
    usize,
    Error,
>)
    ensures
        value == required_unsigned(node@, name, stage),
{
    match node.get_attribute_with_name(name) {
        Some(text) => match parse_unsigned(text) {
            Some(number) => Ok(number),
            None => Err(Error::blame(stage, name)),
        },
        None => Err(Error::blame(stage, name)),
    }
}

/// Whether the tag of `node` is `name`.
pub fn has_tag(node: &XmlNode, name: &str) -> (has: bool)
    ensures
        has == (node@.name == name@),
{
    same_text(node.name.as_str(), name)
}

/// The child at position `position` of the children `children` of a node of
/// `tree`.
pub(crate) fn child_at<'a>(tree: &'a XmlTree, children: &[usize], position: usize, Ghost(parent): Ghost<
    int,
>) -> (child: &'a XmlNode)
    requires
        0 <= parent < tree@.len(),
        children@ == tree@[parent].child_list(),
        position < children@.len(),
    ensures
        parent < children@[position as int] < tree@.len(),
        child@ == tree@[children@[position as int] as int],
{
    proof {
        use_type_invariant(tree);
    }
    let index = children[position];
    assert(index == tree@[parent].child_list()[position as int]);
    tree.get_node(index).unwrap()
}

/// The 16 entries of the matrix literal in the text of `child`. For a
/// child without text `stage` fails; a token that is no literal and a list
/// that does not hold 16 values are literal failures.
pub open spec fn matrix_value<S: Literal>(child: NodeModel, stage: Stage) -> Result<Seq<S>, Error> {
    match child.characters() {
        None => Err(fault(ErrorKind::Structure, stage)),
        Some(list) => match list_value::<S>(list) {
            None => Err(fault(ErrorKind::Literal, Stage::Array)),
            Some(values) => if values.len() == 16 {
                Ok(values)
            } else {
                Err(fault(ErrorKind::Literal, Stage::Matrix))
            },
        },
    }
}

/// Reads the matrix literal in the text of `child`.
pub fn read_matrix<S: Scalar>(child: &XmlNode, stage: Stage) -> (read: Result<Matrix4<S>, Error>)
    ensures
        match read {
            Ok(matrix) => matrix_value::<S>(child@, stage) == Ok::<Seq<S>, Error>(matrix.values@),
            Err(error) => matrix_value::<S>(child@, stage) == Err::<Seq<S>, Error>(error),
        },
{
    let list = match child.get_characters() {
        Some(list) => list,
        None => {
            return Err(Error::new(ErrorKind::Structure, stage));
        },
    };
    let values = match parse_array::<S>(list) {
        Ok(values) => values,
        Err(_) => {
            return Err(Error::new(ErrorKind::Literal, Stage::Array));
        },
    };
    match Matrix4::from_slice(values.as_slice()) {
        Ok(matrix) => Ok(matrix),
        Err(_) => Err(Error::new(ErrorKind::Literal, Stage::Matrix)),
    }
}

/// Whether two optional texts are both absent, or both there and equal.
pub fn same_optional_text(a: Option<&str>, b: Option<&str>) -> (same: bool)
    ensures
        same == match (a, b) {
            (Some(x), Some(y)) => x@ == y@,
            (None, None) => true,
            _ => false,
        },
{
    match (a, b) {
        (Some(x), Some(y)) => same_text(x, y),
        (None, None) => true,
        _ => false,
    }
}

/// The children of `node`; none where it holds text or nothing.
pub fn children_or_none<'a>(node: &'a XmlNode, none: &'a Vec<usize>) -> (children: &'a [usize])
    requires
        none@.len() == 0,
    ensures
        children@ == node@.child_list(),
{
    match node.get_children() {
        Some(children) => children,
        None => {
            assert(none@ =~= node@.child_list());
            none.as_slice()
        },
    }
}

/// Reads a whitespace-separated literal list, token by token. One token that
/// is no literal of the target type fails the whole list.
pub fn parse_array<T: Literal>(array: &str) -> (parsed: Result<Vec<T>, ArrayError>)
    ensures
        match parsed {
            Ok(values) => list_value::<T>(array@) == Some(values@),
            Err(_) => list_value::<T>(array@) is None,
        },
{
    let list = split_tokens(array);
    let mut values: Vec<T> = Vec::new();
    let mut i: usize = 0;
    while i < list.len()
        invariant
            i <= list@.len(),
            list@.len() == tokens(array@).len(),
            forall|k: int| 0 <= k < list@.len() ==> (#[trigger] list@[k])@ == tokens(array@)[k],
            values@.len() == i,
            forall|k: int| 0 <= k < i ==> T::value(tokens(array@)[k]) == Some(#[trigger] values@[k]),
        decreases list@.len() - i,
    {
        match T::parse(list[i].as_str()) {
            Some(value) => {
                values.push(value);
            },
            None => {
                assert(T::value(tokens(array@)[i as int]) is None);
                return Err(ArrayError);
            },
        }
        i += 1;
    }
    proof {
        let all = tokens(array@);
        assert forall|k: int| 0 <= k < all.len() implies (#[trigger] T::value(all[k])) is Some by {
            assert(T::value(all[k]) == Some(values@[k]));
        }
        assert(values@ =~= list_value::<T>(array@)->0);
    }
    Ok(values)
}

/// One input of a primitive list: the source it reads and the slot of its
/// index within a corner.
#[derive(Debug)]
pub struct Input {
    pub source: String,
    pub offset: usize,
}

impl Input {
    /// The input that reads `source` at the slot `offset`.
    pub fn new(source: String, offset: usize) -> (input: Input)
        ensures
            input.source == source,
            input.offset == offset,
    {
        Input { source, offset }
    }
}

/// The values of the literal list in the text of `child`, which must hold
/// exactly `len` values. A child without text is a structural failure of
/// `stage`; a token that is no literal, or another number of values, is a
/// literal failure.
pub open spec fn operands<S: Literal>(child: NodeModel, len: nat, stage: Stage) -> Result<
    Seq<S>,
    Error,
> {
    match child.characters() {
        None => Err(fault(ErrorKind::Structure, stage)),
        Some(list) => match list_value::<S>(list) {
            None => Err(fault(ErrorKind::Literal, Stage::Array)),
            Some(values) => if values.len() == len {
                Ok(values)
            } else {
                Err(fault(ErrorKind::Literal, stage))
            },
        },
    }
}

/// Reads the literal list in the text of `child`, which must hold exactly
/// `len` values.
pub fn read_operands<S: Literal>(child: &XmlNode, len: usize, stage: Stage) -> (read: Result<
    Vec<S>,
    Error,
>)
    ensures
        match read {
            Ok(values) => operands::<S>(child@, len as nat, stage) == Ok::<Seq<S>, Error>(values@),
            Err(error) => operands::<S>(child@, len as nat, stage) == Err::<Seq<S>, Error>(error),
        },
{
    let list = match child.get_characters() {
        Some(list) => list,
        None => {
            return Err(Error::new(ErrorKind::Structure, stage));
        },
    };
    let values = match parse_array::<S>(list) {
        Ok(values) => values,
        Err(_) => {
            return Err(Error::new(ErrorKind::Literal, Stage::Array));
        },
    };
    if values.len() == len {
        Ok(values)
    } else {
        Err(Error::new(ErrorKind::Literal, stage))
    }
}

/// The column that a rotate operator targets: its `sid` names the axis in
/// what follows its first eight characters, `X`, `Y` or `Z` for the
/// columns 0, 1 and 2. Any other `sid` targets no column.
pub open spec fn rotate_column(sid: Seq<char>) -> Option<usize> {
    if sid.len() != 9 {
        None
    } else if sid[8] == 'X' {
        Some(0)
    } else if sid[8] == 'Y' {
        Some(1)
    } else if sid[8] == 'Z' {
        Some(2)
    } else {
        None
    }
}

/// The column that a rotate operator with the given `sid` targets.
pub fn axis_column(sid: &str) -> (column: Option<usize>)
    ensures
        column == rotate_column(sid@),
{
    let chars = chars_of(sid);
    if chars.len() != 9 {
        None
    } else if chars[8] == 'X' {
        Some(0)
    } else if chars[8] == 'Y' {
        Some(1)
    } else if chars[8] == 'Z' {
        Some(2)
    } else {
        None
    }
}

/// The entries of the matrix after the transform operators among
/// `children` from position `from` on, applied to `matrix` in document
/// order. A `matrix` child replaces all 16 entries, a `translate` child the
/// translation, a `rotate` child the column that its `sid` names, and a
/// `scale` child multiplies the upper three entries of the first three
/// columns. Each operator writes onto what the operators before it left.
pub open spec fn transformation_from<S: Scalar>(
    tree: Seq<NodeModel>,
    children: Seq<usize>,
    from: int,
    matrix: Seq<S>,
) -> Result<Seq<S>, Error>
    decreases children.len() - from,
{
    if from < 0 || from >= children.len() {
        Ok(matrix)
    } else {
        let child = tree[children[from] as int];
        if child.name == "matrix"@ {
            match matrix_value::<S>(child, Stage::Transformation) {
                Err(error) => Err(error),
                Ok(values) => transformation_from(tree, children, from + 1, values),
            }
        } else if child.name == "translate"@ {
            match operands::<S>(child, 3, Stage::Transformation) {
                Err(error) => Err(error),
                Ok(values) => transformation_from(
                    tree,
                    children,
                    from + 1,
                    with_translation(matrix, values),
                ),
            }
        } else if child.name == "rotate"@ {
            match operands::<S>(child, 4, Stage::Transformation) {
                Err(error) => Err(error),
                Ok(values) => match required(child, "sid", Stage::Transformation) {
                    Err(error) => Err(error),
                    Ok(sid) => transformation_from(
                        tree,
                        children,
                        from + 1,
                        match rotate_column(sid) {
                            Some(column) => with_column(matrix, column as int, values),
                            None => matrix,
                        },
                    ),
                },
            }
        } else if child.name == "scale"@ {
            match operands::<S>(child, 3, Stage::Transformation) {
                Err(error) => Err(error),
                Ok(values) => transformation_from(tree, children, from + 1, scaled(matrix, values)),
            }
        } else {
            transformation_from(tree, children, from + 1, matrix)
        }
    }
}

/// The entries of the local transform of the element at `node`: its
/// transform operators applied to the identity. An element without
/// operators has the identity.
pub open spec fn transformation_model<S: Scalar>(tree: Seq<NodeModel>, node: int) -> Result<
    Seq<S>,
    Error,
> {
    if !(0 <= node < tree.len()) {
        Err(fault(ErrorKind::Structure, Stage::Transformation))
    } else {
        transformation_from::<S>(tree, tree[node].child_list(), 0, identity_values::<S>())
    }
}

/// Decodes the local transform of the element at `node`.
#[verifier::loop_isolation(false)]
pub fn parse_transformation<S: Scalar>(node: usize, tree: &XmlTree) -> (parsed: Result<
    Matrix4<S>,
    Error,
>)
    ensures
        match parsed {
            Ok(matrix) => transformation_model::<S>(tree@, node as int) == Ok::<Seq<S>, Error>(
                matrix.values@,
            ),
            Err(error) => transformation_model::<S>(tree@, node as int) == Err::<Seq<S>, Error>(
                error,
            ),
        },
{
    let element = match tree.get_node(node) {
        Some(element) => element,
        None => {
            return Err(Error::new(ErrorKind::Structure, Stage::Transformation));
        },
    };
    let none: Vec<usize> = Vec::new();
    let children = children_or_none(element, &none);
    let mut matrix = Matrix4::<S>::identity();
    let mut i: usize = 0;
    while i < children.len()
        invariant
            i <= children@.len(),
            transformation_from::<S>(tree@, children@, 0, identity_values::<S>())
                == transformation_from::<S>(tree@, children@, i as int, matrix.values@),
        decreases children@.len() - i,
    {
        let child = child_at(tree, children, i, Ghost(node as int));
        if has_tag(child, "matrix") {
            matrix = read_matrix::<S>(child, Stage::Transformation)?;
        } else if has_tag(child, "translate") {
            let values = read_operands::<S>(child, 3, Stage::Transformation)?;
            let trans = [values[0], values[1], values[2]];
            assert(trans@ =~= values@);
            matrix.set_translation(trans);
        } else if has_tag(child, "rotate") {
            let values = read_operands::<S>(child, 4, Stage::Transformation)?;
            let column = [values[0], values[1], values[2], values[3]];
            assert(column@ =~= values@);
            let sid = required_attribute(child, "sid", Stage::Transformation)?;
            match axis_column(sid) {
                Some(target) => {
                    matrix.set_column(target, column);
                },
                None => {},
            }
        } else if has_tag(child, "scale") {
            let values = read_operands::<S>(child, 3, Stage::Transformation)?;
            let factors = [values[0], values[1], values[2]];
            assert(factors@ =~= values@);
            matrix.scale(factors);
        }
        i += 1;
    }
    Ok(matrix)
}

} // verus!
