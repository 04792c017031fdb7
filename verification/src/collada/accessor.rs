//! The accessor of a source: how a flat array is cut into records.

use crate::collada::error::{Error, ErrorKind, Stage};
use crate::collada::util::{
    child_at, children_or_none, fault, has_tag, required, required_attribute,
    required_unsigned, texts, unsigned_attribute,
};
use crate::xml_tree::node::NodeModel;
use crate::xml_tree::tree::XmlTree;
use core::marker::PhantomData;
use vstd::prelude::*;

verus! {

/// How a flat array is cut into records: their declared number, the stride
/// from one record to the next, and the names of a record's components.
#[derive(Debug)]
pub struct Accessor<T> {
    count: usize,
    stride: usize,
    parameters: Vec<String>,
    phantom: PhantomData<T>,
}

/// The model of an accessor.
pub struct AccessorModel {
    pub count: usize,
    pub stride: usize,
    pub parameters: Seq<Seq<char>>,
}

impl<T> View for Accessor<T> {
    type V = AccessorModel;

    closed spec fn view(&self) -> AccessorModel {
        AccessorModel {
            count: self.count,
            stride: self.stride,
            parameters: texts(self.parameters@),
        }
    }
}

/// Record `n` of `array` under stride `stride`: the elements from
/// `n * stride` up to `(n + 1) * stride`, or `None` where the array ends
/// before that.
pub open spec fn record<T>(array: Seq<T>, stride: usize, n: int) -> Option<Seq<T>> {
    if (n + 1) * stride <= array.len() {
        Some(array.subrange(n * stride, (n + 1) * stride))
    } else {
        None
    }
}

/// The number of records that an array holds under a stride; a stride of
/// zero holds none.
pub open spec fn record_count(len: nat, stride: usize) -> nat {
    if stride == 0 {
        0
    } else {
        len / (stride as nat)
    }
}

/// Under a stride that is not zero, an array holds exactly the records
/// below its record count, and each of them has as many elements as the
/// stride says.
pub proof fn lemma_records<T>(array: Seq<T>, stride: usize, n: int)
    requires
        0 <= n,
        stride > 0,
    ensures
        record(array, stride, n) is Some <==> n < record_count(array.len(), stride),
        record(array, stride, n) matches Some(elements) ==> elements.len() == stride,
{
    let s = stride as int;
    let len = array.len() as int;
    vstd::arithmetic::div_mod::lemma_fundamental_div_mod(len, s);
    assert(s * (len / s) == (len / s) * s) by (nonlinear_arith);
    if n < len / s {
        assert((n + 1) * s <= (len / s) * s) by (nonlinear_arith)
            requires
                n + 1 <= len / s,
                s > 0,
        ;
    } else {
        assert((n + 1) * s >= (len / s + 1) * s) by (nonlinear_arith)
            requires
                n >= len / s,
                s > 0,
        ;
        assert((len / s + 1) * s == (len / s) * s + s) by (nonlinear_arith);
    }
    assert(n * s <= (n + 1) * s) by (nonlinear_arith)
        requires
            s > 0,
            n >= 0,
    ;
    assert((n + 1) * s - n * s == s) by (nonlinear_arith);
    assert(0 <= n * s) by (nonlinear_arith)
        requires
            s > 0,
            n >= 0,
    ;
}

/// The names of the `param` children among `children` from position `from`
/// on, appended to `names`; a `param` without a name fails.
pub open spec fn parameters_from(
    tree: Seq<NodeModel>,
    children: Seq<usize>,
    from: int,
    names: Seq<Seq<char>>,
) -> Result<Seq<Seq<char>>, Error>
    decreases children.len() - from,
{
    if from < 0 || from >= children.len() {
        Ok(names)
    } else {
        let child = tree[children[from] as int];
        if child.name == "param"@ {
            match required(child, "name", Stage::Accessor) {
                Err(error) => Err(error),
                Ok(name) => parameters_from(tree, children, from + 1, names.push(name)),
            }
        } else {
            parameters_from(tree, children, from + 1, names)
        }
    }
}

/// What the element at `node` decodes to as an accessor: its tag must be
/// `accessor`, `count` and `stride` must hold unsigned decimals, and each
/// `param` child gives one parameter name.
pub open spec fn accessor_model(tree: Seq<NodeModel>, node: int) -> Result<AccessorModel, Error> {
    if !(0 <= node < tree.len()) || tree[node].name != "accessor"@ {
        Err(fault(ErrorKind::Structure, Stage::Accessor))
    } else {
        match required_unsigned(tree[node], "count", Stage::Accessor) {
            Err(error) => Err(error),
            Ok(count) => match required_unsigned(tree[node], "stride", Stage::Accessor) {
                Err(error) => Err(error),
                Ok(stride) => match parameters_from(
                    tree,
                    tree[node].child_list(),
                    0,
                    Seq::empty(),
                ) {
                    Err(error) => Err(error),
                    Ok(parameters) => Ok(AccessorModel { count, stride, parameters }),
                },
            },
        }
    }
}

impl<T> Accessor<T> {
    /// The names of a record's components.
    pub fn parameter_names(&self) -> (names: &[String])
        ensures
            texts(names@) == self@.parameters,
    {
        self.parameters.as_slice()
    }

    /// The declared number of records.
    pub fn count(&self) -> (count: usize)
        ensures
            count == self@.count,
    {
        self.count
    }

    /// The stride from one record to the next.
    pub fn stride(&self) -> (stride: usize)
        ensures
            stride == self@.stride,
    {
        self.stride
    }

    /// Record `n` of `array`, or `None` where the array ends before it.
    pub fn get_nth<'a>(&self, n: usize, array: &'a [T]) -> (slice: Option<&'a [T]>)
        ensures
            match slice {
                Some(elements) => record(array@, self@.stride, n as int) == Some(elements@),
                None => record(array@, self@.stride, n as int) is None,
            },
            slice is Some <==> (n + 1) * self@.stride <= array@.len(),
            slice matches Some(elements) ==> elements@.len() == self@.stride,
    {
        let len = array.len();
        let stride = self.stride;
        assert((n + 1) * stride == n * stride + stride) by (nonlinear_arith);
        let start = match n.checked_mul(stride) {
            Some(start) => start,
            None => {
                return None;
            },
        };
        let end = match start.checked_add(stride) {
            Some(end) => end,
            None => {
                return None;
            },
        };
        if end > len {
            return None;
        }
        Some(vstd::slice::slice_subrange(array, start, end))
    }

    /// Decodes the `accessor` element at `node`.
    #[verifier::loop_isolation(false)]
    pub fn parse_accessor(node: usize, tree: &XmlTree) -> (parsed: Result<Accessor<T>, Error>)
        ensures
            match parsed {
                Ok(accessor) => accessor_model(tree@, node as int) == Ok::<AccessorModel, Error>(
                    accessor@,
                ),
                Err(error) => accessor_model(tree@, node as int) == Err::<AccessorModel, Error>(
                    error,
                ),
            },
    {
        let element = match tree.get_node(node) {
            Some(element) => element,
            None => {
                return Err(Error::new(ErrorKind::Structure, Stage::Accessor));
            },
        };
        if !has_tag(element, "accessor") {
            return Err(Error::new(ErrorKind::Structure, Stage::Accessor));
        }
        let count = unsigned_attribute(element, "count", Stage::Accessor)?;
        let stride = unsigned_attribute(element, "stride", Stage::Accessor)?;
        let none: Vec<usize> = Vec::new();
        let children = children_or_none(element, &none);
        let mut parameters: Vec<String> = Vec::new();
        let mut i: usize = 0;
        assert(texts(parameters@) =~= Seq::<Seq<char>>::empty());
        while i < children.len()
            invariant
                i <= children@.len(),
                parameters_from(tree@, children@, 0, Seq::empty()) == parameters_from(
                    tree@,
                    children@,
                    i as int,
                    texts(parameters@),
                ),
            decreases children@.len() - i,
        {
            let child = child_at(tree, children, i, Ghost(node as int));
            if has_tag(child, "param") {
                let name = required_attribute(child, "name", Stage::Accessor)?;
                let ghost before = texts(parameters@);
                parameters.push(name.to_owned());
                assert(texts(parameters@) =~= before.push(name@));
            }
            i += 1;
        }
        Ok(Accessor { count, stride, parameters, phantom: PhantomData })
    }
}

} // verus!
