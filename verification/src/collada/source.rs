//! Data sources: a named flat array with the accessor that cuts it into
//! records.

use crate::collada::accessor::{
    accessor_model, lemma_records, record, record_count, Accessor, AccessorModel,
};
use crate::collada::error::{ArrayError, Error, ErrorKind, Stage};
use crate::collada::util::{
    child_at, children_or_none, fault, has_tag, parse_array, required, required_attribute, texts,
};
use crate::text::{list_value, split_tokens, tokens, Literal};
use crate::xml_tree::node::NodeModel;
use crate::xml_tree::tree::XmlTree;
use vstd::prelude::*;

verus! {

/// A type whose values fill the array of a source.
pub trait ListElement: Sized {
    /// Whether `text` is a list of such values.
    spec fn list_ok(text: Seq<char>) -> bool;

    /// Whether `list` holds the values that `text` lists.
    spec fn list_is(text: Seq<char>, list: Seq<Self>) -> bool;

    /// Reads the list that `text` holds.
    fn read_list(text: &str) -> (read: Result<Vec<Self>, ArrayError>)
        ensures
            read is Ok <==> Self::list_ok(text@),
            read matches Ok(list) ==> Self::list_is(text@, list@),
    ;
}

/// Literals are read token by token.
impl<T: Literal> ListElement for T {
    open spec fn list_ok(text: Seq<char>) -> bool {
        list_value::<T>(text) is Some
    }

    open spec fn list_is(text: Seq<char>, list: Seq<T>) -> bool {
        list_value::<T>(text) == Some(list)
    }

    fn read_list(text: &str) -> (read: Result<Vec<T>, ArrayError>) {
        parse_array::<T>(text)
    }
}

/// Names are the tokens themselves.
impl ListElement for String {
    open spec fn list_ok(text: Seq<char>) -> bool {
        true
    }

    open spec fn list_is(text: Seq<char>, list: Seq<String>) -> bool {
        texts(list) == tokens(text)
    }

    fn read_list(text: &str) -> (read: Result<Vec<String>, ArrayError>) {
        let list = split_tokens(text);
        assert(texts(list@) =~= tokens(text@));
        Ok(list)
    }
}

/// A named flat array with its accessor.
#[derive(Debug)]
pub struct DataSource<T> {
    id: String,
    array: Vec<T>,
    accessor: Accessor<T>,
}

/// The model of a source.
pub struct SourceModel<T> {
    pub id: Seq<char>,
    pub array: Seq<T>,
    pub accessor: AccessorModel,
}

impl<T> SourceModel<T> {
    /// Record `n` of the source.
    pub open spec fn record(self, n: int) -> Option<Seq<T>> {
        record(self.array, self.accessor.stride, n)
    }

    /// The number of records that the array holds.
    pub open spec fn records(self) -> nat {
        record_count(self.array.len(), self.accessor.stride)
    }
}

impl<T> View for DataSource<T> {
    type V = SourceModel<T>;

    closed spec fn view(&self) -> SourceModel<T> {
        SourceModel { id: self.id@, array: self.array@, accessor: self.accessor@ }
    }
}

/// What a `source` element holds before its array is read: its id, the text
/// of its array and its accessor.
pub struct SourceParts {
    pub id: Seq<char>,
    pub text: Seq<char>,
    pub accessor: AccessorModel,
}

/// The array text and the accessor found among `children` from position
/// `from` on, given those found before. The array child is the one with tag
/// `array_name`, the accessor is the first child of `technique_common`;
/// either one twice fails, and so does an array child without text or with
/// a token that is no literal, and a `technique_common` without children.
pub open spec fn source_parts_from<T: ListElement>(
    tree: Seq<NodeModel>,
    children: Seq<usize>,
    from: int,
    array_name: Seq<char>,
    text: Option<Seq<char>>,
    accessor: Option<AccessorModel>,
) -> Result<(Option<Seq<char>>, Option<AccessorModel>), Error>
    decreases children.len() - from,
{
    if from < 0 || from >= children.len() {
        Ok((text, accessor))
    } else {
        let child = tree[children[from] as int];
        if child.name == array_name {
            if text is Some {
                Err(fault(ErrorKind::Structure, Stage::DataSource))
            } else {
                match child.characters() {
                    None => Err(fault(ErrorKind::Structure, Stage::DataSource)),
                    Some(list) => if T::list_ok(list) {
                        source_parts_from::<T>(
                            tree,
                            children,
                            from + 1,
                            array_name,
                            Some(list),
                            accessor,
                        )
                    } else {
                        Err(fault(ErrorKind::Literal, Stage::Array))
                    },
                }
            }
        } else if child.name == "technique_common"@ {
            if accessor is Some || child.child_list().len() == 0 {
                Err(fault(ErrorKind::Structure, Stage::DataSource))
            } else {
                match accessor_model(tree, child.child_list()[0] as int) {
                    Err(error) => Err(error),
                    Ok(found) => source_parts_from::<T>(
                        tree,
                        children,
                        from + 1,
                        array_name,
                        text,
                        Some(found),
                    ),
                }
            }
        } else {
            source_parts_from::<T>(tree, children, from + 1, array_name, text, accessor)
        }
    }
}

/// What the element at `node` decodes to as a source: its tag must be
/// `source`, it must have an id, exactly one array child and exactly one
/// `technique_common` child with an accessor.
pub open spec fn source_parts<T: ListElement>(
    tree: Seq<NodeModel>,
    node: int,
    array_name: Seq<char>,
) -> Result<SourceParts, Error> {
    if !(0 <= node < tree.len()) || tree[node].name != "source"@ {
        Err(fault(ErrorKind::Structure, Stage::DataSource))
    } else {
        match required(tree[node], "id", Stage::DataSource) {
            Err(error) => Err(error),
            Ok(id) => match source_parts_from::<T>(
                tree,
                tree[node].child_list(),
                0,
                array_name,
                None,
                None,
            ) {
                Err(error) => Err(error),
                Ok((text, accessor)) => if text is Some && accessor is Some {
                    Ok(SourceParts { id, text: text->0, accessor: accessor->0 })
                } else {
                    Err(fault(ErrorKind::Structure, Stage::DataSource))
                },
            },
        }
    }
}

/// Whether `source` is what the parts `parts` decode to.
pub open spec fn source_decodes<T: ListElement>(parts: SourceParts, source: SourceModel<T>) -> bool {
    &&& source.id == parts.id
    &&& source.accessor == parts.accessor
    &&& T::list_is(parts.text, source.array)
}

/// The source that the element at `node` decodes to, with an array of
/// literals.
pub open spec fn source_model<T: Literal>(
    tree: Seq<NodeModel>,
    node: int,
    array_name: Seq<char>,
) -> Result<SourceModel<T>, Error> {
    match source_parts::<T>(tree, node, array_name) {
        Err(error) => Err(error),
        Ok(parts) => Ok(
            SourceModel {
                id: parts.id,
                array: list_value::<T>(parts.text)->0,
                accessor: parts.accessor,
            },
        ),
    }
}

impl<T: ListElement> DataSource<T> {
    /// The id of the element.
    pub fn get_id(&self) -> (id: &str)
        ensures
            id@ == self@.id,
    {
        self.id.as_str()
    }

    /// A cursor over the records of the source, at its first record.
    pub fn iter(&self) -> (cursor: DataSourceIter<'_, T>)
        ensures
            cursor.source@ == self@,
            cursor.index == 0,
    {
        DataSourceIter::new(self)
    }

    /// Record `n`, or `None` where the array ends before it.
    pub fn get_nth_value(&self, n: usize) -> (slice: Option<&[T]>)
        ensures
            match slice {
                Some(elements) => self@.record(n as int) == Some(elements@),
                None => self@.record(n as int) is None,
            },
    {
        self.accessor.get_nth(n, self.array.as_slice())
    }

    /// The names of a record's components.
    pub fn get_parameter_names(&self) -> (names: &[String])
        ensures
            texts(names@) == self@.accessor.parameters,
    {
        self.accessor.parameter_names()
    }

    /// The number of records that the accessor declares.
    pub fn count(&self) -> (count: usize)
        ensures
            count == self@.accessor.count,
    {
        self.accessor.count()
    }

    /// The stride from one record to the next.
    pub fn stride(&self) -> (stride: usize)
        ensures
            stride == self@.accessor.stride,
    {
        self.accessor.stride()
    }

    /// The number of records that the array holds.
    pub fn record_count(&self) -> (count: usize)
        ensures
            count == self@.records(),
    {
        let stride = self.accessor.stride();
        if stride == 0 {
            0
        } else {
            self.array.len() / stride
        }
    }

    /// Decodes the `source` element at `node`, whose array child has the tag
    /// `array_name`.
    #[verifier::loop_isolation(false)]
    pub fn parse_source(node: usize, tree: &XmlTree, array_name: &str) -> (parsed: Result<
        DataSource<T>,
        Error,
    >)
        ensures
            match parsed {
                Ok(source) => source_parts::<T>(tree@, node as int, array_name@) matches Ok(parts)
                    && source_decodes(parts, source@),
                Err(error) => source_parts::<T>(tree@, node as int, array_name@) == Err::<
                    SourceParts,
                    Error,
                >(error),
            },
    {
        let element = match tree.get_node(node) {
            Some(element) => element,
            None => {
                return Err(Error::new(ErrorKind::Structure, Stage::DataSource));
            },
        };
        if !has_tag(element, "source") {
            return Err(Error::new(ErrorKind::Structure, Stage::DataSource));
        }
        let id = required_attribute(element, "id", Stage::DataSource)?;
        let none: Vec<usize> = Vec::new();
        let children = children_or_none(element, &none);
        let mut array: Option<Vec<T>> = None;
        let mut accessor: Option<Accessor<T>> = None;
        let ghost mut text: Option<Seq<char>> = None;
        let ghost mut found: Option<AccessorModel> = None;
        let mut i: usize = 0;
        while i < children.len()
            invariant
                i <= children@.len(),
                array is Some <==> text is Some,
                array is Some ==> T::list_is(text->0, array->0@),
                accessor is Some <==> found is Some,
                accessor is Some ==> found->0 == accessor->0@,
                source_parts_from::<T>(tree@, children@, 0, array_name@, None, None)
                    == source_parts_from::<T>(tree@, children@, i as int, array_name@, text, found),
            decreases children@.len() - i,
        {
            let child = child_at(tree, children, i, Ghost(node as int));
            if has_tag(child, array_name) {
                if array.is_some() {
                    return Err(Error::new(ErrorKind::Structure, Stage::DataSource));
                }
                let list = match child.get_characters() {
                    Some(list) => list,
                    None => {
                        return Err(Error::new(ErrorKind::Structure, Stage::DataSource));
                    },
                };
                match T::read_list(list) {
                    Ok(values) => {
                        array = Some(values);
                        proof {
                            text = Some(list@);
                        }
                    },
                    Err(_) => {
                        return Err(Error::new(ErrorKind::Literal, Stage::Array));
                    },
                }
            } else if has_tag(child, "technique_common") {
                if accessor.is_some() {
                    return Err(Error::new(ErrorKind::Structure, Stage::DataSource));
                }
                let inner = children_or_none(child, &none);
                if inner.len() == 0 {
                    return Err(Error::new(ErrorKind::Structure, Stage::DataSource));
                }
                let read = Accessor::parse_accessor(inner[0], tree)?;
                proof {
                    found = Some(read@);
                }
                accessor = Some(read);
            }
            i += 1;
        }
        match (array, accessor) {
            (Some(array), Some(accessor)) => Ok(DataSource { id: id.to_owned(), array, accessor }),
            _ => Err(Error::new(ErrorKind::Structure, Stage::DataSource)),
        }
    }
}

/// A cursor over the records of a source.
pub struct DataSourceIter<'a, T> {
    pub source: &'a DataSource<T>,
    pub index: usize,
}

impl<'a, T: ListElement> DataSourceIter<'a, T> {
    /// A cursor over the records of `source`, at its first record.
    pub fn new(source: &'a DataSource<T>) -> (cursor: DataSourceIter<'a, T>)
        ensures
            cursor.source@ == source@,
            cursor.index == 0,
    {
        DataSourceIter { source, index: 0 }
    }

    /// The record under the cursor, which then moves on; `None`, and no
    /// move, once the cursor has passed the records that the array holds. A
    /// source with a stride of zero holds no record.
    pub fn next(&mut self) -> (item: Option<&'a [T]>)
        ensures
            final(self).source == old(self).source,
            item is Some <==> old(self).index < old(self).source@.records(),
            item matches Some(elements) ==> old(self).source@.record(old(self).index as int)
                == Some(elements@),
            final(self).index == if item is Some && old(self).index < usize::MAX {
                old(self).index + 1
            } else {
                old(self).index as int
            },
    {
        if self.source.stride() == 0 {
            return None;
        }
        proof {
            lemma_records(
                self.source@.array,
                self.source@.accessor.stride,
                self.index as int,
            );
        }
        let item = self.source.get_nth_value(self.index);
        if item.is_some() && self.index < usize::MAX {
            self.index += 1;
        }
        item
    }
}

} // verus!
