//! One node of the attributed tree, and its mathematical model.

use crate::text::same_text;
use crate::xml_tree::error::InvalidOwnedData;
use vstd::prelude::*;

verus! {

/// An attribute of an element: its local name and its value.
#[derive(Debug)]
pub struct Attribute {
    pub name: String,
    pub value: String,
}

/// What an element holds: the arena indices of its children, or text.
#[derive(Debug)]
pub enum OwnedData {
    Children(Vec<usize>),
    Characters(String),
}

/// The model of what an element holds.
pub enum DataModel {
    Empty,
    Children(Seq<usize>),
    Characters(Seq<char>),
}

/// An element of the document.
#[derive(Debug)]
pub struct XmlNode {
    pub name: String,
    pub attributes: Vec<Attribute>,
    pub parent: Option<usize>,
    pub data: Option<OwnedData>,
}

/// The model of an element: its tag, its attributes as pairs of name and
/// value in document order, its parent and its content.
pub struct NodeModel {
    pub name: Seq<char>,
    pub attributes: Seq<(Seq<char>, Seq<char>)>,
    pub parent: Option<usize>,
    pub data: DataModel,
}

/// The attributes of an element as pairs of name and value.
pub open spec fn attributes_model(attributes: Seq<Attribute>) -> Seq<(Seq<char>, Seq<char>)> {
    Seq::new(attributes.len(), |i: int| (attributes[i].name@, attributes[i].value@))
}

/// The model of an element's content.
pub open spec fn data_model(data: Option<OwnedData>) -> DataModel {
    match data {
        None => DataModel::Empty,
        Some(OwnedData::Children(children)) => DataModel::Children(children@),
        Some(OwnedData::Characters(text)) => DataModel::Characters(text@),
    }
}

/// The value of the first pair from position `from` on whose name is `name`.
pub open spec fn attribute_from(
    attributes: Seq<(Seq<char>, Seq<char>)>,
    name: Seq<char>,
    from: int,
) -> Option<Seq<char>>
    decreases attributes.len() - from,
{
    if from < 0 || from >= attributes.len() {
        None
    } else if attributes[from].0 == name {
        Some(attributes[from].1)
    } else {
        attribute_from(attributes, name, from + 1)
    }
}

/// The value found for a name is that of the first pair with that name,
/// and no value is found only where no pair has the name.
pub proof fn lemma_attribute_from(attributes: Seq<(Seq<char>, Seq<char>)>, name: Seq<char>, from: int)
    requires
        0 <= from,
    ensures
        match attribute_from(attributes, name, from) {
            Some(value) => exists|i: int|
                from <= i < attributes.len() && #[trigger] attributes[i] == (name, value)
                    && forall|k: int| from <= k < i ==> (#[trigger] attributes[k]).0 != name,
            None => forall|k: int| from <= k < attributes.len() ==> (#[trigger] attributes[k]).0
                != name,
        },
    decreases attributes.len() - from,
{
    if from < attributes.len() {
        if attributes[from].0 == name {
            assert(attributes[from] == (name, attributes[from].1));
        } else {
            lemma_attribute_from(attributes, name, from + 1);
            match attribute_from(attributes, name, from + 1) {
                Some(value) => {
                    let i = choose|i: int|
                        from + 1 <= i < attributes.len() && #[trigger] attributes[i] == (name, value)
                            && forall|k: int|
                            from + 1 <= k < i ==> (#[trigger] attributes[k]).0 != name;
                    assert(attributes[i] == (name, value));
                    assert forall|k: int| from <= k < i implies (#[trigger] attributes[k]).0
                        != name by {}
                },
                None => {},
            }
        }
    }
}

impl NodeModel {
    /// The value of the first attribute called `name`.
    pub open spec fn attribute(self, name: Seq<char>) -> Option<Seq<char>> {
        attribute_from(self.attributes, name, 0)
    }

    /// The children of the element, if it holds children.
    pub open spec fn children(self) -> Option<Seq<usize>> {
        match self.data {
            DataModel::Children(children) => Some(children),
            _ => None,
        }
    }

    /// The children of the element; none if it holds text or nothing.
    pub open spec fn child_list(self) -> Seq<usize> {
        match self.data {
            DataModel::Children(children) => children,
            _ => Seq::empty(),
        }
    }

    /// The text of the element, if it holds text.
    pub open spec fn characters(self) -> Option<Seq<char>> {
        match self.data {
            DataModel::Characters(text) => Some(text),
            _ => None,
        }
    }
}

impl View for XmlNode {
    type V = NodeModel;

    open spec fn view(&self) -> NodeModel {
        NodeModel {
            name: self.name@,
            attributes: attributes_model(self.attributes@),
            parent: self.parent,
            data: data_model(self.data),
        }
    }
}

impl XmlNode {
    /// An element without content.
    pub fn new(name: String, attributes: Vec<Attribute>, parent: Option<usize>) -> (node: XmlNode)
        ensures
            node@ == (NodeModel {
                name: name@,
                attributes: attributes_model(attributes@),
                parent,
                data: DataModel::Empty,
            }),
    {
        XmlNode { name, attributes, parent, data: None }
    }

    /// The value of the first attribute called `name`.
    pub fn get_attribute_with_name(&self, name: &str) -> (value: Option<&str>)
        ensures
            match value {
                Some(text) => self@.attribute(name@) == Some(text@),
                None => self@.attribute(name@) is None,
            },
    {
        let mut i: usize = 0;
        while i < self.attributes.len()
            invariant
                i <= self.attributes@.len(),
                self@.attribute(name@) == attribute_from(self@.attributes, name@, i as int),
            decreases self.attributes@.len() - i,
        {
            if same_text(self.attributes[i].name.as_str(), name) {
                return Some(self.attributes[i].value.as_str());
            }
            i += 1;
        }
        None
    }

    /// Gives an element without content its text.
    pub fn set_data_to_characters(&mut self, characters: String) -> (done: Result<
        (),
        InvalidOwnedData,
    >)
        ensures
            done is Ok <==> old(self)@.data is Empty,
            done is Ok ==> final(self)@ == (NodeModel {
                data: DataModel::Characters(characters@),
                ..old(self)@
            }),
            done is Err ==> *final(self) == *old(self),
    {
        if self.data.is_none() {
            self.data = Some(OwnedData::Characters(characters));
            Ok(())
        } else {
            Err(InvalidOwnedData)
        }
    }

    /// Appends a child to an element that holds children or nothing.
    pub fn add_child(&mut self, child_index: usize) -> (done: Result<(), InvalidOwnedData>)
        ensures
            done is Ok <==> !(old(self)@.data is Characters),
            done is Ok ==> final(self)@ == (NodeModel {
                data: DataModel::Children(old(self)@.child_list().push(child_index)),
                ..old(self)@
            }),
            done is Err ==> *final(self) == *old(self),
    {
        match &mut self.data {
            None => {
                let mut children: Vec<usize> = Vec::new();
                children.push(child_index);
                assert(children@ == Seq::<usize>::empty().push(child_index));
                self.data = Some(OwnedData::Children(children));
                Ok(())
            },
            Some(OwnedData::Children(children)) => {
                children.push(child_index);
                Ok(())
            },
            Some(OwnedData::Characters(_)) => Err(InvalidOwnedData),
        }
    }

    /// The children of the element, if it holds children.
    pub fn get_children(&self) -> (children: Option<&[usize]>)
        ensures
            match children {
                Some(list) => self@.children() == Some(list@),
                None => self@.children() is None,
            },
    {
        match &self.data {
            Some(OwnedData::Children(children)) => Some(children.as_slice()),
            _ => None,
        }
    }

    /// Whether the element holds children.
    pub fn has_children(&self) -> (has: bool)
        ensures
            has == self@.children() is Some,
    {
        match &self.data {
            Some(OwnedData::Children(_)) => true,
            _ => false,
        }
    }

    /// The text of the element, if it holds text.
    pub fn get_characters(&self) -> (characters: Option<&str>)
        ensures
            match characters {
                Some(text) => self@.characters() == Some(text@),
                None => self@.characters() is None,
            },
    {
        match &self.data {
            Some(OwnedData::Characters(characters)) => Some(characters.as_str()),
            _ => None,
        }
    }
}

} // verus!
