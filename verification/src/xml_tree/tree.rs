//! The arena of a document's elements, and its construction from the event
//! stream of the tokenizer.

use crate::text::same_text;
use crate::xml_tree::error::InvalidXml;
use crate::xml_tree::node::{attributes_model, Attribute, DataModel, NodeModel, XmlNode};
use vstd::prelude::*;

verus! {

/// One event of a document's token stream, reduced to what the tree needs.
#[derive(Debug)]
pub enum XmlEvent {
    /// An opening tag, with the element's local name and its attributes.
    StartElement { name: String, attributes: Vec<Attribute> },
    /// A closing tag.
    EndElement { name: String },
    /// Text between tags.
    Characters(String),
    /// An event that the tree ignores: a declaration, a comment, white space
    /// between tags, and the like.
    Other,
    /// The tokenizer gave up on the document.
    Fault,
}

/// The model of an event.
pub enum EventModel {
    Start { name: Seq<char>, attributes: Seq<(Seq<char>, Seq<char>)> },
    End { name: Seq<char> },
    Characters(Seq<char>),
    Other,
    Fault,
}

impl View for XmlEvent {
    type V = EventModel;

    open spec fn view(&self) -> EventModel {
        match self {
            XmlEvent::StartElement { name, attributes } => EventModel::Start {
                name: name@,
                attributes: attributes_model(attributes@),
            },
            XmlEvent::EndElement { name } => EventModel::End { name: name@ },
            XmlEvent::Characters(text) => EventModel::Characters(text@),
            XmlEvent::Other => EventModel::Other,
            XmlEvent::Fault => EventModel::Fault,
        }
    }
}

/// The models of a list of events.
pub open spec fn events_model(events: Seq<XmlEvent>) -> Seq<EventModel> {
    Seq::new(events.len(), |i: int| events[i]@)
}

/// The models of a list of nodes.
pub open spec fn nodes_model(nodes: Seq<XmlNode>) -> Seq<NodeModel> {
    Seq::new(nodes.len(), |i: int| nodes[i]@)
}

/// Every child index points forward in the arena, at a node that exists.
pub open spec fn arena_ok(nodes: Seq<NodeModel>) -> bool {
    forall|i: int, j: int|
        0 <= i < nodes.len() && 0 <= j < nodes[i].child_list().len() ==> i
            < #[trigger] nodes[i].child_list()[j] < nodes.len()
}

/// The builder between two events: the arena so far, and the indices of the
/// elements that are still open, innermost last.
pub struct BuildState {
    pub nodes: Seq<NodeModel>,
    pub open: Seq<usize>,
}

/// The node `node` with one more child.
pub open spec fn with_child(node: NodeModel, child: usize) -> NodeModel {
    NodeModel { data: DataModel::Children(node.child_list().push(child)), ..node }
}

/// The state after one event, or `None` where the event does not fit: a
/// child or text for an element that cannot take it, a closing tag that
/// closes nothing or the wrong element, text outside every element, or a
/// fault of the tokenizer.
pub open spec fn build_step(state: BuildState, event: EventModel) -> Option<BuildState> {
    match event {
        EventModel::Start { name, attributes } => {
            let index = state.nodes.len() as usize;
            if state.open.len() == 0 {
                let node = NodeModel { name, attributes, parent: None, data: DataModel::Empty };
                Some(BuildState { nodes: state.nodes.push(node), open: state.open.push(index) })
            } else {
                let parent = state.open.last();
                if state.nodes[parent as int].data is Characters {
                    None
                } else {
                    let node = NodeModel {
                        name,
                        attributes,
                        parent: Some(parent),
                        data: DataModel::Empty,
                    };
                    Some(
                        BuildState {
                            nodes: state.nodes.update(
                                parent as int,
                                with_child(state.nodes[parent as int], index),
                            ).push(node),
                            open: state.open.push(index),
                        },
                    )
                }
            }
        },
        EventModel::End { name } => {
            if state.open.len() == 0 || state.nodes[state.open.last() as int].name != name {
                None
            } else {
                Some(BuildState { nodes: state.nodes, open: state.open.drop_last() })
            }
        },
        EventModel::Characters(text) => {
            if state.open.len() == 0 || !(state.nodes[state.open.last() as int].data is Empty) {
                None
            } else {
                let top = state.open.last() as int;
                Some(
                    BuildState {
                        nodes: state.nodes.update(
                            top,
                            NodeModel { data: DataModel::Characters(text), ..state.nodes[top] },
                        ),
                        open: state.open,
                    },
                )
            }
        },
        EventModel::Other => Some(state),
        EventModel::Fault => None,
    }
}

/// The arena after the events from position `from` on, starting in `state`.
pub open spec fn build_from(events: Seq<EventModel>, from: int, state: BuildState) -> Option<
    Seq<NodeModel>,
>
    decreases events.len() - from,
{
    if from < 0 || from >= events.len() {
        Some(state.nodes)
    } else {
        match build_step(state, events[from]) {
            None => None,
            Some(next) => build_from(events, from + 1, next),
        }
    }
}

/// The arena that a stream of events builds, or `None` where an event does
/// not fit.
pub open spec fn build_model(events: Seq<EventModel>) -> Option<Seq<NodeModel>> {
    build_from(events, 0, BuildState { nodes: Seq::empty(), open: Seq::empty() })
}

/// The arena of a builder state is well formed and its open elements are
/// nodes of the arena.
pub open spec fn state_ok(state: BuildState) -> bool {
    &&& arena_ok(state.nodes)
    &&& forall|k: int| 0 <= k < state.open.len() ==> #[trigger] state.open[k] < state.nodes.len()
}

/// One event keeps a builder state well formed and removes no node.
pub proof fn lemma_build_step(state: BuildState, event: EventModel)
    requires
        state_ok(state),
        state.nodes.len() < usize::MAX,
        build_step(state, event) is Some,
    ensures
        state_ok(build_step(state, event)->0),
        state.nodes.len() <= build_step(state, event)->0.nodes.len() <= state.nodes.len() + 1,
{
    let next = build_step(state, event)->0;
    match event {
        EventModel::Start { name, attributes } => {
            if state.open.len() > 0 {
                let parent = state.open.last() as int;
                assert forall|i: int, j: int|
                    0 <= i < next.nodes.len() && 0 <= j < next.nodes[i].child_list().len() implies i
                    < #[trigger] next.nodes[i].child_list()[j] < next.nodes.len() by {
                    if i == parent {
                        if j < state.nodes[i].child_list().len() {
                            assert(next.nodes[i].child_list()[j] == state.nodes[i].child_list()[j]);
                        }
                    } else if i < state.nodes.len() {
                        assert(next.nodes[i] == state.nodes[i]);
                        assert(next.nodes[i].child_list()[j] == state.nodes[i].child_list()[j]);
                    }
                }
            }
            assert forall|k: int| 0 <= k < next.open.len() implies #[trigger] next.open[k]
                < next.nodes.len() by {
                if k < state.open.len() {
                    assert(next.open[k] == state.open[k]);
                }
            }
        },
        EventModel::End { name } => {
            assert forall|k: int| 0 <= k < next.open.len() implies #[trigger] next.open[k]
                < next.nodes.len() by {
                assert(next.open[k] == state.open[k]);
            }
        },
        EventModel::Characters(text) => {
            let top = state.open.last() as int;
            assert forall|i: int, j: int|
                0 <= i < next.nodes.len() && 0 <= j < next.nodes[i].child_list().len() implies i
                < #[trigger] next.nodes[i].child_list()[j] < next.nodes.len() by {
                if i != top {
                    assert(next.nodes[i] == state.nodes[i]);
                    assert(next.nodes[i].child_list()[j] == state.nodes[i].child_list()[j]);
                }
            }
        },
        _ => {},
    }
}

/// The builder keeps its arena well formed: every arena built from a well
/// formed state has child indices that point forward.
pub proof fn lemma_build_from_arena(events: Seq<EventModel>, from: int, state: BuildState)
    requires
        0 <= from,
        state_ok(state),
        build_from(events, from, state) is Some,
        build_from(events, from, state)->0.len() < usize::MAX,
    ensures
        arena_ok(build_from(events, from, state)->0),
        build_from(events, from, state)->0.len() >= state.nodes.len(),
    decreases events.len() - from,
{
    if from < events.len() {
        let next = build_step(state, events[from])->0;
        if state.nodes.len() < usize::MAX {
            lemma_build_step(state, events[from]);
            lemma_build_from_arena(events, from + 1, next);
        } else {
            lemma_build_from_long(events, from, state);
        }
    }
}

/// From an arena that is as long as an arena can be, only arenas that are
/// as long or longer are built.
pub proof fn lemma_build_from_long(events: Seq<EventModel>, from: int, state: BuildState)
    requires
        0 <= from,
        state.nodes.len() >= usize::MAX,
        forall|k: int| 0 <= k < state.open.len() ==> #[trigger] state.open[k] < state.nodes.len(),
        build_from(events, from, state) is Some,
    ensures
        build_from(events, from, state)->0.len() >= usize::MAX,
    decreases events.len() - from,
{
    if from < events.len() {
        let next = build_step(state, events[from])->0;
        assert forall|k: int| 0 <= k < next.open.len() implies #[trigger] next.open[k]
            < next.nodes.len() by {
            if k < state.open.len() {
                assert(next.open[k] == state.open[k]);
            }
        }
        lemma_build_from_long(events, from + 1, next);
    }
}

/// Every tree that a stream of events builds has child indices that point
/// forward, at nodes of the tree.
pub proof fn lemma_build_arena(events: Seq<EventModel>)
    requires
        build_model(events) is Some,
        build_model(events)->0.len() < usize::MAX,
    ensures
        arena_ok(build_model(events)->0),
{
    lemma_build_from_arena(events, 0, BuildState { nodes: Seq::empty(), open: Seq::empty() });
}

/// The events that the tokenizer reads from the text of a document.
pub uninterp spec fn document_events(text: Seq<char>) -> Seq<EventModel>;

/// `xml::reader::EventReader::from_str` and the iterator of its events: the
/// events of `text` in document order, each reduced to its local names and
/// text; a tokenizer error becomes `Fault`. The same text always gives the
/// same events.
#[verifier::external_body]
fn read_events(text: &str) -> (events: Vec<XmlEvent>)
    ensures
        events_model(events@) == document_events(text@),
{
    xml::reader::EventReader::from_str(text).into_iter().map(|event| match event {
        Ok(xml::reader::XmlEvent::StartElement { name, attributes, .. }) => XmlEvent::StartElement {
            name: name.local_name,
            attributes: attributes.into_iter().map(|a| Attribute { name: a.name.local_name, value: a.value }).collect(),
        },
        Ok(xml::reader::XmlEvent::EndElement { name }) => XmlEvent::EndElement { name: name.local_name },
        Ok(xml::reader::XmlEvent::Characters(text)) => XmlEvent::Characters(text),
        Ok(_) => XmlEvent::Other,
        Err(_) => XmlEvent::Fault,
    }).collect()
}

/// The attributed tree of a document: its elements in document order.
pub struct XmlTree {
    nodes: Vec<XmlNode>,
}

impl View for XmlTree {
    type V = Seq<NodeModel>;

    closed spec fn view(&self) -> Seq<NodeModel> {
        nodes_model(self.nodes@)
    }
}

impl XmlTree {
    /// What holds of every tree: its child indices point forward, at nodes
    /// of the arena.
    #[verifier::type_invariant]
    pub open spec fn well_formed(&self) -> bool {
        arena_ok(self@)
    }

    /// The tree without nodes.
    pub fn new() -> (tree: XmlTree)
        ensures
            tree@.len() == 0,
    {
        XmlTree { nodes: Vec::new() }
    }

    /// The number of nodes.
    pub fn len(&self) -> (len: usize)
        ensures
            len == self@.len(),
    {
        self.nodes.len()
    }

    /// The node at index `id`, if there is one.
    pub fn get_node(&self, id: usize) -> (node: Option<&XmlNode>)
        ensures
            match node {
                Some(found) => id < self@.len() && found@ == self@[id as int],
                None => id >= self@.len(),
            },
    {
        if id < self.nodes.len() {
            Some(&self.nodes[id])
        } else {
            None
        }
    }

    /// The nodes at the indices `nodes`, each if there is one.
    pub fn nodes_iter(&self, nodes: &[usize]) -> (found: Vec<Option<&XmlNode>>)
        ensures
            found@.len() == nodes@.len(),
            forall|k: int|
                0 <= k < found@.len() ==> match #[trigger] found@[k] {
                    Some(node) => nodes@[k] < self@.len() && node@ == self@[nodes@[k] as int],
                    None => nodes@[k] >= self@.len(),
                },
    {
        let mut found: Vec<Option<&XmlNode>> = Vec::new();
        let mut i: usize = 0;
        while i < nodes.len()
            invariant
                i <= nodes@.len(),
                found@.len() == i,
                forall|k: int|
                    0 <= k < i ==> match #[trigger] found@[k] {
                        Some(node) => nodes@[k] < self@.len() && node@ == self@[nodes@[k] as int],
                        None => nodes@[k] >= self@.len(),
                    },
            decreases nodes@.len() - i,
        {
            found.push(self.get_node(nodes[i]));
            i += 1;
        }
        found
    }

    /// The indices of all nodes with tag `name`, in document order.
    pub fn nodes_with_name(&self, name: &str) -> (found: Vec<usize>)
        ensures
            forall|k: int| 0 <= k < found@.len() ==> found@[k] < self@.len() && self@[found@[k] as int].name == name@,
            forall|k: int, l: int| 0 <= k < l < found@.len() ==> found@[k] < found@[l],
            forall|i: int| 0 <= i < self@.len() && self@[i].name == name@ ==> found@.contains(i as usize),
    {
        let mut found: Vec<usize> = Vec::new();
        let mut i: usize = 0;
        while i < self.nodes.len()
            invariant
                i <= self.nodes@.len(),
                forall|k: int| 0 <= k < found@.len() ==> found@[k] < i && self@[found@[k] as int].name == name@,
                forall|k: int, l: int| 0 <= k < l < found@.len() ==> found@[k] < found@[l],
                forall|j: int| 0 <= j < i && self@[j].name == name@ ==> found@.contains(j as usize),
            decreases self.nodes@.len() - i,
        {
            if same_text(self.nodes[i].name.as_str(), name) {
                let ghost before = found@;
                found.push(i);
                assert(found@[before.len() as int] == i);
                assert forall|j: int| 0 <= j < i + 1 && self@[j].name == name@ implies found@.contains(j as usize) by {
                    if j < i {
                        let k = choose|k: int| 0 <= k < before.len() && before[k] == j as usize;
                        assert(found@[k] == j as usize);
                    }
                }
            }
            i += 1;
        }
        found
    }

    /// The tree that a stream of events builds: each opening tag appends a
    /// node and makes it a child of the innermost open element, each closing
    /// tag closes that element, text goes to it.
    pub fn build(events: Vec<XmlEvent>) -> (built: Result<XmlTree, InvalidXml>)
        ensures
            match built {
                Ok(tree) => build_model(events_model(events@)) == Some(tree@),
                Err(_) => build_model(events_model(events@)) is None,
            },
    {
        let ghost all = events_model(events@);
        let mut nodes: Vec<XmlNode> = Vec::new();
        let mut open: Vec<usize> = Vec::new();
        assert(nodes_model(nodes@) =~= Seq::<NodeModel>::empty());
        for event in it: events
            invariant
                it.seq() == events@,
                all == events_model(events@),
                arena_ok(nodes_model(nodes@)),
                forall|k: int| 0 <= k < open@.len() ==> open@[k] < nodes@.len(),
                build_model(all) == build_from(
                    all,
                    it.index() as int,
                    BuildState { nodes: nodes_model(nodes@), open: open@ },
                ),
        {
            let ghost before = BuildState { nodes: nodes_model(nodes@), open: open@ };
            assert(all[it.index() as int] == event@);
            match event {
                XmlEvent::StartElement { name, attributes } => {
                    let index = nodes.len();
                    let parent = if open.len() == 0 {
                        None
                    } else {
                        let top = open[open.len() - 1];
                        match nodes[top].add_child(index) {
                            Ok(()) => {},
                            Err(_) => {
                                return Err(InvalidXml);
                            },
                        }
                        Some(top)
                    };
                    let node = XmlNode::new(name, attributes, parent);
                    nodes.push(node);
                    open.push(index);
                    assert(Some(BuildState { nodes: nodes_model(nodes@), open: open@ })
                        == build_step(before, event@)) by {
                        let after = build_step(before, event@)->0;
                        assert(nodes_model(nodes@) =~= after.nodes);
                    }
                },
                XmlEvent::EndElement { name } => {
                    if open.len() == 0 {
                        return Err(InvalidXml);
                    }
                    let top = open[open.len() - 1];
                    if !same_text(nodes[top].name.as_str(), name.as_str()) {
                        return Err(InvalidXml);
                    }
                    open.pop();
                },
                XmlEvent::Characters(text) => {
                    if open.len() == 0 {
                        return Err(InvalidXml);
                    }
                    let top = open[open.len() - 1];
                    match nodes[top].set_data_to_characters(text) {
                        Ok(()) => {},
                        Err(_) => {
                            return Err(InvalidXml);
                        },
                    }
                    assert(nodes_model(nodes@) =~= build_step(before, event@)->0.nodes);
                },
                XmlEvent::Other => {},
                XmlEvent::Fault => {
                    return Err(InvalidXml);
                },
            }
        }
        let tree = XmlTree { nodes };
        Ok(tree)
    }

    /// The attributed tree of the document written in `text`.
    pub fn parse_xml(text: &str) -> (parsed: Result<XmlTree, InvalidXml>)
        ensures
            match parsed {
                Ok(tree) => build_model(document_events(text@)) == Some(tree@),
                Err(_) => build_model(document_events(text@)) is None,
            },
    {
        let events = read_events(text);
        XmlTree::build(events)
    }
}

} // verus!
