use collada_parser::xml_tree::node::{Attribute, OwnedData, XmlNode};
use collada_parser::xml_tree::tree::{XmlEvent, XmlTree};

fn start(name: &str, attributes: &[(&str, &str)]) -> XmlEvent {
    XmlEvent::StartElement {
        name: name.to_string(),
        attributes: attributes
            .iter()
            .map(|(name, value)| Attribute { name: name.to_string(), value: value.to_string() })
            .collect(),
    }
}

fn end(name: &str) -> XmlEvent {
    XmlEvent::EndElement { name: name.to_string() }
}

fn text(characters: &str) -> XmlEvent {
    XmlEvent::Characters(characters.to_string())
}

#[test]
fn build_appends_nodes_in_document_order() {
    let tree = XmlTree::build(vec![
        XmlEvent::Other,
        start("a", &[("id", "root")]),
        start("b", &[]),
        text("hello"),
        end("b"),
        start("c", &[("x", "1"), ("y", "2")]),
        start("d", &[]),
        end("d"),
        end("c"),
        end("a"),
        XmlEvent::Other,
    ])
    .unwrap();
    assert_eq!(tree.len(), 4);
    let a = tree.get_node(0).unwrap();
    assert_eq!(a.name, "a");
    assert_eq!(a.parent, None);
    assert_eq!(a.get_children(), Some(&[1usize, 2][..]));
    assert_eq!(a.get_characters(), None);
    let b = tree.get_node(1).unwrap();
    assert_eq!(b.parent, Some(0));
    assert_eq!(b.get_characters(), Some("hello"));
    assert_eq!(b.get_children(), None);
    assert!(!b.has_children());
    let c = tree.get_node(2).unwrap();
    assert_eq!(c.get_children(), Some(&[3usize][..]));
    assert!(c.has_children());
    assert_eq!(c.get_attribute_with_name("y"), Some("2"));
    assert_eq!(c.get_attribute_with_name("z"), None);
    let d = tree.get_node(3).unwrap();
    assert_eq!(d.parent, Some(2));
    assert!(d.data.is_none());
    assert!(tree.get_node(4).is_none());
}

#[test]
fn build_of_no_events_is_the_empty_tree() {
    let tree = XmlTree::build(vec![]).unwrap();
    assert_eq!(tree.len(), 0);
    assert_eq!(XmlTree::new().len(), 0);
}

#[test]
fn build_rejects_a_closing_tag_that_closes_the_wrong_element() {
    assert!(XmlTree::build(vec![start("a", &[]), end("b")]).is_err());
}

#[test]
fn build_rejects_a_closing_tag_that_closes_nothing() {
    assert!(XmlTree::build(vec![end("a")]).is_err());
    assert!(XmlTree::build(vec![start("a", &[]), end("a"), end("a")]).is_err());
}

#[test]
fn build_rejects_text_outside_every_element() {
    assert!(XmlTree::build(vec![text("stray")]).is_err());
}

#[test]
fn build_rejects_text_after_children_and_children_after_text() {
    assert!(XmlTree::build(vec![start("a", &[]), start("b", &[]), end("b"), text("t"), end("a")]).is_err());
    assert!(XmlTree::build(vec![start("a", &[]), text("t"), start("b", &[]), end("b"), end("a")]).is_err());
    assert!(XmlTree::build(vec![start("a", &[]), text("t"), text("u"), end("a")]).is_err());
}

#[test]
fn build_rejects_a_fault_of_the_tokenizer() {
    assert!(XmlTree::build(vec![start("a", &[]), XmlEvent::Fault]).is_err());
}

#[test]
fn build_accepts_elements_left_open() {
    let tree = XmlTree::build(vec![start("a", &[]), start("b", &[])]).unwrap();
    assert_eq!(tree.len(), 2);
}

#[test]
fn parse_xml_reads_a_document() {
    let tree = XmlTree::parse_xml(
        r#"<?xml version="1.0"?>
<!-- a comment -->
<scene id="s">
  <node name="first">1 2 3</node>
  <node name="second"/>
</scene>"#,
    )
    .unwrap();
    assert_eq!(tree.len(), 3);
    let scene = tree.get_node(0).unwrap();
    assert_eq!(scene.name, "scene");
    assert_eq!(scene.get_attribute_with_name("id"), Some("s"));
    assert_eq!(scene.get_children(), Some(&[1usize, 2][..]));
    assert_eq!(tree.get_node(1).unwrap().get_characters(), Some("1 2 3"));
    assert_eq!(tree.get_node(2).unwrap().get_attribute_with_name("name"), Some("second"));
    assert!(tree.get_node(2).unwrap().data.is_none());
}

#[test]
fn parse_xml_keeps_local_names_only() {
    let tree = XmlTree::parse_xml(r#"<c:a xmlns:c="urn:x" c:k="v"><c:b/></c:a>"#).unwrap();
    assert_eq!(tree.get_node(0).unwrap().name, "a");
    assert_eq!(tree.get_node(0).unwrap().get_attribute_with_name("k"), Some("v"));
    assert_eq!(tree.get_node(1).unwrap().name, "b");
}

#[test]
fn parse_xml_unescapes_text_and_attributes() {
    let tree = XmlTree::parse_xml(r#"<a k="x &amp; y">1 &lt; 2</a>"#).unwrap();
    assert_eq!(tree.get_node(0).unwrap().get_attribute_with_name("k"), Some("x & y"));
    assert_eq!(tree.get_node(0).unwrap().get_characters(), Some("1 < 2"));
}

#[test]
fn parse_xml_rejects_what_is_no_document() {
    assert!(XmlTree::parse_xml("<a><b></a>").is_err());
    assert!(XmlTree::parse_xml("<a>").is_err());
    assert!(XmlTree::parse_xml("plain text").is_err());
    assert!(XmlTree::parse_xml("").is_err());
}

#[test]
fn nodes_with_name_finds_all_nodes_with_a_tag_in_order() {
    let tree = XmlTree::parse_xml("<a><b/><c><b/></c><b/></a>").unwrap();
    assert_eq!(tree.nodes_with_name("b"), vec![1, 3, 4]);
    assert_eq!(tree.nodes_with_name("a"), vec![0]);
    assert!(tree.nodes_with_name("z").is_empty());
}

#[test]
fn nodes_iter_gives_each_node_if_there_is_one() {
    let tree = XmlTree::parse_xml("<a><b/></a>").unwrap();
    let found = tree.nodes_iter(&[1, 7, 0]);
    assert_eq!(found.len(), 3);
    assert_eq!(found[0].unwrap().name, "b");
    assert!(found[1].is_none());
    assert_eq!(found[2].unwrap().name, "a");
}

#[test]
fn first_attribute_with_a_name_wins() {
    let node = XmlNode::new(
        "n".to_string(),
        vec![
            Attribute { name: "k".to_string(), value: "1".to_string() },
            Attribute { name: "k".to_string(), value: "2".to_string() },
        ],
        None,
    );
    assert_eq!(node.get_attribute_with_name("k"), Some("1"));
}

#[test]
fn add_child_appends_unless_the_node_holds_text() {
    let mut node = XmlNode::new("n".to_string(), vec![], Some(3));
    assert!(node.add_child(4).is_ok());
    assert!(node.add_child(9).is_ok());
    assert_eq!(node.get_children(), Some(&[4usize, 9][..]));
    assert!(node.set_data_to_characters("t".to_string()).is_err());
    assert_eq!(node.get_children(), Some(&[4usize, 9][..]));

    let mut leaf = XmlNode::new("n".to_string(), vec![], None);
    assert!(leaf.set_data_to_characters("t".to_string()).is_ok());
    assert!(leaf.add_child(1).is_err());
    assert_eq!(leaf.get_characters(), Some("t"));
    assert!(matches!(leaf.data, Some(OwnedData::Characters(_))));
}
