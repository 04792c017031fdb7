use collada_parser::collada::animation::{Animation, SubAnimationParser};
use collada_parser::collada::document::controller::Controller;
use collada_parser::collada::document::geometry::Geometry;
use collada_parser::collada::document::visual_scene::{
    InstanceController, Node, NodeData, VisualScene,
};
use collada_parser::collada::document::{Document, IdMap};
use collada_parser::collada::error::{ErrorKind, Stage};
use collada_parser::collada::skeleton::Skeleton;
use collada_parser::xml_tree::tree::XmlTree;

fn tree(text: &str) -> XmlTree {
    XmlTree::parse_xml(text).unwrap()
}

fn float_source(id: &str, values: &str, count: usize, stride: usize) -> String {
    format!(
        r#"<source id="{}"><float_array>{}</float_array><technique_common><accessor count="{}" stride="{}"><param name="V"/></accessor></technique_common></source>"#,
        id, values, count, stride
    )
}

const IDENTITY: &str = "1 0 0 0 0 1 0 0 0 0 1 0 0 0 0 1";

fn curve(id: &str, times: &str, samples: usize, target: &str) -> String {
    let matrices = vec![IDENTITY; samples].join(" ");
    format!(
        r#"<animation id="{id}">{}{}{}<channel source="x" target="{target}"/></animation>"#,
        float_source(&format!("{}-input", id), times, samples, 1),
        float_source(&format!("{}-output", id), &matrices, samples, 16),
        float_source(&format!("{}-interpolation", id), "0", 1, 1),
    )
}

#[test]
fn a_curve_pairs_sample_times_with_transforms() {
    let parser = SubAnimationParser::<i64>::parse_sub_animation(0, &tree(&curve("walk", "0 10 20", 3, "hip/transform"))).unwrap();
    let made = parser.into_animation().unwrap();
    assert_eq!(made.target, "hip/transform");
    assert_eq!(made.sample_times, vec![0, 10, 20]);
    assert_eq!(made.transformations.len(), 3);
    assert_eq!(made.transformations[2].values, [1, 0, 0, 0, 0, 1, 0, 0, 0, 0, 1, 0, 0, 0, 0, 1]);
}

fn curve_error(text: &str) -> (ErrorKind, Stage, Option<&'static str>) {
    let error = match SubAnimationParser::<i64>::parse_sub_animation(0, &tree(text)) {
        Ok(parser) => parser.into_animation().unwrap_err(),
        Err(error) => error,
    };
    (error.kind, error.stage, error.name)
}

#[test]
fn a_curve_needs_times_transforms_and_target() {
    assert_eq!(curve_error(r#"<anim id="a"/>"#), (ErrorKind::Structure, Stage::Animation, None));
    assert_eq!(curve_error(r#"<animation/>"#), (ErrorKind::Structure, Stage::Animation, Some("id")));
    assert_eq!(curve_error(r#"<animation id="a"/>"#), (ErrorKind::Structure, Stage::Animation, None));
    assert_eq!(curve_error(r#"<animation id="a"><source/></animation>"#), (ErrorKind::Structure, Stage::Animation, Some("id")));
    assert_eq!(curve_error(r#"<animation id="a"><channel/></animation>"#), (ErrorKind::Structure, Stage::Animation, Some("target")));
    let no_channel = curve("a", "0", 1, "t").replace("<channel", "<chanel");
    assert_eq!(curve_error(&no_channel), (ErrorKind::Structure, Stage::Animation, None));
    let other_prefix = curve("a", "0", 1, "t").replace(r#"<animation id="a">"#, r#"<animation id="b">"#);
    assert_eq!(curve_error(&other_prefix), (ErrorKind::Structure, Stage::Animation, None));
}

#[test]
fn a_curve_needs_as_many_transforms_as_sample_times() {
    let text = curve("a", "0 1 2", 3, "t").replace(r#"<source id="a-input"><float_array>0 1 2"#, r#"<source id="a-input"><float_array>0 1"#);
    assert_eq!(curve_error(&text), (ErrorKind::Consistency, Stage::Animation, None));
}

#[test]
fn the_transforms_of_a_curve_need_sixteen_entries() {
    let text = curve("a", "0", 1, "t").replace(r#"stride="16""#, r#"stride="4""#);
    assert_eq!(curve_error(&text), (ErrorKind::Literal, Stage::Matrix, None));
}

#[test]
fn an_animation_gathers_its_curves() {
    let text = format!(r#"<animation id="all" name="All">{}{}</animation>"#, curve("walk", "0 1", 2, "hip/transform"), curve("wave", "0", 1, "hand/transform"));
    let animation = Animation::<i64>::parse_animation(0, &tree(&text)).unwrap();
    assert_eq!(animation.id, "all");
    assert_eq!(animation.name, "All");
    assert_eq!(animation.sub_animations.len(), 2);
    assert!(animation.has_target("hip/transform"));
    assert!(animation.has_target("hand/transform"));
    assert!(!animation.has_target("hip"));
    assert!(!animation.has_target(""));
}

#[test]
fn an_animation_needs_name_and_id_and_curves_only() {
    let error = Animation::<i64>::parse_animation(0, &tree(r#"<animation id="a"/>"#)).unwrap_err();
    assert_eq!((error.kind, error.stage, error.name), (ErrorKind::Structure, Stage::Animation, Some("name")));
    let error = Animation::<i64>::parse_animation(0, &tree(r#"<animation name="a"/>"#)).unwrap_err();
    assert_eq!(error.name, Some("id"));
    let error = Animation::<i64>::parse_animation(0, &tree(r#"<animation name="a" id="a"><extra/></animation>"#)).unwrap_err();
    assert_eq!((error.kind, error.stage, error.name), (ErrorKind::Structure, Stage::Animation, None));
    let empty = Animation::<i64>::parse_animation(0, &tree(r#"<animation name="a" id="a"/>"#)).unwrap();
    assert!(empty.sub_animations.is_empty());
}

#[test]
fn the_use_of_a_controller_names_its_skeleton() {
    let controller = InstanceController::parse_controller(0, &tree(r##"<instance_controller url="#skin"><skeleton>#root</skeleton><bind_material/></instance_controller>"##)).unwrap();
    assert_eq!(controller.url, "#skin");
    assert_eq!(controller.skeleton, "#root");
}

fn use_error(text: &str) -> (ErrorKind, Stage, Option<&'static str>) {
    let error = InstanceController::parse_controller(0, &tree(text)).unwrap_err();
    (error.kind, error.stage, error.name)
}

#[test]
fn the_use_of_a_controller_needs_a_url_and_exactly_one_skeleton() {
    assert_eq!(use_error("<instance_controller><skeleton>#r</skeleton></instance_controller>"), (ErrorKind::Structure, Stage::Controller, Some("url")));
    assert_eq!(use_error(r##"<instance_controller url="#s"/>"##), (ErrorKind::Structure, Stage::Controller, None));
    assert_eq!(use_error(r##"<instance_controller url="#s"><skeleton/></instance_controller>"##), (ErrorKind::Structure, Stage::Controller, None));
    assert_eq!(
        use_error(r##"<instance_controller url="#s"><skeleton>#a</skeleton><skeleton>#b</skeleton></instance_controller>"##),
        (ErrorKind::Structure, Stage::Controller, None)
    );
}

const SCENE: &str = r##"<visual_scene id="Scene">
  <node id="Armature" name="Armature" type="NODE">
    <translate>0 0 0</translate>
    <node id="root" name="root" type="JOINT">
      <scale>1 1 1</scale>
      <node id="tip" name="tip" type="JOINT"><scale>1 1 1</scale></node>
    </node>
    <node id="spare" name="spare" type="JOINT"><scale>1 1 1</scale></node>
  </node>
  <asset/>
  <node id="Body" name="Body" type="NODE">
    <translate>1 2 3</translate>
    <instance_controller url="#body-skin"><skeleton>#root</skeleton></instance_controller>
  </node>
  <node id="Lamp" name="Lamp" type="NODE"><scale>1 1 1</scale></node>
  <node id="Ghost" name="Ghost" type="NODE">
    <scale>1 1 1</scale>
    <instance_controller url="#no-skin"><skeleton>#root</skeleton></instance_controller>
  </node>
</visual_scene>"##;

#[test]
fn nodes_are_classified_by_what_they_hold() {
    let scene = VisualScene::<i64>::parse_scene(0, &tree(SCENE)).unwrap();
    assert_eq!(scene.id, "Scene");
    assert_eq!(scene.nodes.len(), 4);
    match &scene.nodes[0].data {
        NodeData::Multi { matrix, sub_nodes } => {
            assert_eq!(matrix.values[0], 1);
            assert_eq!(sub_nodes.len(), 2);
            match &sub_nodes[0].data {
                NodeData::Skeleton(skeleton) => {
                    assert_eq!(skeleton.id, "root");
                    assert_eq!(skeleton.nodes.len(), 2);
                },
                other => panic!("not a skeleton: {:?}", other),
            }
            assert!(matches!(sub_nodes[1].data, NodeData::Skeleton(_)));
        },
        other => panic!("not a group: {:?}", other),
    }
    match &scene.nodes[1].data {
        NodeData::ObjectInstance { matrix, controller } => {
            assert_eq!(&matrix.values[12..15], &[1, 2, 3]);
            assert_eq!(controller.url, "#body-skin");
            assert_eq!(controller.skeleton, "#root");
        },
        other => panic!("not an object: {:?}", other),
    }
    assert_eq!(scene.nodes[1].name, "Body");
    assert_eq!(scene.nodes[1].id, "Body");
    assert!(matches!(scene.nodes[2].data, NodeData::Other));
}

#[test]
fn skeletons_and_controllers_are_gathered_in_document_order() {
    let scene = VisualScene::<i64>::parse_scene(0, &tree(SCENE)).unwrap();
    let skeletons: Vec<&Skeleton<i64>> = scene.get_skeletons();
    let ids: Vec<&str> = skeletons.iter().map(|skeleton| skeleton.id.as_str()).collect();
    assert_eq!(ids, vec!["root", "spare"]);
    let urls: Vec<&str> = scene.get_controllers().iter().map(|controller| controller.url.as_str()).collect();
    assert_eq!(urls, vec!["#body-skin", "#no-skin"]);
    assert_eq!(scene.nodes[0].get_skeletons().len(), 2);
    assert!(scene.nodes[1].get_skeletons().is_empty());
    let mut controllers = Vec::new();
    scene.nodes[1].add_controller(&mut controllers);
    scene.nodes[2].add_controller(&mut controllers);
    assert_eq!(controllers.len(), 1);
    let mut more = Vec::new();
    scene.nodes[0].add_skeletons(&mut more);
    scene.nodes[0].add_skeletons(&mut more);
    assert_eq!(more.len(), 4);
}

#[test]
fn a_node_with_two_controllers_is_no_object() {
    let text = r##"<node id="n" name="n" type="NODE">
      <scale>1 1 1</scale>
      <instance_controller url="#a"><skeleton>#r</skeleton></instance_controller>
      <instance_controller url="#b"><skeleton>#r</skeleton></instance_controller>
      <node id="m" name="m" type="NODE"><scale>1 1 1</scale></node>
    </node>"##;
    let node = Node::<i64>::parse_node(0, &tree(text)).unwrap();
    match &node.data {
        NodeData::Multi { sub_nodes, .. } => assert_eq!(sub_nodes.len(), 1),
        other => panic!("not a group: {:?}", other),
    }
}

#[test]
fn a_node_without_children_is_a_leaf() {
    let node = Node::<i64>::parse_node(0, &tree(r#"<node id="n" name="N" type="NODE"/>"#)).unwrap();
    assert_eq!(node.id, "n");
    assert_eq!(node.name, "N");
    assert!(matches!(node.data, NodeData::Other));
    let blank = Node::<i64>::parse_node(0, &tree("<node id=\"n\" name=\"n\" type=\"NODE\">\n  \n</node>")).unwrap();
    assert!(matches!(blank.data, NodeData::Other));
    let other = Node::<i64>::parse_node(0, &tree(r#"<node id="n" name="n" type="NODE"><extra/></node>"#)).unwrap();
    assert!(matches!(other.data, NodeData::Other));
}

#[test]
fn a_group_of_leaves_has_the_identity_transform() {
    let node = Node::<i64>::parse_node(
        0,
        &tree(r#"<node id="g" name="g" type="NODE"><node id="a" name="a" type="NODE"/><node id="b" name="b" type="JOINT"/></node>"#),
    )
    .unwrap();
    match &node.data {
        NodeData::Multi { matrix, sub_nodes } => {
            assert_eq!(matrix.values, [1, 0, 0, 0, 0, 1, 0, 0, 0, 0, 1, 0, 0, 0, 0, 1]);
            assert_eq!(sub_nodes.len(), 2);
            assert!(matches!(sub_nodes[0].data, NodeData::Other));
            match &sub_nodes[1].data {
                NodeData::Skeleton(skeleton) => {
                    assert_eq!(skeleton.nodes.len(), 1);
                    assert_eq!(skeleton.nodes[0].default_trans.values, [1, 0, 0, 0, 0, 1, 0, 0, 0, 0, 1, 0, 0, 0, 0, 1]);
                },
                other => panic!("not a skeleton: {:?}", other),
            }
        },
        other => panic!("not a group: {:?}", other),
    }
}

fn node_error(text: &str) -> (ErrorKind, Stage, Option<&'static str>) {
    let error = Node::<i64>::parse_node(0, &tree(text)).unwrap_err();
    (error.kind, error.stage, error.name)
}

#[test]
fn a_node_needs_id_name_and_type() {
    assert_eq!(node_error(r#"<node name="n" type="NODE"><scale>1 1 1</scale></node>"#), (ErrorKind::Structure, Stage::SceneNode, Some("id")));
    assert_eq!(node_error(r#"<node id="n" type="NODE"><scale>1 1 1</scale></node>"#), (ErrorKind::Structure, Stage::SceneNode, Some("name")));
    assert_eq!(node_error(r#"<node id="n" name="n"><scale>1 1 1</scale></node>"#), (ErrorKind::Structure, Stage::SceneNode, Some("type")));
    assert_eq!(
        node_error(r##"<node id="n" name="n" type="NODE"><instance_controller url="#a"/></node>"##),
        (ErrorKind::Structure, Stage::Controller, None)
    );
    assert_eq!(
        node_error(r#"<node id="n" name="n" type="NODE"><node id="m" name="m"><scale>1 1 1</scale></node></node>"#),
        (ErrorKind::Structure, Stage::SceneNode, Some("type"))
    );
}

#[test]
fn a_scene_needs_the_right_tag_and_an_id() {
    let error = VisualScene::<i64>::parse_scene(0, &tree(r#"<scene id="s"/>"#)).unwrap_err();
    assert_eq!((error.kind, error.stage, error.name), (ErrorKind::Structure, Stage::VisualScene, None));
    let error = VisualScene::<i64>::parse_scene(0, &tree(r#"<visual_scene/>"#)).unwrap_err();
    assert_eq!((error.kind, error.stage, error.name), (ErrorKind::Structure, Stage::VisualScene, Some("id")));
    let empty = VisualScene::<i64>::parse_scene(0, &tree(r#"<visual_scene id="s"/>"#)).unwrap();
    assert!(empty.nodes.is_empty());
    assert!(empty.get_skeletons().is_empty());
}

fn mesh_text(x: i64) -> String {
    format!(
        r##"<mesh>
  <source id="pos"><float_array>{x} 0 0  1 0 0  0 1 0</float_array>
    <technique_common><accessor count="3" stride="3"><param name="X"/><param name="Y"/><param name="Z"/></accessor></technique_common></source>
  <vertices id="verts"><input semantic="POSITION" source="#pos"/></vertices>
  <triangles count="1"><input semantic="VERTEX" source="#verts" offset="0"/><p>0 1 2</p></triangles>
</mesh>"##
    )
}

fn skin_text(mesh: &str, name: &str) -> String {
    format!(
        r##"<skin source="#{mesh}">
  <bind_shape_matrix>{IDENTITY}</bind_shape_matrix>
  <source id="{name}-joints"><Name_array>root tip</Name_array>
    <technique_common><accessor count="2" stride="1"><param name="JOINT"/></accessor></technique_common></source>
  {}
  {}
  <vertex_weights count="3">
    <input semantic="JOINT" offset="0"/><input semantic="WEIGHT" offset="1"/>
    <vcount>1 1 2</vcount><v>0 0 1 0 0 1 1 1</v>
  </vertex_weights>
</skin>"##,
        float_source(&format!("{}-bind_poses", name), &format!("{} {}", IDENTITY, IDENTITY), 2, 16),
        float_source(&format!("{}-weights", name), "1 5", 2, 1),
    )
}

fn document_text() -> String {
    format!(
        r##"<?xml version="1.0" encoding="utf-8"?>
<COLLADA version="1.4.1">
  <asset><unit name="meter" meter="1"/></asset>
  <library_geometries>
    <geometry id="body" name="Body">{}</geometry>
    <geometry id="prop" name="Prop">{}</geometry>
    <geometry id="body" name="Body again">{}</geometry>
  </library_geometries>
  <library_animations>
    <animation id="act" name="Act">{}</animation>
    <animation id="idle" name="Idle">{}</animation>
  </library_animations>
  <library_controllers>
    <controller id="body-skin">{}</controller>
    <controller id="lost-skin">{}</controller>
  </library_controllers>
  <library_visual_scenes>
    {}
    <visual_scene id="Empty"/>
  </library_visual_scenes>
</COLLADA>"##,
        mesh_text(7),
        mesh_text(8),
        mesh_text(9),
        curve("act", "0 1", 2, "root/transform"),
        curve("idle", "0", 1, "tip/transform"),
        skin_text("body", "body-skin"),
        skin_text("nowhere", "lost-skin"),
        SCENE,
    )
}

#[test]
fn a_document_keeps_its_libraries_by_id() {
    let document = Document::<i64>::parse_from_text(&document_text()).unwrap();
    assert_eq!(document.geometries.len(), 2);
    assert_eq!(document.animations.len(), 2);
    assert_eq!(document.skins.len(), 2);
    assert_eq!(document.scenes.len(), 2);
    assert!(document.mesh_with_name("prop").is_some());
    assert!(document.mesh_with_name("#prop").is_none());
    assert!(document.get_skin_with_name("body-skin").is_some());
    assert!(document.get_skin_with_name("body").is_none());
    let ids: Vec<&str> = document.mesh_iter().iter().map(|(id, _)| id.as_str()).collect();
    assert_eq!(ids, vec!["body", "prop"]);
}

#[test]
fn a_later_entry_takes_the_place_of_an_earlier_with_the_same_id() {
    let document = Document::<i64>::parse_from_text(&document_text()).unwrap();
    assert_eq!(document.mesh_with_name("body").unwrap().vertices[0].x, 9);
    assert_eq!(document.mesh_with_name("prop").unwrap().vertices[0].x, 8);
}

#[test]
fn animations_are_found_by_their_target() {
    let document = Document::<i64>::parse_from_text(&document_text()).unwrap();
    let found = document.animations_with_target("tip/transform");
    assert_eq!(found.len(), 1);
    assert_eq!(found[0].id, "idle");
    assert!(document.animations_with_target("nothing").is_empty());
}

#[test]
fn skins_are_found_by_their_mesh() {
    let document = Document::<i64>::parse_from_text(&document_text()).unwrap();
    let found = document.skin_with_source_iter("body");
    assert_eq!(found.len(), 1);
    assert_eq!(found[0].0, "body-skin");
    assert_eq!(document.skin_with_source_iter("nowhere").len(), 1);
    assert!(document.skin_with_source_iter("prop").is_empty());
}

#[test]
fn a_scene_links_skins_skeletons_and_meshes() {
    let document = Document::<i64>::parse_from_text(&document_text()).unwrap();
    let triples = document.skin_skeleton_mesh_iter(0);
    assert_eq!(triples.len(), 1);
    let (skin, skeleton, mesh) = triples[0];
    assert_eq!(skin.source, "#body");
    assert_eq!(skin.joint_names, vec!["root", "tip"]);
    assert_eq!(skin.vertex_weights[2].len(), 2);
    assert_eq!(skin.vertex_weights[2][1].weight, 5);
    assert_eq!(skeleton.id, "root");
    assert_eq!(mesh.vertices[0].x, 9);
    assert!(document.skin_skeleton_mesh_iter(1).is_empty());
    assert!(document.skin_skeleton_mesh_iter(2).is_empty());
}

#[test]
fn a_use_that_does_not_resolve_is_left_out() {
    let text = document_text().replace("<skeleton>#root</skeleton>", "<skeleton>#tip</skeleton>");
    let document = Document::<i64>::parse_from_text(&text).unwrap();
    assert!(document.skin_skeleton_mesh_iter(0).is_empty());
    let text = document_text().replace(r##"url="#no-skin""##, r##"url="#lost-skin""##);
    let document = Document::<i64>::parse_from_text(&text).unwrap();
    assert_eq!(document.skin_skeleton_mesh_iter(0).len(), 1);
}

#[test]
fn the_skeletons_of_a_document_are_those_of_its_scenes() {
    let document = Document::<i64>::parse_from_text(&document_text()).unwrap();
    assert_eq!(document.get_skeletons().len(), 2);
    assert_eq!(document.nth_scene_skeletons(0).len(), 2);
    assert!(document.nth_scene_skeletons(1).is_empty());
    assert!(document.nth_scene_skeletons(9).is_empty());
}

#[test]
fn a_document_without_libraries_is_empty() {
    let document = Document::<i64>::parse_from_text("<COLLADA/>").unwrap();
    assert_eq!(document.geometries.len(), 0);
    assert_eq!(document.scenes.len(), 0);
    let new = Document::<i64>::new();
    assert_eq!(new.skins.len(), 0);
    assert!(new.get_skeletons().is_empty());
}

#[test]
fn text_that_is_no_document_fails_at_the_tree() {
    let error = Document::<i64>::parse_from_text("<COLLADA><a></COLLADA>").unwrap_err();
    assert_eq!((error.kind, error.stage, error.name), (ErrorKind::Structure, Stage::Xml, None));
}

#[test]
fn the_first_failing_entry_fails_the_document() {
    let text = document_text().replace(r#"<geometry id="prop" name="Prop">"#, r#"<geometry name="Prop">"#);
    let error = Document::<i64>::parse_from_text(&text).unwrap_err();
    assert_eq!((error.kind, error.stage, error.name), (ErrorKind::Structure, Stage::Geometry, Some("id")));
    let text = document_text().replace(r#"<controller id="lost-skin">"#, r#"<controller>"#);
    let error = Document::<i64>::parse_from_text(&text).unwrap_err();
    assert_eq!((error.kind, error.stage, error.name), (ErrorKind::Structure, Stage::Controller, Some("id")));
    let text = document_text().replace(r#"<animation id="idle" name="Idle">"#, r#"<animation id="idle">"#);
    let error = Document::<i64>::parse_from_text(&text).unwrap_err();
    assert_eq!((error.kind, error.stage, error.name), (ErrorKind::Structure, Stage::Animation, Some("name")));
    let text = document_text().replace(r#"<visual_scene id="Empty"/>"#, r#"<visual_scene/>"#);
    let error = Document::<i64>::parse_from_text(&text).unwrap_err();
    assert_eq!((error.kind, error.stage, error.name), (ErrorKind::Structure, Stage::VisualScene, Some("id")));
}

#[test]
fn the_libraries_are_decoded_one_by_one() {
    let parsed = tree(&document_text());
    let mut document = Document::<i64>::new();
    document.parse_skins(&parsed).unwrap();
    assert_eq!(document.skins.len(), 2);
    assert_eq!(document.geometries.len(), 0);
    document.parse_geometries(&parsed).unwrap();
    document.parse_geometries(&parsed).unwrap();
    assert_eq!(document.geometries.len(), 2);
    document.parse_visual_scenes(&parsed).unwrap();
    document.parse_visual_scenes(&parsed).unwrap();
    assert_eq!(document.scenes.len(), 4);
    document.parse_animations(&parsed).unwrap();
    assert_eq!(document.animations.len(), 2);
    let whole = Document::<i64>::parse_document(&parsed).unwrap();
    assert_eq!(whole.scenes.len(), 2);
}

#[test]
fn a_library_that_fails_leaves_the_document_as_it_was() {
    let good = tree(&document_text());
    let mut document = Document::<i64>::parse_document(&good).unwrap();
    let text = document_text()
        .replace(r#"<geometry id="body" name="Body again">"#, r#"<geometry name="Body again">"#)
        .replace(r#"<geometry id="prop" name="Prop">"#, r#"<geometry id="extra" name="Prop">"#)
        .replace(r#"<animation id="idle" name="Idle">"#, r#"<animation id="idle">"#)
        .replace(r#"<controller id="lost-skin">"#, r#"<controller>"#)
        .replace(r#"<visual_scene id="Empty"/>"#, r#"<visual_scene/>"#);
    let bad = tree(&text);
    assert!(document.parse_geometries(&bad).is_err());
    assert_eq!(document.geometries.len(), 2);
    assert!(document.mesh_with_name("extra").is_none());
    assert_eq!(document.mesh_with_name("body").unwrap().vertices[0].x, 9);
    assert!(document.parse_animations(&bad).is_err());
    assert_eq!(document.animations.len(), 2);
    assert!(document.parse_skins(&bad).is_err());
    assert_eq!(document.skins.len(), 2);
    assert!(document.parse_visual_scenes(&bad).is_err());
    assert_eq!(document.scenes.len(), 2);
}

#[test]
fn a_library_that_decodes_is_added_in_document_order() {
    let parsed = tree(&document_text());
    let mut document = Document::<i64>::new();
    let text = format!(r#"<geometry id="g">{}</geometry>"#, mesh_text(1));
    let geometry = Geometry::<i64>::parse_geometry(0, &tree(&text)).unwrap();
    document.geometries.insert("prop".to_string(), geometry.mesh);
    assert_eq!(document.mesh_with_name("prop").unwrap().vertices[0].x, 1);
    document.parse_geometries(&parsed).unwrap();
    let ids: Vec<&str> = document.mesh_iter().iter().map(|(id, _)| id.as_str()).collect();
    assert_eq!(ids, vec!["prop", "body"]);
    assert_eq!(document.mesh_with_name("prop").unwrap().vertices[0].x, 8);
    assert_eq!(document.mesh_with_name("body").unwrap().vertices[0].x, 9);
}

#[test]
fn a_geometry_needs_exactly_one_mesh() {
    let text = format!(r#"<geometry id="g">{}</geometry>"#, mesh_text(1));
    let geometry = Geometry::<i64>::parse_geometry(0, &tree(&text)).unwrap();
    assert_eq!(geometry.id, "g");
    assert_eq!(geometry.mesh.vertices.len(), 3);
    let error = Geometry::<i64>::parse_geometry(0, &tree(r#"<geometry id="g"/>"#)).unwrap_err();
    assert_eq!((error.kind, error.stage, error.name), (ErrorKind::Structure, Stage::Geometry, None));
    let error = Geometry::<i64>::parse_geometry(0, &tree(r#"<geometry id="g"><extra/></geometry>"#)).unwrap_err();
    assert_eq!((error.kind, error.stage, error.name), (ErrorKind::Structure, Stage::Geometry, None));
    let twice = format!(r#"<geometry id="g">{}{}</geometry>"#, mesh_text(1), mesh_text(2));
    let error = Geometry::<i64>::parse_geometry(0, &tree(&twice)).unwrap_err();
    assert_eq!((error.kind, error.stage, error.name), (ErrorKind::Structure, Stage::Geometry, None));
    let error = Geometry::<i64>::parse_geometry(0, &tree(r#"<geometri id="g"/>"#)).unwrap_err();
    assert_eq!((error.kind, error.stage, error.name), (ErrorKind::Structure, Stage::Geometry, None));
}

#[test]
fn a_controller_needs_exactly_one_skin() {
    let text = format!(r#"<controller id="c">{}</controller>"#, skin_text("body", "c"));
    let controller = Controller::<i64>::parse_controller(0, &tree(&text)).unwrap();
    assert_eq!(controller.id, "c");
    assert_eq!(controller.mesh_source(), "body");
    let error = Controller::<i64>::parse_controller(0, &tree(r#"<controller id="c"><morph/></controller>"#)).unwrap_err();
    assert_eq!((error.kind, error.stage, error.name), (ErrorKind::Structure, Stage::Controller, None));
    let twice = format!(r#"<controller id="c">{}{}</controller>"#, skin_text("body", "c"), skin_text("body", "c"));
    let error = Controller::<i64>::parse_controller(0, &tree(&twice)).unwrap_err();
    assert_eq!((error.kind, error.stage, error.name), (ErrorKind::Structure, Stage::Controller, None));
    let error = Controller::<i64>::parse_controller(0, &tree(r#"<controller id="c"/>"#)).unwrap_err();
    assert_eq!((error.kind, error.stage, error.name), (ErrorKind::Structure, Stage::Controller, None));
}

#[test]
fn an_id_map_keeps_the_order_in_which_ids_came() {
    let mut map: IdMap<Vec<usize>> = IdMap::new();
    assert_eq!(map.len(), 0);
    assert!(map.get("a").is_none());
    map.insert("a".to_string(), vec![1]);
    map.insert("b".to_string(), vec![2]);
    map.insert("a".to_string(), vec![3]);
    assert_eq!(map.len(), 2);
    assert_eq!(map.get("a"), Some(&vec![3]));
    assert_eq!(map.get("b"), Some(&vec![2]));
    assert!(map.get("c").is_none());
    assert_eq!(map.entry(0), Some((&"a".to_string(), &vec![3])));
    assert_eq!(map.entry(1), Some((&"b".to_string(), &vec![2])));
    assert_eq!(map.entry(2), None);
}
