use collada_parser::collada::error::{ErrorKind, Stage};
use collada_parser::collada::skin::vertex_weights::VertexWeights;
use collada_parser::collada::skin::{Skin, SkinParser};
use collada_parser::math::Scalar;
use collada_parser::text::{Literal, Text};
use collada_parser::xml_tree::tree::XmlTree;

#[derive(Clone, Copy, Debug, PartialEq)]
struct Real(f32);

impl Literal for Real {
    fn value(_token: Text) -> Option<Real> {
        unreachable!()
    }

    fn parse(token: &str) -> Option<Real> {
        token.parse::<f32>().ok().map(Real)
    }
}

impl Scalar for Real {
    fn zero_value() -> Real {
        unreachable!()
    }

    fn one_value() -> Real {
        unreachable!()
    }

    fn product(_a: Real, _b: Real) -> Real {
        unreachable!()
    }

    fn zero() -> Real {
        Real(0.0)
    }

    fn one() -> Real {
        Real(1.0)
    }

    fn times(self, factor: Real) -> Real {
        Real(self.0 * factor.0)
    }
}

fn tree(text: &str) -> XmlTree {
    XmlTree::parse_xml(text).unwrap()
}

#[test]
fn pairs_of_a_vertex_start_at_the_prefix_sum() {
    let indices: Vec<usize> = (100..112).collect();
    let weights = VertexWeights::new(3, 0, 1, vec![2, 1, 3], indices).unwrap();
    assert_eq!(weights.get_nth_indices(0), Some(vec![[100, 101], [102, 103]]));
    assert_eq!(weights.get_nth_indices(1), Some(vec![[104, 105]]));
    assert_eq!(weights.get_nth_indices(2), Some(vec![[106, 107], [108, 109], [110, 111]]));
    assert_eq!(weights.get_nth_indices(3), None);
}

#[test]
fn a_vertex_without_pairs_has_an_empty_list() {
    let weights = VertexWeights::new(3, 1, 0, vec![0, 2, 0], vec![1, 2, 3, 4]).unwrap();
    assert_eq!(weights.get_nth_indices(0), Some(vec![]));
    assert_eq!(weights.get_nth_indices(1), Some(vec![[1, 2], [3, 4]]));
    assert_eq!(weights.get_nth_indices(2), Some(vec![]));
    assert_eq!(weights.get_joints_offset(), 1);
    assert_eq!(weights.get_weights_offset(), 0);
    assert_eq!(weights.count(), 3);
}

#[test]
fn pairs_beyond_the_declared_vertices_or_the_array_are_absent() {
    let weights = VertexWeights::new(2, 0, 1, vec![1, 1, 1], vec![0, 0, 1, 1, 2, 2]).unwrap();
    assert!(weights.get_nth_indices(1).is_some());
    assert!(weights.get_nth_indices(2).is_none());
    let short = VertexWeights::new(3, 0, 1, vec![1, 2], vec![0, 0, 1, 1]).unwrap();
    assert!(short.get_nth_indices(0).is_some());
    assert!(short.get_nth_indices(1).is_none());
    assert!(short.get_nth_indices(2).is_none());
    let huge = VertexWeights::new(3, 0, 1, vec![usize::MAX, usize::MAX, 1], vec![0, 0]).unwrap();
    assert!(huge.get_nth_indices(0).is_none());
    assert!(huge.get_nth_indices(2).is_none());
}

#[test]
fn joint_and_weight_must_take_the_slots_zero_and_one() {
    assert!(VertexWeights::new(0, 0, 1, vec![], vec![]).is_some());
    assert!(VertexWeights::new(0, 1, 0, vec![], vec![]).is_some());
    assert!(VertexWeights::new(0, 0, 0, vec![], vec![]).is_none());
    assert!(VertexWeights::new(0, 1, 1, vec![], vec![]).is_none());
    assert!(VertexWeights::new(0, 0, 2, vec![], vec![]).is_none());
    assert!(VertexWeights::new(0, 2, 1, vec![], vec![]).is_none());
}

const WEIGHTS: &str = r##"<vertex_weights count="2">
  <input semantic="JOINT" source="#c-joints" offset="0"/>
  <input semantic="WEIGHT" source="#c-weights" offset="1"/>
  <vcount>1 2</vcount>
  <v>0 0 1 1 0 1</v>
</vertex_weights>"##;

#[test]
fn vertex_weights_are_read_from_their_element() {
    let weights = VertexWeights::parse_vertex_weights(0, &tree(WEIGHTS)).unwrap();
    assert_eq!(weights.count(), 2);
    assert_eq!(weights.get_joints_offset(), 0);
    assert_eq!(weights.get_weights_offset(), 1);
    assert_eq!(weights.get_nth_indices(0), Some(vec![[0, 0]]));
    assert_eq!(weights.get_nth_indices(1), Some(vec![[1, 1], [0, 1]]));
}

fn weights_error(text: &str) -> (ErrorKind, Stage, Option<&'static str>) {
    let error = VertexWeights::parse_vertex_weights(0, &tree(text)).unwrap_err();
    (error.kind, error.stage, error.name)
}

#[test]
fn vertex_weights_reject_malformed_elements() {
    assert_eq!(weights_error(r#"<weights count="1"/>"#), (ErrorKind::Structure, Stage::VertexWeights, None));
    assert_eq!(weights_error(r#"<vertex_weights/>"#), (ErrorKind::Structure, Stage::VertexWeights, Some("count")));
    assert_eq!(weights_error(r#"<vertex_weights count="1"/>"#), (ErrorKind::Structure, Stage::VertexWeights, None));
    assert_eq!(
        weights_error(r#"<vertex_weights count="1"><input offset="0"/></vertex_weights>"#),
        (ErrorKind::Structure, Stage::VertexWeights, Some("semantic"))
    );
    assert_eq!(
        weights_error(r#"<vertex_weights count="1"><input semantic="JOINT"/></vertex_weights>"#),
        (ErrorKind::Structure, Stage::VertexWeights, Some("offset"))
    );
    assert_eq!(
        weights_error(r#"<vertex_weights count="1"><input semantic="JOINT" offset="0"/></vertex_weights>"#),
        (ErrorKind::Structure, Stage::VertexWeights, None)
    );
    assert_eq!(
        weights_error(r#"<vertex_weights count="1"><vcount/></vertex_weights>"#),
        (ErrorKind::Structure, Stage::VertexWeights, None)
    );
    assert_eq!(
        weights_error(r#"<vertex_weights count="1"><v>1 b</v></vertex_weights>"#),
        (ErrorKind::Literal, Stage::Array, None)
    );
}

#[test]
fn vertex_weights_with_other_slots_are_inconsistent() {
    assert_eq!(
        weights_error(r#"<vertex_weights count="1"><input semantic="JOINT" offset="0"/><input semantic="WEIGHT" offset="0"/></vertex_weights>"#),
        (ErrorKind::Consistency, Stage::VertexWeights, None)
    );
    assert_eq!(
        weights_error(r#"<vertex_weights count="1"><input semantic="JOINT" offset="1"/><input semantic="WEIGHT" offset="2"/></vertex_weights>"#),
        (ErrorKind::Consistency, Stage::VertexWeights, None)
    );
}

fn skin_text(weights: &str, poses: &str, vertex_weights: &str) -> String {
    format!(
        r##"<skin source="#body">
  <bind_shape_matrix>1 0 0 0 0 1 0 0 0 0 1 0 0 0 0 1</bind_shape_matrix>
  <source id="c-joints"><Name_array count="2">hip knee</Name_array>
    <technique_common><accessor count="2" stride="1"><param name="JOINT"/></accessor></technique_common></source>
  <source id="c-bind_poses"><float_array>{}</float_array>
    <technique_common><accessor count="2" stride="16"><param name="TRANSFORM"/></accessor></technique_common></source>
  <source id="c-weights"><float_array>{}</float_array>
    <technique_common><accessor count="2" stride="1"><param name="WEIGHT"/></accessor></technique_common></source>
  <source id="c-unrelated"><float_array>1</float_array>
    <technique_common><accessor count="1" stride="1"><param name="X"/></accessor></technique_common></source>
  {}
</skin>"##,
        poses, weights, vertex_weights
    )
}

const POSES: &str = "1 0 0 0 0 1 0 0 0 0 1 0 0 0 0 1   2 0 0 0 0 2 0 0 0 0 2 0 5 6 7 1";

#[test]
fn a_skin_resolves_its_weights() {
    let skin = Skin::<Real>::parse_skin(0, &tree(&skin_text("0.25 0.75", POSES, WEIGHTS)), "c").unwrap();
    assert_eq!(skin.source, "#body");
    assert!(skin.is_for_mesh("body"));
    assert!(!skin.is_for_mesh("#body"));
    assert_eq!(skin.joint_names, vec!["hip", "knee"]);
    assert_eq!(skin.bind_shape_matrix.values[0], Real(1.0));
    assert_eq!(skin.bind_poses.len(), 2);
    assert_eq!(skin.bind_poses[1].values[0], Real(2.0));
    assert_eq!(skin.bind_poses[1].values[12], Real(5.0));
    assert_eq!(skin.bind_poses[1].values[15], Real(1.0));
    assert_eq!(skin.vertex_weights.len(), 2);
    assert_eq!(skin.vertex_weights[0].len(), 1);
    assert_eq!((skin.vertex_weights[0][0].joint, skin.vertex_weights[0][0].weight), (0, Real(0.25)));
    assert_eq!(skin.vertex_weights[1].len(), 2);
    assert_eq!((skin.vertex_weights[1][0].joint, skin.vertex_weights[1][0].weight), (1, Real(0.75)));
    assert_eq!((skin.vertex_weights[1][1].joint, skin.vertex_weights[1][1].weight), (0, Real(0.75)));
}

#[test]
fn the_slots_of_joint_and_weight_may_be_swapped() {
    let swapped = r##"<vertex_weights count="1">
  <input semantic="WEIGHT" offset="0"/><input semantic="JOINT" offset="1"/>
  <vcount>2</vcount><v>1 0 0 1</v></vertex_weights>"##;
    let parser = SkinParser::<Real>::parse_skin(0, &tree(&skin_text("0.25 0.75", POSES, swapped)), "c").unwrap();
    let weights = parser.get_nth_vertex_weights(0).unwrap();
    assert_eq!((weights[0].joint, weights[0].weight), (0, Real(0.75)));
    assert_eq!((weights[1].joint, weights[1].weight), (1, Real(0.25)));
    assert!(parser.get_nth_vertex_weights(1).is_none());
}

fn skin_error(text: &str, name: &str) -> (ErrorKind, Stage, Option<&'static str>) {
    let error = Skin::<Real>::parse_skin(0, &tree(text), name).unwrap_err();
    (error.kind, error.stage, error.name)
}

#[test]
fn a_weight_index_out_of_range_fails_the_skin() {
    assert_eq!(skin_error(&skin_text("0.25", POSES, WEIGHTS), "c"), (ErrorKind::Consistency, Stage::Skin, None));
}

#[test]
fn a_declared_vertex_without_pairs_to_read_fails_the_skin() {
    let short = r##"<vertex_weights count="3"><input semantic="JOINT" offset="0"/><input semantic="WEIGHT" offset="1"/><vcount>1 2</vcount><v>0 0 1 1 0 1</v></vertex_weights>"##;
    assert_eq!(skin_error(&skin_text("0.25 0.75", POSES, short), "c"), (ErrorKind::Consistency, Stage::Skin, None));
}

#[test]
fn bind_poses_must_have_sixteen_entries() {
    let text = skin_text("0.25 0.75", POSES, WEIGHTS).replace(r#"stride="16""#, r#"stride="8""#);
    assert_eq!(skin_error(&text, "c"), (ErrorKind::Literal, Stage::Matrix, None));
}

#[test]
fn a_skin_needs_all_its_parts() {
    assert_eq!(skin_error("<skan/>", "c"), (ErrorKind::Structure, Stage::Skin, None));
    assert_eq!(skin_error("<skin/>", "c"), (ErrorKind::Structure, Stage::Skin, Some("source")));
    assert_eq!(skin_error(r##"<skin source="#m"/>"##, "c"), (ErrorKind::Structure, Stage::Skin, None));
    assert_eq!(skin_error(&skin_text("0.25 0.75", POSES, ""), "c"), (ErrorKind::Structure, Stage::Skin, None));
    assert_eq!(skin_error(&skin_text("0.25 0.75", POSES, WEIGHTS), "d"), (ErrorKind::Structure, Stage::Skin, None));
    assert_eq!(
        skin_error(r##"<skin source="#m"><source/></skin>"##, "c"),
        (ErrorKind::Structure, Stage::Skin, Some("id"))
    );
}

#[test]
fn a_bind_shape_matrix_needs_sixteen_literals() {
    assert_eq!(
        skin_error(r##"<skin source="#m"><bind_shape_matrix>1 0 0</bind_shape_matrix></skin>"##, "c"),
        (ErrorKind::Literal, Stage::Matrix, None)
    );
    assert_eq!(
        skin_error(r##"<skin source="#m"><bind_shape_matrix>1 0 x</bind_shape_matrix></skin>"##, "c"),
        (ErrorKind::Literal, Stage::Array, None)
    );
    assert_eq!(
        skin_error(r##"<skin source="#m"><bind_shape_matrix/></skin>"##, "c"),
        (ErrorKind::Structure, Stage::Skin, None)
    );
}
