use collada_parser::collada::error::{ErrorKind, Stage};
use collada_parser::collada::mesh::primitive_elements::Shape;
use collada_parser::collada::mesh::vertices::Vertices;
use collada_parser::collada::mesh::{find_component, Attributes, GenericMesh, MeshParser, Vertex};
use collada_parser::collada::source::DataSource;
use collada_parser::collada::Mesh;
use collada_parser::math::{Scalar, Vector3};
use collada_parser::text::{Literal, Text};
use collada_parser::xml_tree::tree::XmlTree;

#[derive(Clone, Copy, Debug, PartialEq)]
struct Real(f32);

impl Literal for Real {
    fn value(_token: Text) -> Option<Real> {
        unreachable!()
    }

    fn parse(token: &str) -> Option<Real> {
        token.parse::<f32>().ok().map(Real)
    }
}

impl Scalar for Real {
    fn zero_value() -> Real {
        unreachable!()
    }

    fn one_value() -> Real {
        unreachable!()
    }

    fn product(_a: Real, _b: Real) -> Real {
        unreachable!()
    }

    fn zero() -> Real {
        Real(0.0)
    }

    fn one() -> Real {
        Real(1.0)
    }

    fn times(self, factor: Real) -> Real {
        Real(self.0 * factor.0)
    }
}

fn tree(text: &str) -> XmlTree {
    XmlTree::parse_xml(text).unwrap()
}

fn source(id: &str, values: &str, count: usize, names: &[&str]) -> String {
    let params: String = names.iter().map(|name| format!(r#"<param name="{}"/>"#, name)).collect();
    format!(
        r#"<source id="{}"><float_array>{}</float_array><technique_common><accessor count="{}" stride="{}">{}</accessor></technique_common></source>"#,
        id,
        values,
        count,
        names.len(),
        params
    )
}

fn full_mesh() -> String {
    format!(
        r##"<mesh>{}{}{}{}
<vertices id="verts"><input semantic="POSITION" source="#pos"/></vertices>
<triangles count="1">
  <input semantic="VERTEX" source="#verts" offset="0"/>
  <input semantic="NORMAL" source="#nor" offset="1"/>
  <input semantic="TEXCOORD" source="#uv" offset="2"/>
  <input semantic="COLOR" source="#col" offset="3"/>
  <p>0 0 0 0  1 0 1 1  2 1 0 1</p>
</triangles>
<lines count="1">
  <input semantic="COLOR" source="#col" offset="0"/>
  <input semantic="TEXCOORD" source="#uv" offset="1"/>
  <input semantic="NORMAL" source="#nor" offset="2"/>
  <input semantic="VERTEX" source="#verts" offset="3"/>
  <p>1 1 1 2  0 0 0 1</p>
</lines>
</mesh>"##,
        source("pos", "0 0 0  1 0 0  0 1 0", 3, &["X", "Y", "Z"]),
        source("nor", "0 0 1  0 0 -1", 2, &["Z", "X", "Y"]),
        source("uv", "0.25 0.75  0.5 1", 2, &["S", "T"]),
        source("col", "1 0 0 1  0 1 0 0.5", 2, &["R", "G", "B", "A"]),
    )
}

#[test]
fn a_mesh_is_assembled_from_its_parts() {
    let mesh: Mesh<Real> = GenericMesh::parse_mesh(0, &tree(&full_mesh())).unwrap();
    assert_eq!(mesh.vertices.len(), 3);
    assert_eq!((mesh.vertices[1].x, mesh.vertices[1].y, mesh.vertices[1].z), (Real(1.0), Real(0.0), Real(0.0)));
    assert_eq!(mesh.normals.len(), 2);
    assert_eq!((mesh.normals[0].x, mesh.normals[0].y, mesh.normals[0].z), (Real(0.0), Real(1.0), Real(0.0)));
    assert_eq!((mesh.normals[1].x, mesh.normals[1].y, mesh.normals[1].z), (Real(0.0), Real(-1.0), Real(0.0)));
    assert_eq!(mesh.tex_coords.len(), 2);
    assert_eq!((mesh.tex_coords[0].x, mesh.tex_coords[0].y), (Real(0.25), Real(0.75)));
    assert_eq!((mesh.tex_coords[1].x, mesh.tex_coords[1].y), (Real(0.5), Real(1.0)));
    assert_eq!(mesh.colors.len(), 2);
    assert_eq!((mesh.colors[1].x, mesh.colors[1].y, mesh.colors[1].z), (Real(0.0), Real(1.0), Real(0.0)));
    assert_eq!(mesh.shapes.len(), 2);
    assert!(matches!(
        mesh.shapes[0],
        Shape::Triangle(
            (0, Some(0), Some(0), Some(0)),
            (1, Some(1), Some(0), Some(1)),
            (2, Some(0), Some(1), Some(1))
        )
    ));
    assert!(matches!(
        mesh.shapes[1],
        Shape::Line((2, Some(1), Some(1), Some(1)), (1, Some(0), Some(0), Some(0)))
    ));
}

#[test]
fn the_parts_of_a_mesh_are_decoded_one_by_one() {
    let parser = MeshParser::<Real>::parse_mesh(0, &tree(&full_mesh())).unwrap();
    assert_eq!(parser.sources.len(), 4);
    assert_eq!(parser.primitive_elements.len(), 2);
    assert_eq!(parser.vertices.get_id(), "verts");
    assert_eq!(parser.vertices.count(), Some(3));
    assert!(parser.vertices.is_mapped(4));
    assert_eq!(parser.get_source_with_name("uv").unwrap().get_id(), "uv");
    assert!(parser.get_source_with_name("#uv").is_none());
    let attributes = parser.vertices.get_nth_attributes(2, &parser.sources);
    assert_eq!(attributes.len(), 1);
    assert_eq!(attributes[0].0, "POSITION");
    assert_eq!(attributes[0].1.len(), 3);
    assert_eq!(attributes[0].2, Some(&[Real(0.0), Real(1.0), Real(0.0)][..]));
    assert_eq!(parser.vertices.get_nth_attributes(3, &parser.sources)[0].2, None);
    let parameters = parser.vertices.get_attributes_parameters(&parser.sources);
    assert_eq!(parameters.len(), 1);
    assert_eq!(parameters[0].0, "POSITION");
    assert_eq!(parameters[0].1[2], "Z");
}

fn mesh_error(text: &str) -> (ErrorKind, Stage, Option<&'static str>) {
    let error = GenericMesh::<Vector3<Real>, Real>::parse_mesh(0, &tree(text)).unwrap_err();
    (error.kind, error.stage, error.name)
}

fn mesh_with(sources: &str, vertices: &str, primitives: &str) -> String {
    format!("<mesh>{}{}{}</mesh>", sources, vertices, primitives)
}

const VERTS: &str = r##"<vertices id="verts"><input semantic="POSITION" source="#pos"/></vertices>"##;
const TRIANGLE: &str = r##"<triangles count="1"><input semantic="VERTEX" source="#verts" offset="0"/><p>0 1 2</p></triangles>"##;

fn positions() -> String {
    source("pos", "0 0 0  1 0 0  0 1 0", 3, &["X", "Y", "Z"])
}

#[test]
fn a_mesh_needs_the_right_tag() {
    assert_eq!(mesh_error("<mash><a/></mash>"), (ErrorKind::Structure, Stage::Mesh, None));
}

#[test]
fn a_mesh_without_children_has_no_parts() {
    let parser = MeshParser::<Real>::parse_mesh(0, &tree("<mesh/>")).unwrap();
    assert!(parser.sources.is_empty());
    assert!(parser.primitive_elements.is_empty());
    assert_eq!(parser.vertices.count(), None);
    assert_eq!(mesh_error("<mesh/>"), (ErrorKind::Structure, Stage::MeshAssembly, None));
}

#[test]
fn a_mesh_needs_a_primitive_list() {
    assert_eq!(mesh_error(&mesh_with(&positions(), VERTS, "")), (ErrorKind::Structure, Stage::MeshAssembly, None));
}

#[test]
fn the_vertex_input_must_name_the_vertices_element() {
    let other = r##"<triangles count="1"><input semantic="VERTEX" source="#other" offset="0"/><p>0 1 2</p></triangles>"##;
    assert_eq!(mesh_error(&mesh_with(&positions(), VERTS, other)), (ErrorKind::Reference, Stage::MeshAssembly, None));
}

#[test]
fn primitive_lists_must_name_the_same_sources() {
    let normals = source("nor", "0 0 1", 1, &["X", "Y", "Z"]);
    let with_normals = r##"<triangles count="1"><input semantic="VERTEX" source="#verts" offset="0"/><input semantic="NORMAL" source="#nor" offset="1"/><p>0 0 1 0 2 0</p></triangles>"##;
    let text = mesh_with(&format!("{}{}", positions(), normals), VERTS, &format!("{}{}", TRIANGLE, with_normals));
    assert_eq!(mesh_error(&text), (ErrorKind::Consistency, Stage::MeshAssembly, None));
}

#[test]
fn vertex_inputs_must_name_sources_of_the_mesh() {
    let verts = r##"<vertices id="verts"><input semantic="POSITION" source="#nowhere"/></vertices>"##;
    assert_eq!(mesh_error(&mesh_with(&positions(), verts, TRIANGLE)), (ErrorKind::Reference, Stage::MissingSource, None));
}

#[test]
fn vertex_inputs_must_agree_on_the_count() {
    let more = source("extra", "1 2", 2, &["U"]);
    let verts = r##"<vertices id="verts"><input semantic="POSITION" source="#pos"/><input semantic="EXTRA" source="#extra"/></vertices>"##;
    assert_eq!(
        mesh_error(&mesh_with(&format!("{}{}", positions(), more), verts, TRIANGLE)),
        (ErrorKind::Consistency, Stage::Vertices, None)
    );
}

#[test]
fn a_mesh_without_vertex_inputs_has_no_count() {
    let verts = r##"<vertices id="verts"/>"##;
    assert_eq!(mesh_error(&mesh_with(&positions(), verts, TRIANGLE)), (ErrorKind::Structure, Stage::MeshAssembly, None));
}

#[test]
fn a_vertex_needs_its_position() {
    let verts = r##"<vertices id="verts"><input semantic="NORMAL" source="#pos"/></vertices>"##;
    assert_eq!(mesh_error(&mesh_with(&positions(), verts, TRIANGLE)), (ErrorKind::Structure, Stage::MeshAssembly, None));
    let twice = r##"<vertices id="verts"><input semantic="POSITION" source="#pos"/><input semantic="POSITION" source="#pos"/></vertices>"##;
    assert_eq!(mesh_error(&mesh_with(&positions(), twice, TRIANGLE)), (ErrorKind::Structure, Stage::MeshAssembly, None));
    let flat = source("pos", "0 0  1 0  0 1", 3, &["X", "Y"]);
    assert_eq!(mesh_error(&mesh_with(&flat, VERTS, TRIANGLE)), (ErrorKind::Structure, Stage::MeshAssembly, None));
    let short = source("pos", "0 0 0  1 0 0", 3, &["X", "Y", "Z"]);
    assert_eq!(mesh_error(&mesh_with(&short, VERTS, TRIANGLE)), (ErrorKind::Structure, Stage::MeshAssembly, None));
}

#[test]
fn normals_need_their_source_and_its_components() {
    let with_normals = r##"<triangles count="1"><input semantic="VERTEX" source="#verts" offset="0"/><input semantic="NORMAL" source="#nor" offset="1"/><p>0 0 1 0 2 0</p></triangles>"##;
    assert_eq!(mesh_error(&mesh_with(&positions(), VERTS, with_normals)), (ErrorKind::Reference, Stage::MeshAssembly, None));
    let unnamed = source("nor", "0 0 1", 1, &["A", "B", "C"]);
    assert_eq!(
        mesh_error(&mesh_with(&format!("{}{}", positions(), unnamed), VERTS, with_normals)),
        (ErrorKind::Structure, Stage::MeshAssembly, None)
    );
}

#[test]
fn colors_need_three_components() {
    let with_colors = r##"<triangles count="1"><input semantic="VERTEX" source="#verts" offset="0"/><input semantic="COLOR" source="#col" offset="1"/><p>0 0 1 0 2 0</p></triangles>"##;
    let thin = source("col", "1 0 1 0", 2, &["R", "G"]);
    assert_eq!(
        mesh_error(&mesh_with(&format!("{}{}", positions(), thin), VERTS, with_colors)),
        (ErrorKind::Structure, Stage::MeshAssembly, None)
    );
}

#[test]
fn a_mesh_passes_on_the_failures_of_its_parts() {
    let bad_source = r##"<source id="pos"><float_array>0 zero</float_array></source>"##;
    assert_eq!(mesh_error(&mesh_with(bad_source, VERTS, TRIANGLE)), (ErrorKind::Literal, Stage::Array, None));
    let bad_verts = r##"<vertices><input semantic="POSITION" source="#pos"/></vertices>"##;
    assert_eq!(mesh_error(&mesh_with(&positions(), bad_verts, TRIANGLE)), (ErrorKind::Structure, Stage::Vertices, Some("id")));
    let bad_input = r##"<vertices id="verts"><input source="#pos"/></vertices>"##;
    assert_eq!(mesh_error(&mesh_with(&positions(), bad_input, TRIANGLE)), (ErrorKind::Structure, Stage::Vertices, Some("semantic")));
    let bad_list = r##"<triangles><input semantic="VERTEX" source="#verts" offset="0"/><p>0 1 2</p></triangles>"##;
    assert_eq!(mesh_error(&mesh_with(&positions(), VERTS, bad_list)), (ErrorKind::Structure, Stage::PrimitiveElement, Some("count")));
}

#[test]
fn vertices_resolve_their_inputs_against_sources() {
    let sources: Vec<DataSource<i64>> = vec![
        DataSource::parse_source(0, &tree(&source("a", "1 2 3 4", 2, &["X", "Y"])), "float_array").unwrap(),
        DataSource::parse_source(0, &tree(&source("b", "5 6", 2, &["W"])), "float_array").unwrap(),
    ];
    let mut vertices = Vertices::parse_vertices(
        0,
        &tree(r##"<vertices id="v"><input semantic="WEIGHT" source="#b"/><input semantic="POSITION" source="#a"/></vertices>"##),
    )
    .unwrap();
    assert_eq!(vertices.count(), None);
    assert!(!vertices.is_mapped(2));
    assert!(vertices.map_semantics(&sources).is_ok());
    assert_eq!(vertices.count(), Some(2));
    assert!(vertices.is_mapped(2));
    let attributes = vertices.get_nth_attributes(1, &sources);
    assert_eq!(attributes[0].0, "WEIGHT");
    assert_eq!(attributes[0].2, Some(&[6i64][..]));
    assert_eq!(attributes[1].0, "POSITION");
    assert_eq!(attributes[1].2, Some(&[3i64, 4][..]));
}

#[test]
fn vertices_that_do_not_resolve_stay_as_they_were() {
    let sources: Vec<DataSource<i64>> = vec![
        DataSource::parse_source(0, &tree(&source("a", "1 2", 2, &["X"])), "float_array").unwrap(),
    ];
    let mut vertices = Vertices::parse_vertices(
        0,
        &tree(r##"<vertices id="v"><input semantic="POSITION" source="#a"/><input semantic="NORMAL" source="#zz"/></vertices>"##),
    )
    .unwrap();
    let error = vertices.map_semantics(&sources).unwrap_err();
    assert_eq!((error.kind, error.stage), (ErrorKind::Reference, Stage::MissingSource));
    assert_eq!(vertices.count(), None);
    assert!(!vertices.is_mapped(1));
}

#[test]
fn new_vertices_are_empty_and_resolve_to_no_count() {
    let mut vertices = Vertices::new();
    assert_eq!(vertices.get_id(), "");
    let sources: Vec<DataSource<i64>> = vec![];
    assert!(vertices.map_semantics(&sources).is_ok());
    assert_eq!(vertices.count(), None);
    assert!(vertices.is_mapped(0));
}

#[test]
fn find_component_gives_the_last_position_of_a_name() {
    let names = vec!["X".to_string(), "Y".to_string(), "X".to_string()];
    assert_eq!(find_component(&names, "X"), Some(2));
    assert_eq!(find_component(&names, "Y"), Some(1));
    assert_eq!(find_component(&names, "Z"), None);
}

#[test]
fn a_position_vertex_reads_its_components_by_name() {
    let names = vec!["Z".to_string(), "X".to_string(), "Y".to_string()];
    let data = [Real(3.0), Real(1.0), Real(2.0)];
    let vertex = Vector3::<Real>::from_attributes(&vec![("POSITION", &names[..], Some(&data[..]))]).unwrap();
    assert_eq!((vertex.x, vertex.y, vertex.z), (Real(1.0), Real(2.0), Real(3.0)));
    let other = vec!["U".to_string()];
    let weight = [Real(9.0)];
    let vertex = Vector3::<Real>::from_attributes(&vec![
        ("WEIGHT", &other[..], Some(&weight[..])),
        ("POSITION", &names[..], Some(&data[..])),
    ])
    .unwrap();
    assert_eq!(vertex.y, Real(2.0));
}

#[test]
fn a_position_vertex_fails_on_a_missing_double_or_malformed_position() {
    let names = vec!["X".to_string(), "Y".to_string(), "Z".to_string()];
    let data = [Real(1.0), Real(2.0), Real(3.0)];
    let none: Vec<(&str, &[String], Option<&[Real]>)> = vec![];
    assert!(Vector3::<Real>::from_attributes(&none).is_none());
    assert!(Vector3::<Real>::from_attributes(&vec![("NORMAL", &names[..], Some(&data[..]))]).is_none());
    assert!(Vector3::<Real>::from_attributes(&vec![
        ("POSITION", &names[..], Some(&data[..])),
        ("POSITION", &names[..], Some(&data[..])),
    ])
    .is_none());
    assert!(Vector3::<Real>::from_attributes(&vec![("POSITION", &names[..], None)]).is_none());
    assert!(Vector3::<Real>::from_attributes(&vec![("POSITION", &names[..], Some(&data[..2]))]).is_none());
    assert!(Vector3::<Real>::from_attributes(&vec![("POSITION", &names[..2], Some(&data[..]))]).is_none());
    let four = vec!["X".to_string(), "Y".to_string(), "W".to_string(), "Z".to_string()];
    assert!(Vector3::<Real>::from_attributes(&vec![("POSITION", &four[..], Some(&data[..]))]).is_none());
}

#[derive(Debug, PartialEq)]
struct Counted(usize);

impl Vertex<Real> for Counted {
    fn build(_attributes: Attributes<Real>) -> Option<Counted> {
        unreachable!()
    }

    fn from_attributes(attributes: &Vec<(&str, &[String], Option<&[Real]>)>) -> Option<Counted> {
        if attributes.iter().all(|(_, _, data)| data.is_some()) {
            Some(Counted(attributes.len()))
        } else {
            None
        }
    }
}

#[test]
fn a_mesh_is_generic_over_the_vertex_representation() {
    let mesh: GenericMesh<Counted, Real> = GenericMesh::parse_mesh(0, &tree(&full_mesh())).unwrap();
    assert_eq!(mesh.vertices, vec![Counted(1), Counted(1), Counted(1)]);
}
