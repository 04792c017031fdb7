use collada_parser::collada::document::Document;
use collada_parser::collada::error::{ErrorKind, Stage};
use collada_parser::collada::mesh::primitive_elements::Shape;
use collada_parser::math::Scalar;
use collada_parser::text::{Literal, Text};

#[derive(Clone, Copy, Debug, PartialEq)]
struct Real(f32);

impl Literal for Real {
    fn value(_token: Text) -> Option<Real> {
        unreachable!()
    }

    fn parse(token: &str) -> Option<Real> {
        token.parse::<f32>().ok().map(Real)
    }
}

impl Scalar for Real {
    fn zero_value() -> Real {
        unreachable!()
    }

    fn one_value() -> Real {
        unreachable!()
    }

    fn product(_a: Real, _b: Real) -> Real {
        unreachable!()
    }

    fn zero() -> Real {
        Real(0.0)
    }

    fn one() -> Real {
        Real(1.0)
    }

    fn times(self, factor: Real) -> Real {
        Real(self.0 * factor.0)
    }
}

fn one_triangle_document(geometry_attributes: &str) -> String {
    format!(
        r##"<?xml version="1.0" encoding="utf-8"?>
<COLLADA>
  <library_geometries>
    <geometry {}>
      <mesh>
        <source id="positions">
          <float_array id="positions-array" count="12">0 0 0 1 0 0 0 1 0 0.5 0.5 1</float_array>
          <technique_common>
            <accessor source="#positions-array" count="4" stride="3">
              <param name="X" type="float"/>
              <param name="Y" type="float"/>
              <param name="Z" type="float"/>
            </accessor>
          </technique_common>
        </source>
        <vertices id="verts">
          <input semantic="POSITION" source="#positions"/>
        </vertices>
        <triangles count="1">
          <input semantic="VERTEX" source="#verts" offset="0"/>
          <p>0 1 2</p>
        </triangles>
      </mesh>
    </geometry>
  </library_geometries>
</COLLADA>"##,
        geometry_attributes
    )
}

#[test]
fn one_geometry_gives_four_vertices_and_one_triangle() {
    let text = one_triangle_document(r#"id="shape" name="shape""#);
    let document = Document::<Real>::parse_from_text(&text).unwrap();
    let mesh = document.mesh_with_name("shape").unwrap();
    assert_eq!(mesh.vertices.len(), 4);
    assert_eq!(mesh.vertices[3].x, Real(0.5));
    assert_eq!(mesh.vertices[3].z, Real(1.0));
    assert!(mesh.normals.is_empty());
    assert!(mesh.tex_coords.is_empty());
    assert!(mesh.colors.is_empty());
    assert_eq!(mesh.shapes.len(), 1);
    match &mesh.shapes[0] {
        Shape::Triangle(a, b, c) => {
            assert_eq!(*a, (0, None, None, None));
            assert_eq!(*b, (1, None, None, None));
            assert_eq!(*c, (2, None, None, None));
        },
        other => panic!("not a triangle: {:?}", other),
    }
}

#[test]
fn geometry_without_id_fails_the_document() {
    let text = one_triangle_document(r#"name="shape""#);
    let error = Document::<Real>::parse_from_text(&text).unwrap_err();
    assert_eq!(error.kind, ErrorKind::Structure);
    assert_eq!(error.stage, Stage::Geometry);
    assert_eq!(error.name, Some("id"));
}
