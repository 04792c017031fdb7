use collada_parser::collada::error::{
    AccessorParseError, AnimationParseError, ArrayError, ControllerParseError, DataSourceError,
    Error, ErrorKind, GeometryParseError, IndexAccessorError, MeshError, MeshParseError,
    MissingAttributeError, MissingChildrenError, MissingSourceError, PrimitiveElementError,
    PrimitiveIndicesError, SceneNodeError, SkeletonParseError, SkinParseError, Stage,
    TransformationParseError, VertexWeightsError, VerticesError, VisualSceneError,
};
use collada_parser::math::{Matrix4, Scalar};
use collada_parser::text::{parse_unsigned, push_decimal, Literal, Text};
use collada_parser::xml_tree::error::{InvalidOwnedData, InvalidXml, MissingNode};

#[derive(Clone, Copy, Debug, PartialEq)]
struct Real(f64);

impl Literal for Real {
    fn value(_token: Text) -> Option<Real> {
        unreachable!()
    }

    fn parse(token: &str) -> Option<Real> {
        token.parse::<f64>().ok().map(Real)
    }
}

impl Scalar for Real {
    fn zero_value() -> Real {
        unreachable!()
    }

    fn one_value() -> Real {
        unreachable!()
    }

    fn product(_a: Real, _b: Real) -> Real {
        unreachable!()
    }

    fn zero() -> Real {
        Real(0.0)
    }

    fn one() -> Real {
        Real(1.0)
    }

    fn times(self, factor: Real) -> Real {
        Real(self.0 * factor.0)
    }
}

fn counting() -> Matrix4<i64> {
    let values: Vec<i64> = (1..=16).collect();
    Matrix4::from_slice(&values).unwrap()
}

#[test]
fn the_identity_has_ones_on_the_diagonal() {
    assert_eq!(Matrix4::<i64>::identity().values, [1, 0, 0, 0, 0, 1, 0, 0, 0, 0, 1, 0, 0, 0, 0, 1]);
    let real = Matrix4::<Real>::identity();
    assert_eq!(real.values[5], Real(1.0));
    assert_eq!(real.values[6], Real(0.0));
}

#[test]
fn a_matrix_is_made_of_exactly_sixteen_values() {
    assert_eq!(counting().values[15], 16);
    assert_eq!(counting().as_ref(), &(1..=16).collect::<Vec<i64>>()[..]);
    let error = Matrix4::<i64>::from_slice(&[1, 2, 3]).unwrap_err();
    assert_eq!(error.given_array_size(), 3);
    assert_eq!(error.message(), "Expected length 16 array, received length 3 array");
    let long: Vec<i64> = (0..17).collect();
    assert_eq!(Matrix4::<i64>::from_slice(&long).unwrap_err().given_array_size(), 17);
    assert_eq!(Matrix4::<i64>::from_slice(&[]).unwrap_err().given_array_size(), 0);
}

#[test]
fn columns_and_rows_are_read_in_column_major_order() {
    let matrix = counting();
    assert_eq!(matrix.get_column(0), [1, 2, 3, 4]);
    assert_eq!(matrix.get_column(3), [13, 14, 15, 16]);
    assert_eq!(matrix.get_row(0), [1, 5, 9, 13]);
    assert_eq!(matrix.get_row(2), [3, 7, 11, 15]);
}

#[test]
fn transposing_swaps_rows_and_columns() {
    let matrix = counting().transpose();
    assert_eq!(matrix.values, [1, 5, 9, 13, 2, 6, 10, 14, 3, 7, 11, 15, 4, 8, 12, 16]);
    assert_eq!(matrix.transpose().values, counting().values);
}

#[test]
fn a_column_is_set_in_place() {
    let mut matrix = counting();
    matrix.set_column(2, [0, -1, -2, -3]);
    assert_eq!(matrix.values, [1, 2, 3, 4, 5, 6, 7, 8, 0, -1, -2, -3, 13, 14, 15, 16]);
}

#[test]
fn the_translation_is_the_head_of_the_last_column() {
    let mut matrix = counting();
    matrix.set_translation([7, 8, 9]);
    assert_eq!(matrix.values, [1, 2, 3, 4, 5, 6, 7, 8, 9, 10, 11, 12, 7, 8, 9, 16]);
}

#[test]
fn scaling_multiplies_the_upper_three_by_three_block() {
    let mut matrix = counting();
    matrix.scale([2, 0, -1]);
    assert_eq!(matrix.values, [2, 4, 6, 4, 0, 0, 0, 8, -9, -10, -11, 12, 13, 14, 15, 16]);
    let mut real = Matrix4::<Real>::identity();
    real.scale([Real(0.5), Real(2.0), Real(4.0)]);
    assert_eq!(real.values[0], Real(0.5));
    assert_eq!(real.values[5], Real(2.0));
    assert_eq!(real.values[10], Real(4.0));
    assert_eq!(real.values[15], Real(1.0));
}

#[test]
fn whole_number_products_wrap_around() {
    assert_eq!(<i64 as Scalar>::zero(), 0);
    assert_eq!(<i64 as Scalar>::one(), 1);
    assert_eq!(6i64.times(-7), -42);
    assert_eq!(i64::MAX.times(2), -2);
    assert_eq!(<i64 as Literal>::parse("-15"), Some(-15));
    assert_eq!(<usize as Literal>::parse("15"), Some(15));
    assert_eq!(<usize as Literal>::parse("-15"), None);
}

#[test]
fn failures_describe_their_stage() {
    assert_eq!(ArrayError.message(), "Failed to convert string into array");
    assert_eq!(MeshParseError.message(), "Failed to parse mesh");
    assert_eq!(IndexAccessorError.message(), "Failed to parse triangle accessor");
    assert_eq!(DataSourceError.message(), "Failed to parse data source");
    assert_eq!(AccessorParseError.message(), "Failed to parse accessor");
    assert_eq!(PrimitiveIndicesError.message(), "Failed to parse accessor");
    assert_eq!(PrimitiveElementError.message(), "Failed to parse primitive element");
    assert_eq!(MissingSourceError.message(), "Failed to get attribute from source list");
    assert_eq!(VerticesError.message(), "Failed to parse vertices");
    assert_eq!(MeshError.message(), "Failed to convert into a mesh");
    assert_eq!(VertexWeightsError.message(), "Failed to parse vertex weights");
    assert_eq!(SkinParseError.message(), "Failed to parse skin");
    assert_eq!(AnimationParseError.message(), "Failed to parse animation");
    assert_eq!(TransformationParseError.message(), "Failed to parse transformation");
    assert_eq!(SkeletonParseError.message(), "Failed to parse skeleton");
    assert_eq!(GeometryParseError.message(), "Failed to parse geometry");
    assert_eq!(ControllerParseError.message(), "Failed to parse controller");
    assert_eq!(VisualSceneError.message(), "Failed to parse visual scene");
    assert_eq!(MissingChildrenError.message(), "Missing children");
    assert_eq!(SceneNodeError.message(), "Failed to parse scene node");
    assert_eq!(InvalidXml.message(), "Invalid xml file");
    assert_eq!(InvalidOwnedData.message(), "Node contains wrong data type");
    assert_eq!(MissingNode(12).message(), "Missing node 12");
    let missing = MissingAttributeError { attribute_name: "url".to_string() };
    assert_eq!(missing.message(), "Could not find attribute with name url");
}

#[test]
fn numbers_are_written_in_decimal() {
    for n in [0usize, 7, 10, 99, 100, 12345, usize::MAX] {
        let mut text = String::from("n=");
        push_decimal(&mut text, n);
        assert_eq!(text, format!("n={}", n));
        assert_eq!(parse_unsigned(&text[2..]), Some(n));
    }
}

#[test]
fn failures_know_their_stage() {
    assert_eq!(ArrayError.stage(), Stage::Array);
    assert_eq!(MeshError.stage(), Stage::MeshAssembly);
    assert_eq!(GeometryParseError.stage(), Stage::Geometry);
    assert_eq!(SceneNodeError.stage(), Stage::SceneNode);
}

#[test]
fn a_failure_carries_class_stage_and_name() {
    let plain = Error::new(ErrorKind::Consistency, Stage::Vertices);
    assert_eq!((plain.kind, plain.stage, plain.name), (ErrorKind::Consistency, Stage::Vertices, None));
    assert_eq!(plain.message(), "Failed to parse vertices");
    let named = Error::blame(Stage::Geometry, "id");
    assert_eq!((named.kind, named.stage, named.name), (ErrorKind::Structure, Stage::Geometry, Some("id")));
    assert_eq!(named.message(), "Failed to parse geometry");
    assert_eq!(named.missing().unwrap().attribute_name, "id");
    assert_eq!(named.missing().unwrap().message(), "Could not find attribute with name id");
    assert!(plain.missing().is_none());
    assert_eq!(Error::new(ErrorKind::Literal, Stage::Matrix).message(), "Expected length 16 array");
    assert_eq!(Error::new(ErrorKind::Structure, Stage::Xml).message(), "Invalid xml file");
    assert_eq!(Error::new(ErrorKind::Reference, Stage::MissingSource).message(), "Failed to get attribute from source list");
}
