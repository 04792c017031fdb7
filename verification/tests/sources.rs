use collada_parser::collada::accessor::Accessor;
use collada_parser::collada::error::{ErrorKind, Stage};
use collada_parser::collada::source::DataSource;
use collada_parser::xml_tree::tree::XmlTree;

fn tree(text: &str) -> XmlTree {
    XmlTree::parse_xml(text).unwrap()
}

fn accessor(count: usize, stride: usize) -> Accessor<i64> {
    let text = format!(r#"<accessor count="{}" stride="{}"><param name="X"/><param name="Y"/><param name="Z"/></accessor>"#, count, stride);
    Accessor::parse_accessor(0, &tree(&text)).unwrap()
}

#[test]
fn accessor_reads_count_stride_and_parameter_names() {
    let read = accessor(4, 3);
    assert_eq!(read.count(), 4);
    assert_eq!(read.stride(), 3);
    assert_eq!(read.parameter_names(), ["X".to_string(), "Y".to_string(), "Z".to_string()]);
}

#[test]
fn get_nth_returns_stride_elements_while_the_array_reaches() {
    let read = accessor(4, 3);
    let array: Vec<i64> = (0..12).collect();
    assert_eq!(read.get_nth(0, &array), Some(&[0i64, 1, 2][..]));
    assert_eq!(read.get_nth(1, &array), Some(&[3i64, 4, 5][..]));
    assert_eq!(read.get_nth(3, &array), Some(&[9i64, 10, 11][..]));
    assert_eq!(read.get_nth(4, &array), None);
    assert_eq!(read.get_nth(usize::MAX, &array), None);
    assert_eq!(read.get_nth(usize::MAX / 3 + 1, &array), None);
}

#[test]
fn get_nth_is_present_exactly_when_the_record_fits() {
    for stride in 0..6usize {
        let read = accessor(0, stride);
        for len in 0..14usize {
            let array: Vec<i64> = (0..len as i64).collect();
            for n in 0..8usize {
                let got = read.get_nth(n, &array);
                assert_eq!(got.is_some(), (n + 1) * stride <= len);
                if let Some(record) = got {
                    assert_eq!(record.len(), stride);
                    assert_eq!(record, &array[n * stride..(n + 1) * stride]);
                }
                assert_eq!(got, read.get_nth(n, &array));
            }
        }
    }
}

#[test]
fn get_nth_ignores_a_partial_last_record() {
    let read = accessor(2, 3);
    let array: Vec<i64> = (0..5).collect();
    assert_eq!(read.get_nth(0, &array), Some(&[0i64, 1, 2][..]));
    assert_eq!(read.get_nth(1, &array), None);
}

#[test]
fn accessor_rejects_a_wrong_tag() {
    let error = Accessor::<i64>::parse_accessor(0, &tree(r#"<access count="1" stride="1"><param name="X"/></access>"#)).unwrap_err();
    assert_eq!((error.kind, error.stage, error.name), (ErrorKind::Structure, Stage::Accessor, None));
}

#[test]
fn accessor_rejects_a_missing_or_unreadable_attribute() {
    let error = Accessor::<i64>::parse_accessor(0, &tree(r#"<accessor stride="1"><param name="X"/></accessor>"#)).unwrap_err();
    assert_eq!((error.kind, error.stage, error.name), (ErrorKind::Structure, Stage::Accessor, Some("count")));
    let error = Accessor::<i64>::parse_accessor(0, &tree(r#"<accessor count="1"><param name="X"/></accessor>"#)).unwrap_err();
    assert_eq!(error.name, Some("stride"));
    let error = Accessor::<i64>::parse_accessor(0, &tree(r#"<accessor count="-1" stride="1"><param name="X"/></accessor>"#)).unwrap_err();
    assert_eq!((error.kind, error.name), (ErrorKind::Structure, Some("count")));
    let error = Accessor::<i64>::parse_accessor(0, &tree(r#"<accessor count="1" stride="x"><param name="X"/></accessor>"#)).unwrap_err();
    assert_eq!(error.name, Some("stride"));
}

#[test]
fn accessor_without_children_has_no_parameter_names() {
    let read = Accessor::<i64>::parse_accessor(0, &tree(r#"<accessor count="3" stride="2"/>"#)).unwrap();
    assert_eq!(read.count(), 3);
    assert_eq!(read.stride(), 2);
    assert!(read.parameter_names().is_empty());
    assert_eq!(read.get_nth(1, &[1, 2, 3, 4]), Some(&[3i64, 4][..]));
}

#[test]
fn accessor_rejects_nameless_parameters() {
    let error = Accessor::<i64>::parse_accessor(0, &tree(r#"<accessor count="1" stride="1"><param type="float"/></accessor>"#)).unwrap_err();
    assert_eq!(error.name, Some("name"));
}

#[test]
fn accessor_rejects_an_index_outside_the_tree() {
    assert!(Accessor::<i64>::parse_accessor(5, &tree("<accessor/>")).is_err());
}

#[test]
fn accessor_passes_over_children_that_are_no_parameters() {
    let read = Accessor::<i64>::parse_accessor(0, &tree(r#"<accessor count="1" stride="2"><extra/><param name="S"/><other name="no"/><param name="T"/></accessor>"#)).unwrap();
    assert_eq!(read.parameter_names(), ["S".to_string(), "T".to_string()]);
}

const SOURCE: &str = r##"<source id="positions">
  <float_array count="6">1 2 3 4 5 6</float_array>
  <technique_common>
    <accessor count="2" stride="3"><param name="X"/><param name="Y"/><param name="Z"/></accessor>
  </technique_common>
</source>"##;

#[test]
fn source_reads_id_array_and_accessor() {
    let source = DataSource::<i64>::parse_source(0, &tree(SOURCE), "float_array").unwrap();
    assert_eq!(source.get_id(), "positions");
    assert_eq!(source.count(), 2);
    assert_eq!(source.stride(), 3);
    assert_eq!(source.record_count(), 2);
    assert_eq!(source.get_parameter_names().len(), 3);
    assert_eq!(source.get_nth_value(0), Some(&[1i64, 2, 3][..]));
    assert_eq!(source.get_nth_value(1), Some(&[4i64, 5, 6][..]));
    assert_eq!(source.get_nth_value(2), None);
}

#[test]
fn source_cursor_yields_records_until_the_first_absence() {
    let source = DataSource::<i64>::parse_source(0, &tree(SOURCE), "float_array").unwrap();
    let mut cursor = source.iter();
    assert_eq!(cursor.next(), Some(&[1i64, 2, 3][..]));
    assert_eq!(cursor.next(), Some(&[4i64, 5, 6][..]));
    assert_eq!(cursor.next(), None);
    assert_eq!(cursor.next(), None);
    let mut again = source.iter();
    assert_eq!(again.next(), Some(&[1i64, 2, 3][..]));
}

#[test]
fn source_of_names_keeps_the_tokens() {
    let text = r##"<source id="joints"><Name_array count="2">hip knee</Name_array><technique_common><accessor count="2" stride="1"><param name="JOINT"/></accessor></technique_common></source>"##;
    let source = DataSource::<String>::parse_source(0, &tree(text), "Name_array").unwrap();
    assert_eq!(source.get_nth_value(0), Some(&["hip".to_string()][..]));
    assert_eq!(source.get_nth_value(1), Some(&["knee".to_string()][..]));
    assert_eq!(source.record_count(), 2);
}

#[test]
fn source_with_stride_zero_has_no_records() {
    let text = r##"<source id="s"><float_array>1 2</float_array><technique_common><accessor count="2" stride="0"><param name="X"/></accessor></technique_common></source>"##;
    let source = DataSource::<i64>::parse_source(0, &tree(text), "float_array").unwrap();
    assert_eq!(source.record_count(), 0);
    assert_eq!(source.get_nth_value(5), Some(&[][..]));
    assert_eq!(source.iter().next(), None);
}

fn source_error(text: &str) -> (ErrorKind, Stage, Option<&'static str>) {
    let error = DataSource::<i64>::parse_source(0, &tree(text), "float_array").unwrap_err();
    (error.kind, error.stage, error.name)
}

#[test]
fn source_rejects_a_wrong_tag_and_a_missing_id() {
    assert_eq!(source_error(r#"<sauce id="s"/>"#), (ErrorKind::Structure, Stage::DataSource, None));
    assert_eq!(source_error(r#"<source/>"#), (ErrorKind::Structure, Stage::DataSource, Some("id")));
}

#[test]
fn source_rejects_a_missing_array_or_accessor() {
    assert_eq!(source_error(r#"<source id="s"/>"#), (ErrorKind::Structure, Stage::DataSource, None));
    assert_eq!(
        source_error(r#"<source id="s"><float_array>1</float_array></source>"#),
        (ErrorKind::Structure, Stage::DataSource, None)
    );
    assert_eq!(
        source_error(r#"<source id="s"><technique_common><accessor count="1" stride="1"><param name="X"/></accessor></technique_common></source>"#),
        (ErrorKind::Structure, Stage::DataSource, None)
    );
    assert_eq!(
        source_error(r#"<source id="s"><float_array>1</float_array><technique_common/></source>"#),
        (ErrorKind::Structure, Stage::DataSource, None)
    );
}

#[test]
fn source_rejects_a_second_array_or_accessor() {
    assert_eq!(
        source_error(r#"<source id="s"><float_array>1</float_array><float_array>2</float_array></source>"#),
        (ErrorKind::Structure, Stage::DataSource, None)
    );
    let twice = r#"<source id="s"><float_array>1</float_array>
        <technique_common><accessor count="1" stride="1"><param name="X"/></accessor></technique_common>
        <technique_common><accessor count="1" stride="1"><param name="X"/></accessor></technique_common></source>"#;
    assert_eq!(source_error(twice), (ErrorKind::Structure, Stage::DataSource, None));
}

#[test]
fn source_rejects_an_array_without_text_or_with_a_bad_token() {
    assert_eq!(
        source_error(r#"<source id="s"><float_array/></source>"#),
        (ErrorKind::Structure, Stage::DataSource, None)
    );
    assert_eq!(
        source_error(r#"<source id="s"><float_array>1 two 3</float_array></source>"#),
        (ErrorKind::Literal, Stage::Array, None)
    );
}

#[test]
fn source_passes_on_the_failure_of_its_accessor() {
    assert_eq!(
        source_error(r#"<source id="s"><float_array>1</float_array><technique_common><accessor stride="1"><param name="X"/></accessor></technique_common></source>"#),
        (ErrorKind::Structure, Stage::Accessor, Some("count"))
    );
}
