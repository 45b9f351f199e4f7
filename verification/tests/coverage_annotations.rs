use cairo_annotations::annotations::coverage::{
    CodeLocation, ColumnNumber, CoverageAnnotationsV1, LineNumber, SourceCodeLocation,
    SourceCodeSpan, SourceFileFullPath, VersionedCoverageAnnotations,
};
use cairo_annotations::annotations::json::{JsonNumber, JsonValue};
use cairo_annotations::annotations::schema::{Mismatch, Schema, Shape};
use cairo_annotations::annotations::{AnnotationStore, AnnotationsError, TryFromDebugInfo};
use cairo_annotations::ordered_map::OrderedMap;

const PROJECT_DIR: &str = "/tmp/scarb_template";

fn number(n: u64) -> JsonValue {
    JsonValue::Number(JsonNumber::PosInt(n))
}

fn text(s: &str) -> JsonValue {
    JsonValue::String(s.to_string())
}

fn object(members: Vec<(&str, JsonValue)>) -> JsonValue {
    let mut map = OrderedMap::new();
    for (name, value) in members {
        map.insert(name.to_string(), value);
    }
    JsonValue::Object(map)
}

fn location(line: u64, col: u64) -> JsonValue {
    object(vec![("line", number(line)), ("col", number(col))])
}

fn span(start: (u64, u64), end: (u64, u64)) -> JsonValue {
    object(vec![
        ("start", location(start.0, start.1)),
        ("end", location(end.0, end.1)),
    ])
}

fn code_location(path: &str, start: (u64, u64), end: (u64, u64)) -> JsonValue {
    JsonValue::Array(vec![text(path), span(start, end)])
}

fn lib_cairo() -> String {
    format!("{}/src/lib.cairo", PROJECT_DIR)
}

/// The coverage annotations of a small program, as the compiler writes them.
fn coverage_value() -> JsonValue {
    object(vec![(
        "statements_code_locations",
        object(vec![
            (
                "0",
                JsonValue::Array(vec![code_location(&lib_cairo(), (0, 3), (0, 6))]),
            ),
            (
                "215",
                JsonValue::Array(vec![code_location(&lib_cairo(), (10, 12), (10, 17))]),
            ),
            (
                "299",
                JsonValue::Array(vec![
                    code_location(&lib_cairo(), (5, 8), (7, 9)),
                    code_location(&lib_cairo(), (3, 0), (3, 20)),
                ]),
            ),
            ("300", JsonValue::Array(vec![])),
        ]),
    )])
}

fn debug_info() -> AnnotationStore {
    let mut store = OrderedMap::new();
    store.insert(
        "github.com/software-mansion/cairo-profiler".to_string(),
        object(vec![("statements_functions", object(vec![]))]),
    );
    store.insert(
        "github.com/software-mansion/cairo-coverage".to_string(),
        coverage_value(),
    );
    store
}

fn store_with(value: JsonValue) -> AnnotationStore {
    let mut store = OrderedMap::new();
    store.insert(
        "github.com/software-mansion/cairo-coverage".to_string(),
        value,
    );
    store
}

fn expected_location() -> Vec<CodeLocation> {
    vec![CodeLocation(
        SourceFileFullPath(format!("{}/src/lib.cairo", PROJECT_DIR)),
        SourceCodeSpan {
            start: SourceCodeLocation {
                line: LineNumber(10),
                col: ColumnNumber(12),
            },
            end: SourceCodeLocation {
                line: LineNumber(10),
                col: ColumnNumber(17),
            },
        },
    )]
}

#[test]
fn test_deserialization_versioned() {
    let VersionedCoverageAnnotations::V1(annotations) =
        VersionedCoverageAnnotations::try_from_debug_info(&debug_info()).unwrap();

    let code_locations = annotations.statements_code_locations.get(&215).unwrap();

    assert_eq!(code_locations, &expected_location());
}

#[test]
fn test_deserialization_v1() {
    let annotations = CoverageAnnotationsV1::try_from_debug_info(&debug_info()).unwrap();

    let code_locations = annotations.statements_code_locations.get(&215).unwrap();

    assert_eq!(code_locations, &expected_location());
}

#[test]
fn coverage_annotations_test_serialization_versioned() {
    let debug_info = debug_info();
    let annotations = VersionedCoverageAnnotations::try_from_debug_info(&debug_info).unwrap();

    let expected = debug_info
        .get(&"github.com/software-mansion/cairo-coverage".to_string())
        .unwrap();

    assert!(annotations.serialize().same_as(expected));
}

#[test]
fn coverage_annotations_test_serialization_v1() {
    let debug_info = debug_info();
    let annotations = CoverageAnnotationsV1::try_from_debug_info(&debug_info).unwrap();

    let expected = debug_info
        .get(&"github.com/software-mansion/cairo-coverage".to_string())
        .unwrap();

    assert!(annotations.serialize().same_as(expected));
}

#[test]
fn coverage_reads_every_statement() {
    let annotations = CoverageAnnotationsV1::try_from_debug_info(&debug_info()).unwrap();
    assert_eq!(annotations.statements_code_locations.len(), 4);
    assert_eq!(annotations.statements_code_locations[&299].len(), 2);
    assert_eq!(
        annotations.statements_code_locations[&299][1],
        CodeLocation(
            SourceFileFullPath(lib_cairo()),
            SourceCodeSpan {
                start: SourceCodeLocation {
                    line: LineNumber(3),
                    col: ColumnNumber(0),
                },
                end: SourceCodeLocation {
                    line: LineNumber(3),
                    col: ColumnNumber(20),
                },
            },
        )
    );
    assert!(annotations.statements_code_locations[&300].is_empty());
}

#[test]
fn latest_gives_the_payload_of_the_version() {
    let annotations = VersionedCoverageAnnotations::try_from_debug_info(&debug_info()).unwrap();
    let VersionedCoverageAnnotations::V1(inner) = &annotations;
    assert_eq!(annotations.latest(), inner);
}

#[test]
fn missing_namespace_carries_the_namespace() {
    let mut store: AnnotationStore = OrderedMap::new();
    store.insert(
        "github.com/software-mansion/cairo-profiler".to_string(),
        coverage_value(),
    );
    assert_eq!(
        VersionedCoverageAnnotations::try_from_debug_info(&store),
        Err(AnnotationsError::MissingNamespace(
            "github.com/software-mansion/cairo-coverage".to_string()
        ))
    );
    assert_eq!(
        CoverageAnnotationsV1::try_from_debug_info(&OrderedMap::new()),
        Err(AnnotationsError::MissingNamespace(
            "github.com/software-mansion/cairo-coverage".to_string()
        ))
    );
}

fn assert_mismatch(value: JsonValue, path: &[&str], expected: Shape) {
    match CoverageAnnotationsV1::try_from_debug_info(&store_with(value)) {
        Err(AnnotationsError::DeserializationError(cause)) => {
            assert_eq!(cause.namespace, "github.com/software-mansion/cairo-coverage");
            assert_eq!(
                cause.mismatch,
                Mismatch {
                    path: path.iter().map(|step| step.to_string()).collect(),
                    expected,
                }
            );
        }
        other => panic!("expected a mismatch, got {:?}", other),
    }
}

const LOCATIONS: &str = "statements_code_locations";
const WORD: Shape = Shape::Unsigned(usize::MAX as u64);

fn coverage_of(key: &str, locations: JsonValue) -> JsonValue {
    object(vec![(
        "statements_code_locations",
        object(vec![(key, locations)]),
    )])
}

#[test]
fn values_of_another_shape_are_mismatches() {
    assert_mismatch(JsonValue::Null, &[], Shape::Object);
    assert_mismatch(JsonValue::Array(vec![]), &[], Shape::Object);
    assert_mismatch(object(vec![]), &[], Shape::Members(1));
    assert_mismatch(
        object(vec![("statements_functions", object(vec![]))]),
        &[LOCATIONS],
        Shape::Member,
    );
    // An unknown member beside the known one.
    assert_mismatch(
        object(vec![(LOCATIONS, object(vec![])), ("extra", JsonValue::Null)]),
        &[],
        Shape::Members(1),
    );
    // The statements are the members of an object.
    assert_mismatch(
        object(vec![(LOCATIONS, JsonValue::Array(vec![]))]),
        &[LOCATIONS],
        Shape::Object,
    );
    // The locations of a statement are an array.
    assert_mismatch(
        coverage_of("1", JsonValue::Null),
        &[LOCATIONS, "1"],
        Shape::List,
    );
    // A location is a pair.
    assert_mismatch(
        coverage_of(
            "1",
            JsonValue::Array(vec![
                code_location("a.cairo", (1, 1), (1, 2)),
                JsonValue::Array(vec![text("a.cairo")]),
            ]),
        ),
        &[LOCATIONS, "1", "1"],
        Shape::Pair,
    );
    // The path is a string.
    assert_mismatch(
        coverage_of(
            "1",
            JsonValue::Array(vec![JsonValue::Array(vec![
                number(1),
                span((1, 1), (1, 2)),
            ])]),
        ),
        &[LOCATIONS, "1", "0", "0"],
        Shape::Text,
    );
    // A line is an unsigned integer.
    assert_mismatch(
        coverage_of(
            "1",
            JsonValue::Array(vec![JsonValue::Array(vec![
                text("a.cairo"),
                object(vec![
                    (
                        "start",
                        object(vec![
                            ("line", JsonValue::Number(JsonNumber::NegInt(-1))),
                            ("col", number(1)),
                        ]),
                    ),
                    ("end", location(1, 2)),
                ]),
            ])]),
        ),
        &[LOCATIONS, "1", "0", "1", "start", "line"],
        WORD,
    );
    // A column is no string.
    assert_mismatch(
        coverage_of(
            "7",
            JsonValue::Array(vec![JsonValue::Array(vec![
                text("a.cairo"),
                object(vec![
                    ("start", location(1, 2)),
                    ("end", object(vec![("line", number(1)), ("col", text("2"))])),
                ]),
            ])]),
        ),
        &[LOCATIONS, "7", "0", "1", "end", "col"],
        WORD,
    );
    // A span has a start and an end.
    assert_mismatch(
        coverage_of(
            "1",
            JsonValue::Array(vec![JsonValue::Array(vec![
                text("a.cairo"),
                object(vec![("start", location(1, 1))]),
            ])]),
        ),
        &[LOCATIONS, "1", "0", "1"],
        Shape::Members(2),
    );
    // A location has a line and a column, and nothing in place of them.
    assert_mismatch(
        coverage_of(
            "1",
            JsonValue::Array(vec![JsonValue::Array(vec![
                text("a.cairo"),
                object(vec![
                    ("start", location(1, 1)),
                    ("end", object(vec![("line", number(1)), ("column", number(2))])),
                ]),
            ])]),
        ),
        &[LOCATIONS, "1", "0", "1", "end", "col"],
        Shape::Member,
    );
}

#[test]
fn statement_keys_are_decimal_numbers() {
    for key in ["", "x", "01", "+1", "-1", " 1", "1 ", "1.0", "1e3", "0x1", "18446744073709551616"]
    {
        assert_mismatch(
            coverage_of(key, JsonValue::Array(vec![])),
            &[LOCATIONS, key],
            Shape::Key(usize::MAX as u64),
        );
    }
    for (key, idx) in [
        ("0", 0usize),
        ("7", 7),
        ("10", 10),
        ("4294967295", 4294967295),
    ] {
        let annotations = CoverageAnnotationsV1::try_from_debug_info(&store_with(coverage_of(
            key,
            JsonValue::Array(vec![]),
        )))
        .unwrap();
        assert_eq!(annotations.statements_code_locations.len(), 1);
        assert!(annotations.statements_code_locations.contains_key(&idx));
    }
}

#[test]
fn written_annotations_read_back() {
    let mut annotations = CoverageAnnotationsV1 {
        statements_code_locations: std::collections::HashMap::new(),
    };
    annotations.statements_code_locations.insert(
        12345,
        vec![CodeLocation(
            SourceFileFullPath("src/a.cairo".to_string()),
            SourceCodeSpan {
                start: SourceCodeLocation {
                    line: LineNumber(1),
                    col: ColumnNumber(2),
                },
                end: SourceCodeLocation {
                    line: LineNumber(3),
                    col: ColumnNumber(4),
                },
            },
        )],
    );
    annotations.statements_code_locations.insert(0, vec![]);
    let written = annotations.serialize();
    let expected = object(vec![(
        "statements_code_locations",
        object(vec![
            ("0", JsonValue::Array(vec![])),
            (
                "12345",
                JsonValue::Array(vec![code_location("src/a.cairo", (1, 2), (3, 4))]),
            ),
        ]),
    )]);
    assert!(written.same_as(&expected));
    assert_eq!(CoverageAnnotationsV1::deserialize(&written), Ok(annotations));
}

#[test]
fn same_as_ignores_the_order_of_members_only() {
    let a = object(vec![("x", number(1)), ("y", text("t"))]);
    let b = object(vec![("y", text("t")), ("x", number(1))]);
    assert!(a.same_as(&b));
    assert!(!a.same_as(&object(vec![("x", number(1)), ("y", text("u"))])));
    assert!(!a.same_as(&object(vec![("x", number(1))])));
    assert!(!a.same_as(&object(vec![("x", number(1)), ("z", text("t"))])));
    let list = JsonValue::Array(vec![number(1), number(2)]);
    assert!(list.same_as(&JsonValue::Array(vec![number(1), number(2)])));
    assert!(!list.same_as(&JsonValue::Array(vec![number(2), number(1)])));
    assert!(!list.same_as(&JsonValue::Array(vec![number(1)])));
    assert!(!JsonValue::Null.same_as(&JsonValue::Bool(false)));
    assert!(JsonValue::Bool(true).same_as(&JsonValue::Bool(true)));
    assert!(!number(1).same_as(&JsonValue::Number(JsonNumber::Float(1))));
}
