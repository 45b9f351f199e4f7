use cairo_annotations::annotations::coverage::{
    ColumnNumber, LineNumber, SourceCodeLocation, SourceCodeSpan, SourceFileFullPath,
};
use cairo_annotations::annotations::debugger::{
    DebuggerAnnotationsV1, FunctionDebugInfo, SierraFunctionId, SierraVarId,
    VersionedDebuggerAnnotations,
};
use cairo_annotations::annotations::json::{JsonNumber, JsonValue};
use cairo_annotations::annotations::schema::{Schema, Shape};
use cairo_annotations::annotations::{AnnotationStore, AnnotationsError, TryFromDebugInfo};
use cairo_annotations::ordered_map::OrderedMap;
use std::collections::HashMap;

const NAMESPACE: &str = "github.com/software-mansion-labs/cairo-debugger";

fn number(n: u64) -> JsonValue {
    JsonValue::Number(JsonNumber::PosInt(n))
}

fn text(s: &str) -> JsonValue {
    JsonValue::String(s.to_string())
}

fn object(members: Vec<(&str, JsonValue)>) -> JsonValue {
    let mut map = OrderedMap::new();
    for (name, value) in members {
        map.insert(name.to_string(), value);
    }
    JsonValue::Object(map)
}

fn span_value(start: (u64, u64), end: (u64, u64)) -> JsonValue {
    object(vec![
        (
            "start",
            object(vec![("line", number(start.0)), ("col", number(start.1))]),
        ),
        (
            "end",
            object(vec![("line", number(end.0)), ("col", number(end.1))]),
        ),
    ])
}

fn span(start: (usize, usize), end: (usize, usize)) -> SourceCodeSpan {
    SourceCodeSpan {
        start: SourceCodeLocation {
            line: LineNumber(start.0),
            col: ColumnNumber(start.1),
        },
        end: SourceCodeLocation {
            line: LineNumber(end.0),
            col: ColumnNumber(end.1),
        },
    }
}

fn debugger_value() -> JsonValue {
    object(vec![(
        "functions_info",
        object(vec![
            (
                "7",
                object(vec![
                    ("function_file_path", text("/project/src/lib.cairo")),
                    ("function_code_span", span_value((4, 0), (9, 1))),
                    (
                        "sierra_to_cairo_variable",
                        object(vec![
                            (
                                "0",
                                JsonValue::Array(vec![text("n"), span_value((4, 7), (4, 8))]),
                            ),
                            (
                                "18446744073709551615",
                                JsonValue::Array(vec![text("acc"), span_value((5, 12), (5, 15))]),
                            ),
                        ]),
                    ),
                ]),
            ),
            (
                "8",
                object(vec![
                    ("sierra_to_cairo_variable", object(vec![])),
                    ("function_code_span", span_value((11, 0), (11, 30))),
                    ("function_file_path", text("/project/src/other.cairo")),
                ]),
            ),
        ]),
    )])
}

fn store_with(value: JsonValue) -> AnnotationStore {
    let mut store = OrderedMap::new();
    store.insert(NAMESPACE.to_string(), value);
    store
}

fn expected() -> DebuggerAnnotationsV1 {
    let mut variables = HashMap::new();
    variables.insert(0, ("n".to_string(), span((4, 7), (4, 8))));
    variables.insert(u64::MAX, ("acc".to_string(), span((5, 12), (5, 15))));
    let mut functions_info = HashMap::new();
    functions_info.insert(
        7,
        FunctionDebugInfo {
            function_file_path: SourceFileFullPath("/project/src/lib.cairo".to_string()),
            function_code_span: span((4, 0), (9, 1)),
            sierra_to_cairo_variable: variables,
        },
    );
    functions_info.insert(
        8,
        FunctionDebugInfo {
            function_file_path: SourceFileFullPath("/project/src/other.cairo".to_string()),
            function_code_span: span((11, 0), (11, 30)),
            sierra_to_cairo_variable: HashMap::new(),
        },
    );
    DebuggerAnnotationsV1 { functions_info }
}

#[test]
fn debugger_annotations_are_read() {
    let store = store_with(debugger_value());
    assert_eq!(
        DebuggerAnnotationsV1::try_from_debug_info(&store),
        Ok(expected())
    );
    assert_eq!(
        VersionedDebuggerAnnotations::try_from_debug_info(&store),
        Ok(VersionedDebuggerAnnotations::V1(expected()))
    );
}

#[test]
fn debugger_annotations_are_found_by_id() {
    let annotations = expected();
    let info = annotations.function(&SierraFunctionId(7)).unwrap();
    assert_eq!(
        info.function_file_path,
        SourceFileFullPath("/project/src/lib.cairo".to_string())
    );
    assert_eq!(
        info.variable(&SierraVarId(0)),
        Some(&("n".to_string(), span((4, 7), (4, 8))))
    );
    assert_eq!(info.variable(&SierraVarId(1)), None);
    assert!(annotations.function(&SierraFunctionId(9)).is_none());
    let versioned = VersionedDebuggerAnnotations::V1(expected());
    assert_eq!(versioned.latest(), &annotations);
}

#[test]
fn debugger_annotations_are_written_as_they_were_read() {
    let store = store_with(debugger_value());
    let annotations = VersionedDebuggerAnnotations::try_from_debug_info(&store).unwrap();
    assert!(annotations.serialize().same_as(&debugger_value()));
    assert!(expected().serialize().same_as(&debugger_value()));
}

#[test]
fn debugger_namespace_missing_or_of_another_shape() {
    assert_eq!(
        VersionedDebuggerAnnotations::try_from_debug_info(&OrderedMap::new()),
        Err(AnnotationsError::MissingNamespace(NAMESPACE.to_string()))
    );
    let without_span = object(vec![(
        "functions_info",
        object(vec![(
            "7",
            object(vec![
                ("function_file_path", text("/project/src/lib.cairo")),
                ("sierra_to_cairo_variable", object(vec![])),
            ]),
        )]),
    )]);
    let error = DebuggerAnnotationsV1::try_from_debug_info(&store_with(without_span)).unwrap_err();
    match &error {
        AnnotationsError::DeserializationError(cause) => {
            assert_eq!(cause.namespace, NAMESPACE);
            assert_eq!(cause.mismatch.path, vec!["functions_info", "7"]);
            assert_eq!(cause.mismatch.expected, Shape::Members(3));
        }
        other => panic!("expected a mismatch, got {:?}", other),
    }
    assert_eq!(
        error.message(),
        format!(
            "Deserialization error: the value has not the shape of the annotations of {} at \
             /functions_info/7",
            NAMESPACE
        )
    );
    let bad_variable = object(vec![(
        "functions_info",
        object(vec![(
            "7",
            object(vec![
                ("function_file_path", text("/project/src/lib.cairo")),
                ("function_code_span", span_value((4, 0), (9, 1))),
                (
                    "sierra_to_cairo_variable",
                    object(vec![(
                        "3",
                        JsonValue::Array(vec![number(1), span_value((4, 7), (4, 8))]),
                    )]),
                ),
            ]),
        )]),
    )]);
    match DebuggerAnnotationsV1::try_from_debug_info(&store_with(bad_variable)) {
        Err(AnnotationsError::DeserializationError(cause)) => {
            assert_eq!(
                cause.mismatch.path,
                vec!["functions_info", "7", "sierra_to_cairo_variable", "3", "0"]
            );
            assert_eq!(cause.mismatch.expected, Shape::Text);
        }
        other => panic!("expected a mismatch, got {:?}", other),
    }
    assert_eq!(
        AnnotationsError::MissingNamespace(NAMESPACE.to_string()).message(),
        format!("Missing namespace: {}", NAMESPACE)
    );
}
