use cairo_annotations::annotations::json::JsonValue;
use cairo_annotations::annotations::profiler::{
    function_of_statement, name_from_removals, normalize_function_name, FunctionName,
    ProfilerAnnotationsV1, SierraFunction, VersionedProfilerAnnotations,
};
use cairo_annotations::annotations::schema::Schema;
use cairo_annotations::annotations::{AnnotationStore, AnnotationsError, TryFromDebugInfo};
use cairo_annotations::ordered_map::OrderedMap;

fn names(list: &[&str]) -> JsonValue {
    JsonValue::Array(
        list.iter()
            .map(|name| JsonValue::String(name.to_string()))
            .collect(),
    )
}

fn object(members: Vec<(&str, JsonValue)>) -> JsonValue {
    let mut map = OrderedMap::new();
    for (name, value) in members {
        map.insert(name.to_string(), value);
    }
    JsonValue::Object(map)
}

fn profiler_value() -> JsonValue {
    object(vec![(
        "statements_functions",
        object(vec![
            ("0", names(&["core::panic_with_felt252"])),
            ("299", names(&["scarb_template::fib"])),
            (
                "301",
                names(&["scarb_template::fib", "scarb_template::tests::it_works"]),
            ),
        ]),
    )])
}

fn debug_info() -> AnnotationStore {
    let mut store = OrderedMap::new();
    store.insert(
        "github.com/software-mansion/cairo-profiler".to_string(),
        profiler_value(),
    );
    store
}

#[test]
fn test_versioned() {
    let VersionedProfilerAnnotations::V1(annotations) =
        VersionedProfilerAnnotations::try_from_debug_info(&debug_info()).unwrap();

    let functions_names = annotations.statements_functions.get(&299).unwrap();

    assert_eq!(
        functions_names,
        &[FunctionName("scarb_template::fib".into()),]
    );
}

#[test]
fn test_v1() {
    let annotations = ProfilerAnnotationsV1::try_from_debug_info(&debug_info()).unwrap();

    let functions_names = annotations.statements_functions.get(&299).unwrap();

    assert_eq!(
        functions_names,
        &[FunctionName("scarb_template::fib".into()),]
    );
}

#[test]
fn profiler_annotations_test_serialization_versioned() {
    let debug_info = debug_info();
    let annotations = VersionedProfilerAnnotations::try_from_debug_info(&debug_info).unwrap();

    let expected = debug_info
        .get(&"github.com/software-mansion/cairo-profiler".to_string())
        .unwrap();

    assert!(annotations.serialize().same_as(expected));
}

#[test]
fn profiler_annotations_test_serialization_v1() {
    let debug_info = debug_info();
    let annotations = ProfilerAnnotationsV1::try_from_debug_info(&debug_info).unwrap();

    let expected = debug_info
        .get(&"github.com/software-mansion/cairo-profiler".to_string())
        .unwrap();

    assert!(annotations.serialize().same_as(expected));
}

#[test]
fn profiler_namespace_missing_or_of_another_shape() {
    assert_eq!(
        ProfilerAnnotationsV1::try_from_debug_info(&OrderedMap::new()),
        Err(AnnotationsError::MissingNamespace(
            "github.com/software-mansion/cairo-profiler".to_string()
        ))
    );
    let mut store: AnnotationStore = OrderedMap::new();
    store.insert(
        "github.com/software-mansion/cairo-profiler".to_string(),
        object(vec![(
            "statements_functions",
            object(vec![("1", names(&[])), ("two", names(&[]))]),
        )]),
    );
    match VersionedProfilerAnnotations::try_from_debug_info(&store) {
        Err(AnnotationsError::DeserializationError(cause)) => {
            assert_eq!(cause.namespace, "github.com/software-mansion/cairo-profiler");
            assert_eq!(cause.mismatch.path, vec!["statements_functions", "two"]);
            assert_eq!(
                cause.mismatch.expected,
                cairo_annotations::annotations::schema::Shape::Key(usize::MAX as u64)
            );
        }
        other => panic!("expected a mismatch, got {:?}", other),
    }
}

fn functions() -> Vec<SierraFunction> {
    vec![
        SierraFunction {
            name: "scarb_template::fib".to_string(),
            entry_point: 0,
        },
        SierraFunction {
            name: "scarb_template::sum[expr36]".to_string(),
            entry_point: 10,
        },
        SierraFunction {
            name: "core::array::ArrayImpl::<core::felt252>::append".to_string(),
            entry_point: 25,
        },
    ]
}

#[test]
fn statements_belong_to_the_last_function_that_starts_before_them() {
    let functions = functions();
    assert_eq!(function_of_statement(&functions, 0), Some(0));
    assert_eq!(function_of_statement(&functions, 9), Some(0));
    assert_eq!(function_of_statement(&functions, 10), Some(1));
    assert_eq!(function_of_statement(&functions, 24), Some(1));
    assert_eq!(function_of_statement(&functions, 25), Some(2));
    assert_eq!(function_of_statement(&functions, usize::MAX), Some(2));
    assert_eq!(function_of_statement(&functions[1..].to_vec(), 9), None);
    assert_eq!(function_of_statement(&Vec::new(), 0), None);
}

#[test]
fn loop_suffixes_and_generic_parameters_are_removed() {
    assert_eq!(
        normalize_function_name("scarb_template::sum[expr36]", true),
        Some("scarb_template::sum".to_string())
    );
    assert_eq!(
        normalize_function_name("scarb_template::sum[expr]", false),
        Some("scarb_template::sum".to_string())
    );
    assert_eq!(
        normalize_function_name("core::array::ArrayImpl::<core::felt252>::append", false),
        Some("core::array::ArrayImpl::::append".to_string())
    );
    assert_eq!(
        normalize_function_name("core::array::ArrayImpl::<core::felt252>::append", true),
        Some("core::array::ArrayImpl::<core::felt252>::append".to_string())
    );
    assert_eq!(
        normalize_function_name("a::<u8>::b::<u16>[expr1][expr2]", false),
        Some("a::[expr2]".to_string())
    );
    assert_eq!(
        normalize_function_name("scarb_template::fib", false),
        Some("scarb_template::fib".to_string())
    );
}

#[test]
fn function_names_of_statements() {
    let functions = functions();
    assert_eq!(
        FunctionName::from_sierra_statement_idx(3, &functions, false),
        Some(FunctionName("scarb_template::fib".to_string()))
    );
    assert_eq!(
        FunctionName::from_sierra_statement_idx(12, &functions, false),
        Some(FunctionName("scarb_template::sum".to_string()))
    );
    assert_eq!(
        FunctionName::from_sierra_statement_idx(30, &functions, false),
        Some(FunctionName("core::array::ArrayImpl::::append".to_string()))
    );
    assert_eq!(
        FunctionName::from_sierra_statement_idx(30, &functions, true),
        Some(FunctionName(
            "core::array::ArrayImpl::<core::felt252>::append".to_string()
        ))
    );
    assert_eq!(
        FunctionName::from_sierra_statement_idx(3, &functions[1..].to_vec(), true),
        None
    );
}

#[test]
fn the_name_is_chosen_from_the_two_removals() {
    let plain = || Some("a::<u8>::b".to_string());
    let bare = || Some("a::::b".to_string());
    assert_eq!(name_from_removals(plain(), bare(), true), plain());
    assert_eq!(name_from_removals(plain(), None, true), plain());
    assert_eq!(name_from_removals(plain(), bare(), false), bare());
    assert_eq!(name_from_removals(plain(), None, false), None);
    assert_eq!(name_from_removals(None, bare(), true), None);
    assert_eq!(name_from_removals(None, bare(), false), None);
    assert_eq!(name_from_removals(None, None, false), None);
}
