use tg_schema::norm::normalize;

#[test]
fn maps_integer_to_i64() {
    assert_eq!(normalize("Integer"), "i64");
}

#[test]
fn maps_true_and_boolean_to_bool() {
    assert_eq!(normalize("True"), "bool");
    assert_eq!(normalize("Boolean"), "bool");
}

#[test]
fn maps_float_to_f64_token() {
    assert_eq!(normalize("Float"), "f64");
}

#[test]
fn maps_union_phrases_to_string() {
    assert_eq!(normalize("InputFile or String"), "String");
    assert_eq!(normalize("Integer or String"), "String");
}

#[test]
fn wraps_array_of() {
    assert_eq!(normalize("Array of String"), "Vec<String>");
    assert_eq!(normalize("Array of Integer"), "Vec<i64>");
}

#[test]
fn wraps_nested_array_of() {
    assert_eq!(normalize("Array of Array of Integer"), "Vec<Vec<i64>>");
}

#[test]
fn deep_nesting_terminates() {
    assert_eq!(
        normalize("Array of Array of Array of Array of Boolean"),
        "Vec<Vec<Vec<Vec<bool>>>>"
    );
}

#[test]
fn unknown_phrase_passes_through() {
    assert_eq!(normalize("PhotoSize"), "PhotoSize");
    assert_eq!(normalize(""), "");
}

#[test]
fn idempotent_on_canonical_tokens() {
    assert_eq!(normalize("i64"), "i64");
    assert_eq!(normalize("bool"), "bool");
    assert_eq!(normalize("f64"), "f64");
    assert_eq!(normalize("String"), "String");
    assert_eq!(normalize("Vec<Vec<i64>>"), "Vec<Vec<i64>>");
}
