use random_tables_web::context::{add_content_to_global, merge_globals, VarContext, VarValue};
use random_tables_web::frontmatter::Metadata;

#[test]
fn merge_globals_empty_metadata_empty_globals() {
    let metadata = Metadata::new();
    let globals = VarContext::new();
    let expected = VarContext::new();

    let actual = merge_globals(&metadata, &globals);
    assert_eq!(expected, actual);
}

#[test]
fn merge_globals_empty_globals() {
    let mut metadata = Metadata::new();
    metadata.insert("metadata".to_string(), "test".to_string());
    let globals = VarContext::new();
    let mut expected = VarContext::new();
    expected.insert("metadata".to_string(), VarValue::Str("test".to_string()));

    let actual = merge_globals(&metadata, &globals);
    assert_eq!(expected, actual);
}

#[test]
fn merge_globals_empty_metadata() {
    let metadata = Metadata::new();
    let mut globals = VarContext::new();
    globals.insert("global".to_string(), VarValue::Str("test".to_string()));
    let mut expected = VarContext::new();
    expected.insert("global".to_string(), VarValue::Str("test".to_string()));

    let actual = merge_globals(&metadata, &globals);
    assert_eq!(expected, actual);
}

#[test]
fn merge_globals_nonoverlaping_metadata_and_globals() {
    let mut metadata = Metadata::new();
    metadata.insert("metadata".to_string(), "test".to_string());

    let mut globals = VarContext::new();
    globals.insert("global".to_string(), VarValue::Str("test".to_string()));

    let mut expected = VarContext::new();
    expected.insert("metadata".to_string(), VarValue::Str("test".to_string()));
    expected.insert("global".to_string(), VarValue::Str("test".to_string()));

    let actual = merge_globals(&metadata, &globals);
    assert_eq!(expected, actual);
}

#[test]
fn merge_globals_overlaping_metadata_and_globals() {
    let mut metadata = Metadata::new();
    metadata.insert("metadata".to_string(), "test".to_string());
    metadata.insert("overlap".to_string(), "metadata".to_string());

    let mut globals = VarContext::new();
    globals.insert("global".to_string(), VarValue::Str("test".to_string()));
    globals.insert("overlap".to_string(), VarValue::Str("globals".to_string()));

    let mut expected = VarContext::new();
    expected.insert("global".to_string(), VarValue::Str("test".to_string()));
    expected.insert("metadata".to_string(), VarValue::Str("test".to_string()));
    expected.insert("overlap".to_string(), VarValue::Str("metadata".to_string()));

    let actual = merge_globals(&metadata, &globals);
    assert_eq!(expected, actual);
}

#[test]
fn merge_globals_leaves_input_context_untouched() {
    let mut metadata = Metadata::new();
    metadata.insert("k".to_string(), "v".to_string());

    let mut globals = VarContext::new();
    globals.insert("global".to_string(), VarValue::Str("test".to_string()));
    let snapshot = globals.clone();

    let merged = merge_globals(&metadata, &globals);

    assert_eq!(snapshot, globals);
    assert!(merged.contains_key("k"));
    assert!(!globals.contains_key("k"));
}

#[test]
fn merge_globals_calls_are_independent() {
    let mut metadata = Metadata::new();
    metadata.insert("k".to_string(), "v".to_string());

    let mut first_start = VarContext::new();
    first_start.insert("a".to_string(), VarValue::Str("1".to_string()));
    let mut second_start = VarContext::new();
    second_start.insert("b".to_string(), VarValue::Str("2".to_string()));

    let first = merge_globals(&metadata, &first_start);
    let second = merge_globals(&metadata, &second_start);

    assert!(first.contains_key("a"));
    assert!(!first.contains_key("b"));
    assert!(second.contains_key("b"));
    assert!(!second.contains_key("a"));
    assert!(first.contains_key("k"));
    assert!(second.contains_key("k"));
}

#[test]
fn add_content_overwrites_reserved_variable() {
    let mut globals = VarContext::new();
    globals.insert("Content".to_string(), VarValue::Str("stale".to_string()));
    add_content_to_global(&mut globals, "fresh".to_string());

    let mut expected = VarContext::new();
    expected.insert("Content".to_string(), VarValue::Str("fresh".to_string()));
    assert_eq!(expected, globals);
}

#[test]
fn context_values_compare_by_content() {
    let a = VarValue::Str("x".to_string());
    let b = VarValue::Str("x".to_string());
    let c = VarValue::Int(3);
    assert_eq!(a, b);
    assert_ne!(a, c);
    assert_ne!(VarValue::Int(3), VarValue::Int(4));
}
