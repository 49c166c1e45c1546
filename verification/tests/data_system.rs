use raven::data::{json_extract, query_parts, resolve_path, JsonValue};
use raven::system::{df_args, disk_usage_report, system_info_output};

fn s(t: &str) -> JsonValue {
    JsonValue::Str(t.to_string())
}

fn obj(members: Vec<(&str, JsonValue)>) -> JsonValue {
    JsonValue::Object(members.into_iter().map(|(k, v)| (k.to_string(), v)).collect())
}

fn users() -> JsonValue {
    obj(vec![(
        "users",
        JsonValue::Array(vec![obj(vec![("name", s("Alice"))]), obj(vec![("name", s("Bob"))])]),
    )])
}

#[test]
fn test_json_extract_nested_object() {
    let v = users();
    let r = json_extract(&v, "users.1.name").unwrap();
    assert!(matches!(r, JsonValue::Str(t) if t == "Bob"));
}

#[test]
fn test_json_extract_missing_key() {
    let v = obj(vec![("a", JsonValue::Number("1".into()))]);
    let err = json_extract(&v, "b").unwrap_err();
    assert!(err.contains("not found"));
    assert_eq!(err, "Key 'b' not found at path segment 0");
}

#[test]
fn test_json_extract_array_out_of_bounds() {
    let v = JsonValue::Array(vec![
        JsonValue::Number("1".into()),
        JsonValue::Number("2".into()),
        JsonValue::Number("3".into()),
    ]);
    let err = json_extract(&v, "5").unwrap_err();
    assert!(err.contains("out of bounds"));
    assert_eq!(err, "Array index 5 out of bounds (length 3) at path segment 0");
}

#[test]
fn test_json_extract_top_level_array() {
    let v = JsonValue::Array(vec![s("a"), s("b"), s("c")]);
    let r = json_extract(&v, "1").unwrap();
    assert!(matches!(r, JsonValue::Str(t) if t == "b"));
}

#[test]
fn json_extract_type_mismatches() {
    let v = users();
    assert_eq!(
        json_extract(&v, "users.name").unwrap_err(),
        "Cannot access key 'name' on non-object value at path segment 1"
    );
    assert_eq!(
        json_extract(&v, "users.0.name.0").unwrap_err(),
        "Cannot index into non-array value with '0' at path segment 3"
    );
    assert!(matches!(json_extract(&v, "users.+0.name").unwrap(), JsonValue::Str(t) if t == "Alice"));
    let first = resolve_path(&v, &["users".to_string()]).unwrap();
    assert!(matches!(first, JsonValue::Array(items) if items.len() == 2));
    assert!(matches!(resolve_path(&v, &[]).unwrap(), JsonValue::Object(_)));
}

#[test]
fn query_is_split_on_dots() {
    assert_eq!(query_parts("a.b..c"), vec!["a", "b", "", "c"]);
    assert_eq!(query_parts(""), vec![""]);
    assert_eq!(json_extract(&users(), "").unwrap_err(), "Key '' not found at path segment 0");
}

#[test]
fn system_info_report_layout() {
    let out = system_info_output("Linux box 6.1\n", "  Mem: 1G \n");
    assert_eq!(out, "── System Information ──\nKernel/OS: Linux box 6.1\n\n── Memory ──\nMem: 1G");
    assert!(out.contains("System Information"));
    assert!(out.contains("Memory"));
}

#[test]
fn disk_usage_outcomes() {
    let ok = disk_usage_report(true, Some(0), "Filesystem Size\n/dev/sda 10G\n", "");
    assert!(ok.success);
    assert_eq!(ok.output, "Filesystem Size\n/dev/sda 10G");
    assert_eq!(ok.error, None);
    let bad = disk_usage_report(false, Some(1), "", "df: /nope: No such file or directory\n");
    assert!(!bad.success);
    assert_eq!(bad.output, "\n--- stderr ---\ndf: /nope: No such file or directory");
    assert_eq!(bad.error.as_deref(), Some("df: /nope: No such file or directory"));
    let silent = disk_usage_report(false, Some(-2), "", "  ");
    assert_eq!(silent.error.as_deref(), Some("df exited with code Some(-2)"));
    let killed = disk_usage_report(false, None, "", "");
    assert_eq!(killed.error.as_deref(), Some("df exited with code None"));
    assert_eq!(df_args(&None), vec!["-h".to_string()]);
    assert_eq!(df_args(&Some("/".into())), vec!["-h".to_string(), "/".to_string()]);
}
