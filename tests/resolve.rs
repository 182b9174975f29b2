use toml_view::path::{parse_index, resolve, split_query};
use toml_view::value::Value;

fn s(t: &str) -> String {
    t.to_string()
}

fn sample() -> Value {
    Value::Table(vec![
        (s("a"), Value::Integer(1)),
        (
            s("b"),
            Value::Table(vec![
                (s("c"), Value::Integer(2)),
                (s("list"), Value::Array(vec![Value::Integer(10), Value::String(s("x"))])),
            ]),
        ),
        (s("Name"), Value::String(s("upper"))),
    ])
}

#[test]
fn resolve_nested_key() {
    let doc = sample();
    assert_eq!(resolve(&doc, "b.c"), Some(&Value::Integer(2)));
    assert_eq!(resolve(&doc, "a"), Some(&Value::Integer(1)));
}

#[test]
fn resolve_array_index() {
    let doc = sample();
    assert_eq!(resolve(&doc, "b.list.0"), Some(&Value::Integer(10)));
    assert_eq!(resolve(&doc, "b.list.1"), Some(&Value::String(s("x"))));
    assert_eq!(resolve(&doc, "b.list.+1"), Some(&Value::String(s("x"))));
}

#[test]
fn resolve_index_out_of_range_or_not_numeric() {
    let doc = sample();
    assert_eq!(resolve(&doc, "b.list.2"), None);
    assert_eq!(resolve(&doc, "b.list.x"), None);
    assert_eq!(resolve(&doc, "b.list.-1"), None);
}

#[test]
fn resolve_missing_key() {
    let doc = sample();
    assert_eq!(resolve(&doc, "b.missing"), None);
    assert_eq!(resolve(&doc, "zzz"), None);
}

#[test]
fn resolve_into_scalar_fails() {
    let doc = sample();
    assert_eq!(resolve(&doc, "a.x"), None);
    assert_eq!(resolve(&doc, "b.c.d"), None);
}

#[test]
fn resolve_empty_segments_fail() {
    let doc = sample();
    assert_eq!(resolve(&doc, "b..c"), None);
    assert_eq!(resolve(&doc, "b.c."), None);
    assert_eq!(resolve(&doc, ".a"), None);
}

#[test]
fn resolve_is_case_sensitive() {
    let doc = sample();
    assert_eq!(resolve(&doc, "Name"), Some(&Value::String(s("upper"))));
    assert_eq!(resolve(&doc, "name"), None);
}

#[test]
fn resolve_empty_query_is_left_to_the_caller() {
    // The resolver itself reads "" as one empty key; showing the whole
    // document for an empty query is the caller's choice.
    let doc = sample();
    assert_eq!(resolve(&doc, ""), None);
    let keyed = Value::Table(vec![(s(""), Value::Boolean(true))]);
    assert_eq!(resolve(&keyed, ""), Some(&Value::Boolean(true)));
}

#[test]
fn split_query_keeps_empty_segments() {
    assert_eq!(split_query("a.b"), vec!["a", "b"]);
    assert_eq!(split_query(""), vec![""]);
    assert_eq!(split_query("a..b."), vec!["a", "", "b", ""]);
}

#[test]
fn parse_index_accepts_plain_numbers() {
    assert_eq!(parse_index("0"), Some(0));
    assert_eq!(parse_index("42"), Some(42));
    assert_eq!(parse_index("+7"), Some(7));
    assert_eq!(parse_index("007"), Some(7));
    assert_eq!(parse_index("18446744073709551615"), Some(usize::MAX));
}

#[test]
fn parse_index_rejects_other_text() {
    assert_eq!(parse_index(""), None);
    assert_eq!(parse_index("+"), None);
    assert_eq!(parse_index("-1"), None);
    assert_eq!(parse_index("1a"), None);
    assert_eq!(parse_index("18446744073709551616"), None);
}
