use toml_view::render::{decimal_text, render};
use toml_view::style::{annotate, Style};
use toml_view::value::Value;
use toml_view::viewer::{failure_message, view, Failure};

fn s(t: &str) -> String {
    t.to_string()
}

fn plain(v: &Value) -> String {
    render(v, None, false)
}

fn ints(xs: &[i64]) -> Value {
    Value::Array(xs.iter().map(|x| Value::Integer(*x)).collect())
}

fn end_to_end_doc() -> Value {
    Value::Table(vec![
        (s("a"), Value::Integer(1)),
        (s("b"), Value::Table(vec![(s("c"), Value::Integer(2))])),
    ])
}

#[test]
fn decimal_text_of_integers() {
    assert_eq!(decimal_text(0), "0");
    assert_eq!(decimal_text(1234), "1234");
    assert_eq!(decimal_text(-5), "-5");
    assert_eq!(decimal_text(i64::MAX), "9223372036854775807");
    assert_eq!(decimal_text(i64::MIN), "-9223372036854775808");
}

#[test]
fn render_scalars() {
    assert_eq!(plain(&Value::String(s("hi"))), "\"hi\"");
    assert_eq!(plain(&Value::Integer(-42)), "-42");
    assert_eq!(plain(&Value::Float(s("1.5"))), "1.5");
    assert_eq!(plain(&Value::Boolean(true)), "true");
    assert_eq!(plain(&Value::Boolean(false)), "false");
    assert_eq!(plain(&Value::Datetime(s("1979-05-27T07:32:00Z"))), "1979-05-27T07:32:00Z");
}

#[test]
fn render_array_without_trailing_comma() {
    assert_eq!(plain(&ints(&[1, 2, 3])), "[1, 2, 3]");
    assert_eq!(plain(&ints(&[])), "[]");
    assert_eq!(plain(&ints(&[7])), "[7]");
}

#[test]
fn render_nested_and_mixed_arrays() {
    let v = Value::Array(vec![ints(&[1, 2]), Value::String(s("x")), ints(&[])]);
    assert_eq!(plain(&v), "[[1, 2], \"x\", []]");
}

#[test]
fn render_assignments_before_sections() {
    let v = Value::Table(vec![
        (s("t"), Value::Table(vec![(s("k"), Value::Boolean(true))])),
        (s("z"), ints(&[1])),
    ]);
    assert_eq!(plain(&v), "z = [1]\n\n[t]\nk = true\n");
}

#[test]
fn render_table_without_direct_entries_has_no_header() {
    let v = Value::Table(vec![(
        s("x"),
        Value::Table(vec![(s("y"), Value::Table(vec![(s("z"), Value::Integer(1))]))]),
    )]);
    assert_eq!(plain(&v), "\n[x.y]\nz = 1\n");
    let empty = Value::Table(vec![(s("e"), Value::Table(vec![]))]);
    assert_eq!(plain(&empty), "");
}

#[test]
fn render_with_parent_name() {
    let v = Value::Table(vec![(s("c"), Value::Table(vec![(s("d"), Value::Integer(3))]))]);
    let parent = s("a.b");
    assert_eq!(render(&v, Some(&parent), false), "\n[a.b.c]\nd = 3\n");
}

#[test]
fn render_is_deterministic() {
    let v = end_to_end_doc();
    assert_eq!(plain(&v), plain(&v));
}

#[test]
fn end_to_end_whole_document() {
    let doc = end_to_end_doc();
    assert_eq!(view(&doc, None, false), Ok(s("a = 1\n\n[b]\nc = 2\n")));
}

#[test]
fn end_to_end_query() {
    let doc = end_to_end_doc();
    assert_eq!(view(&doc, Some("b.c"), false), Ok(s("2\n")));
    assert_eq!(view(&doc, Some("b"), false), Ok(s("c = 2\n\n")));
}

#[test]
fn end_to_end_query_not_found() {
    let doc = end_to_end_doc();
    assert_eq!(view(&doc, Some("b.missing"), false), Err(Failure::QueryNotFound));
    assert_eq!(view(&doc, Some("a.x"), false), Err(Failure::QueryNotFound));
}

#[test]
fn end_to_end_empty_query_shows_root() {
    let doc = end_to_end_doc();
    assert_eq!(view(&doc, Some(""), false), Ok(s("a = 1\n\n[b]\nc = 2\n")));
}

#[test]
fn failure_messages_without_color() {
    assert_eq!(
        failure_message(Failure::QueryNotFound, "b.missing", false),
        "Error: Query 'b.missing' not found"
    );
    assert_eq!(failure_message(Failure::OpenFailure, "x.toml", false), "Error: Cannot open file 'x.toml'");
    assert_eq!(failure_message(Failure::ParseFailure, "x.toml", false), "Error: Cannot parse file 'x.toml'");
}

#[test]
fn annotate_without_color_is_identity() {
    assert_eq!(annotate("abc", Style::StringLit, false), "abc");
    assert_eq!(annotate("abc", Style::Plain, true), "abc");
}

#[test]
fn annotate_with_color_wraps_in_markers() {
    colored::control::set_override(true);
    assert_eq!(annotate("hi", Style::StringLit, true), "\u{1b}[32mhi\u{1b}[0m");
    assert_eq!(annotate("7", Style::Number, true), "\u{1b}[35m7\u{1b}[0m");
    assert_eq!(annotate("k", Style::KeyName, true), "\u{1b}[34mk\u{1b}[0m");
    assert_eq!(annotate("n", Style::SectionHeader, true), "\u{1b}[37mn\u{1b}[0m");
    assert_eq!(annotate("Error:", Style::ErrorLabel, true), "\u{1b}[31mError:\u{1b}[0m");
}

fn strip_markers(t: &str) -> String {
    let mut out = String::new();
    let mut chars = t.chars().peekable();
    while let Some(c) = chars.next() {
        if c == '\u{1b}' {
            while let Some(d) = chars.next() {
                if d == 'm' {
                    break;
                }
            }
        } else {
            out.push(c);
        }
    }
    out
}

#[test]
fn color_changes_only_markers() {
    colored::control::set_override(true);
    let doc = Value::Table(vec![
        (s("name"), Value::String(s("x"))),
        (s("list"), ints(&[1, 2])),
        (s("b"), Value::Table(vec![(s("c"), Value::Boolean(false))])),
    ]);
    let colored_text = render(&doc, None, true);
    let plain_text = render(&doc, None, false);
    assert_ne!(colored_text, plain_text);
    assert_eq!(strip_markers(&colored_text), plain_text);
}
