use ion::config::{Colour, ColourMap, Config};
use ion::format::format_object;
use ion::value::{Category, Entry, Value};

fn leaf(text: &str) -> Value {
    Value {
        class: Category::Number,
        typed_view: None,
        entries: vec![],
        rendered: text.to_string(),
    }
}

fn object(pairs: Vec<(&str, Value)>) -> Value {
    let entries = pairs
        .into_iter()
        .map(|(key, value)| Entry { key: key.to_string(), value })
        .collect();
    Value {
        class: Category::Object,
        typed_view: None,
        entries,
        rendered: String::new(),
    }
}

fn config(depth: u32, indentation: u32) -> Config {
    Config {
        depth,
        indentation,
        multiline: true,
        iteration: 100,
        colours: ColourMap { object: Colour::Blue },
        quoted: false,
    }
}

fn render(cfg: Config, value: &Value) -> String {
    colored::control::set_override(false);
    format_object(cfg, value).to_text()
}

#[test]
fn two_entries_one_line_each() {
    let v = object(vec![("a", leaf("1")), ("b", leaf("2"))]);
    assert_eq!(render(config(0, 0), &v), "{\n  a: 1,\n  b: 2,\n}");
}

#[test]
fn base_indentation_shifts_every_line() {
    let v = object(vec![("a", leaf("1"))]);
    assert_eq!(render(config(0, 1), &v), "{\n    a: 1,\n  }");
}

#[test]
fn nested_objects_indent_one_unit_deeper() {
    let inner = object(vec![("b", leaf("1"))]);
    let v = object(vec![("a", inner)]);
    assert_eq!(render(config(0, 0), &v), "{\n  a: {\n    b: 1,\n  },\n}");
}

#[test]
fn no_marker_beyond_the_iteration_cap() {
    let v = object(vec![("a", leaf("1")), ("b", leaf("2")), ("c", leaf("3"))]);
    let mut cfg = config(0, 0);
    cfg.iteration = 2;
    assert_eq!(render(cfg, &v), "{\n  a: 1,\n  b: 2,\n}");
}

#[test]
fn empty_object_stays_on_one_line() {
    let v = object(vec![]);
    assert_eq!(render(config(0, 0), &v), "{}");
}
