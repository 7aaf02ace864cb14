use ion::config::{Colour, ColourMap, Config};
use ion::format::format_object;
use ion::value::{Category, Entry, Value};

fn leaf(text: &str) -> Value {
    Value {
        class: Category::Number,
        typed_view: None,
        entries: vec![],
        rendered: text.to_string(),
    }
}

fn object(pairs: Vec<(&str, Value)>) -> Value {
    let entries = pairs
        .into_iter()
        .map(|(key, value)| Entry { key: key.to_string(), value })
        .collect();
    Value {
        class: Category::Object,
        typed_view: None,
        entries,
        rendered: String::new(),
    }
}

fn config(depth: u32) -> Config {
    Config {
        depth,
        indentation: 0,
        multiline: false,
        iteration: 100,
        colours: ColourMap { object: Colour::Blue },
        quoted: false,
    }
}

fn render(cfg: Config, value: &Value) -> String {
    colored::control::set_override(false);
    format_object(cfg, value).to_text()
}

#[test]
fn one_key() {
    let v = object(vec![("a", leaf("1"))]);
    assert_eq!(render(config(0), &v), "{ a: 1 }");
}

#[test]
fn two_keys() {
    let v = object(vec![("a", leaf("1")), ("b", leaf("2"))]);
    assert_eq!(render(config(0), &v), "{ a: 1, b: 2 }");
}

#[test]
fn three_keys_no_marker() {
    let v = object(vec![("a", leaf("1")), ("b", leaf("2")), ("c", leaf("3"))]);
    assert_eq!(render(config(0), &v), "{ a: 1, b: 2, c: 3 }");
}

#[test]
fn four_keys_one_elided() {
    let v = object(vec![
        ("a", leaf("1")),
        ("b", leaf("2")),
        ("c", leaf("3")),
        ("d", leaf("4")),
    ]);
    assert_eq!(render(config(0), &v), "{ a: 1, b: 2, c: 3, ... 1 more item }");
}

#[test]
fn six_keys_three_elided() {
    let v = object(vec![
        ("a", leaf("1")),
        ("b", leaf("2")),
        ("c", leaf("3")),
        ("d", leaf("4")),
        ("e", leaf("5")),
        ("f", leaf("6")),
    ]);
    assert_eq!(
        render(config(0), &v),
        "{ a: 1, b: 2, c: 3, ... 3 more items }"
    );
}

#[test]
fn fifteen_keys_decimal_count() {
    let pairs: Vec<(String, Value)> = (0..15).map(|i| (format!("k{}", i), leaf("0"))).collect();
    let entries = pairs
        .into_iter()
        .map(|(key, value)| Entry { key, value })
        .collect();
    let v = Value {
        class: Category::Object,
        typed_view: None,
        entries,
        rendered: String::new(),
    };
    assert_eq!(
        render(config(0), &v),
        "{ k0: 0, k1: 0, k2: 0, ... 12 more items }"
    );
}

#[test]
fn iteration_cap_bounds_the_count() {
    let v = object(vec![
        ("a", leaf("1")),
        ("b", leaf("2")),
        ("c", leaf("3")),
        ("d", leaf("4")),
        ("e", leaf("5")),
        ("f", leaf("6")),
    ]);
    let mut cfg = config(0);
    cfg.iteration = 5;
    assert_eq!(render(cfg, &v), "{ a: 1, b: 2, c: 3, ... 2 more items }");
}

#[test]
fn iteration_zero_yields_empty_object() {
    let v = object(vec![("a", leaf("1"))]);
    let mut cfg = config(0);
    cfg.iteration = 0;
    assert_eq!(render(cfg, &v), "{}");
}

#[test]
fn nested_object_values() {
    let inner = object(vec![("x", leaf("7"))]);
    let v = object(vec![("a", inner), ("b", leaf("2"))]);
    assert_eq!(render(config(0), &v), "{ a: { x: 7 }, b: 2 }");
}
