use ion::config::{Colour, ColourMap, Config};
use ion::format::{format_object, format_plain_object};
use ion::value::{classify, Category, ElementKind, Entry, Value};

fn config(depth: u32) -> Config {
    Config {
        depth,
        indentation: 0,
        multiline: false,
        iteration: 100,
        colours: ColourMap { object: Colour::Blue },
        quoted: false,
    }
}

fn render(cfg: Config, value: &Value) -> String {
    colored::control::set_override(false);
    format_object(cfg, value).to_text()
}

fn with_class(class: Category, rendered: &str) -> Value {
    Value {
        class,
        typed_view: None,
        entries: vec![],
        rendered: rendered.to_string(),
    }
}

#[test]
fn empty_object_token() {
    let v = with_class(Category::Object, "");
    assert_eq!(render(config(0), &v), "{}");
    assert_eq!(render(config(3), &v), "{}");
}

#[test]
fn depth_cap_placeholder() {
    let v = with_class(Category::Object, "");
    assert_eq!(render(config(4), &v), "[Object]");
    assert_eq!(render(config(9), &v), "[Object]");
}

#[test]
fn depth_cap_ignores_contents() {
    let v = Value {
        class: Category::Object,
        typed_view: None,
        entries: vec![Entry {
            key: "a".to_string(),
            value: with_class(Category::Number, "1"),
        }],
        rendered: String::new(),
    };
    assert_eq!(render(config(4), &v), "[Object]");
}

#[test]
fn nesting_stops_at_the_depth_cap() {
    let mut v = with_class(Category::Object, "");
    for _ in 0..4 {
        v = Value {
            class: Category::Object,
            typed_view: None,
            entries: vec![Entry { key: "a".to_string(), value: v }],
            rendered: String::new(),
        };
    }
    assert_eq!(render(config(0), &v), "{ a: { a: { a: { a: [Object] } } } }");
}

#[test]
fn leaf_categories_use_their_renderer_text() {
    let cases = [
        (Category::Boolean, "Boolean { true }"),
        (Category::Number, "Number { 3 }"),
        (Category::Str, "String { \"hi\" }"),
        (Category::BigInt, "9n"),
        (Category::Array, "[1, 2]"),
        (Category::Date, "2024-01-01T00:00:00Z"),
        (Category::Promise, "Promise { <pending> }"),
        (Category::RegExp, "/ab+/g"),
        (Category::Function, "function f()"),
        (Category::ArrayBuffer, "ArrayBuffer { [Uint8Contents]: <> }"),
        (Category::Error, "TypeError: x is not a function"),
        (Category::Unclassified, "Symbol(\"s\")"),
    ];
    for (class, text) in cases {
        let v = with_class(class, text);
        assert_eq!(render(config(0), &v), text);
    }
}

#[test]
fn error_objects_skip_the_generic_layout() {
    let v = Value {
        class: Category::Error,
        typed_view: None,
        entries: vec![Entry {
            key: "message".to_string(),
            value: with_class(Category::Str, "\"boom\""),
        }],
        rendered: "Error: boom".to_string(),
    };
    assert_eq!(render(config(0), &v), "Error: boom");
}

#[test]
fn typed_views_route_past_the_generic_layout() {
    let kinds = [
        ElementKind::Int8,
        ElementKind::Uint8,
        ElementKind::Int16,
        ElementKind::Uint16,
        ElementKind::Int32,
        ElementKind::Uint32,
        ElementKind::Float32,
        ElementKind::Float64,
        ElementKind::Uint8Clamped,
    ];
    for kind in kinds {
        for class in [Category::Object, Category::Other] {
            let v = Value {
                class,
                typed_view: Some(kind),
                entries: vec![Entry {
                    key: "0".to_string(),
                    value: with_class(Category::Number, "1"),
                }],
                rendered: "TypedView [1]".to_string(),
            };
            assert_eq!(render(config(0), &v), "TypedView [1]");
        }
    }
}

#[test]
fn other_without_view_expands_as_an_object() {
    let v = Value {
        class: Category::Other,
        typed_view: None,
        entries: vec![Entry {
            key: "a".to_string(),
            value: with_class(Category::Number, "1"),
        }],
        rendered: "ignored".to_string(),
    };
    assert_eq!(render(config(0), &v), "{ a: 1 }");
}

#[test]
fn plain_object_display_disregards_the_class() {
    let v = Value {
        class: Category::Date,
        typed_view: None,
        entries: vec![Entry {
            key: "a".to_string(),
            value: with_class(Category::Number, "1"),
        }],
        rendered: "2024-01-01".to_string(),
    };
    colored::control::set_override(false);
    assert_eq!(format_plain_object(config(0), &v).to_text(), "{ a: 1 }");
}

#[test]
fn classification_is_the_class_tag() {
    let v = with_class(Category::Promise, "");
    assert_eq!(classify(&v), Category::Promise);
}

#[test]
fn token_stream_separates_structure_from_content() {
    let v = Value {
        class: Category::Object,
        typed_view: None,
        entries: vec![Entry {
            key: "a".to_string(),
            value: with_class(Category::Number, "1"),
        }],
        rendered: String::new(),
    };
    let ts = format_object(config(0), &v).tokens();
    let texts: Vec<&str> = ts.iter().map(|t| t.text.as_str()).collect();
    assert_eq!(texts, vec!["{", " ", "a", ":", " ", "1", " ", "}"]);
    let coloured: Vec<bool> = ts.iter().map(|t| t.colour.is_some()).collect();
    assert_eq!(
        coloured,
        vec![true, false, false, true, false, false, false, true]
    );
}

#[test]
fn renders_are_deterministic() {
    let v = Value {
        class: Category::Object,
        typed_view: None,
        entries: vec![
            Entry {
                key: "a".to_string(),
                value: with_class(Category::Number, "1"),
            },
            Entry {
                key: "b".to_string(),
                value: with_class(Category::Number, "2"),
            },
        ],
        rendered: String::new(),
    };
    let cfg = config(0);
    colored::control::set_override(false);
    let first = format_object(cfg, &v).to_text();
    let second = format_object(cfg, &v).to_text();
    assert_eq!(first, second);
}
