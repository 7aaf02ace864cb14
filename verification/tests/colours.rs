use ion::config::{Colour, ColourMap, Config};
use ion::format::{format_object, write_remaining};
use ion::token::{tokens_to_text, Token};
use ion::value::{Category, Entry, Value};

fn config(depth: u32, object: Colour) -> Config {
    Config {
        depth,
        indentation: 0,
        multiline: false,
        iteration: 100,
        colours: ColourMap { object },
        quoted: false,
    }
}

fn leaf(text: &str) -> Value {
    Value {
        class: Category::Number,
        typed_view: None,
        entries: vec![],
        rendered: text.to_string(),
    }
}

#[test]
fn placeholder_is_wrapped_in_colour_escapes() {
    colored::control::set_override(true);
    let v = leaf("");
    let v = Value { class: Category::Object, ..v };
    let out = format_object(config(4, Colour::Blue), &v).to_text();
    assert_eq!(out, "\u{1b}[34m[Object]\u{1b}[0m");
}

#[test]
fn empty_object_token_is_coloured() {
    colored::control::set_override(true);
    let v = Value {
        class: Category::Object,
        typed_view: None,
        entries: vec![],
        rendered: String::new(),
    };
    let out = format_object(config(0, Colour::Red), &v).to_text();
    assert_eq!(out, "\u{1b}[31m{}\u{1b}[0m");
}

#[test]
fn structural_tokens_are_coloured_and_content_is_not() {
    colored::control::set_override(true);
    let v = Value {
        class: Category::Object,
        typed_view: None,
        entries: vec![Entry { key: "a".to_string(), value: leaf("1") }],
        rendered: String::new(),
    };
    let out = format_object(config(0, Colour::Green), &v).to_text();
    assert_eq!(
        out,
        "\u{1b}[32m{\u{1b}[0m a\u{1b}[32m:\u{1b}[0m 1 \u{1b}[32m}\u{1b}[0m"
    );
}

#[test]
fn coloured_renders_are_deterministic() {
    colored::control::set_override(true);
    let v = Value {
        class: Category::Object,
        typed_view: None,
        entries: vec![Entry { key: "a".to_string(), value: leaf("1") }],
        rendered: String::new(),
    };
    let cfg = config(0, Colour::Cyan);
    let first = format_object(cfg, &v).to_text();
    let second = format_object(cfg, &v).to_text();
    assert_eq!(first, second);
}

#[test]
fn remaining_marker_pieces_are_coloured_separately() {
    colored::control::set_override(true);
    let mut out: Vec<Token> = Vec::new();
    write_remaining(&mut out, 2, None, Colour::Blue);
    assert_eq!(
        tokens_to_text(&out),
        "\u{1b}[34m...\u{1b}[0m \u{1b}[34m2\u{1b}[0m \u{1b}[34mmore items\u{1b}[0m "
    );
}
