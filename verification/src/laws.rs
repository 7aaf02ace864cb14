//! The guarantees the renderers give, stated over the token-stream
//! specifications and proved once and for all.

use vstd::prelude::*;

use crate::config::{Config, DEPTH_CAP};
use crate::format::{
    enumerated, indent_text, spec_multi_entries, spec_pair_tokens,
    spec_remaining, spec_single_entries, spec_value_tokens, dec_digits, SINGLE_LINE_KEYS,
};
use crate::token::{
    col_tok, esc_free, lemma_strip_painted, painted_as, plain_tok, strip_ansi, texts_of, SpecToken,
};
use crate::value::{Category, ElementKind, Entry, Value};

verus! {

/// A generic object whose enumeration yields no more keys than the
/// single-line cap renders, in single-line mode below the depth cap, as all
/// its key-value pairs between the braces, comma-space separated, with no
/// elision marker.
pub proof fn lemma_single_line_all_keys(cfg: Config, v: Value)
    requires
        v.class == Category::Object,
        v.typed_view is None,
        cfg.depth < DEPTH_CAP,
        !cfg.multiline,
        0 < enumerated(v, cfg.iteration).len() <= SINGLE_LINE_KEYS,
    ensures
        spec_value_tokens(cfg, v) == seq![
            col_tok("{"@, cfg.colours.object),
            plain_tok(" "@),
        ] + spec_single_entries(cfg, enumerated(v, cfg.iteration)) + seq![
            plain_tok(" "@),
            col_tok("}"@, cfg.colours.object),
        ],
{
    let keys = enumerated(v, cfg.iteration);
    assert(spec_value_tokens(cfg, v) =~= seq![
        col_tok("{"@, cfg.colours.object),
        plain_tok(" "@),
    ] + spec_single_entries(cfg, keys) + seq![
        plain_tok(" "@),
        col_tok("}"@, cfg.colours.object),
    ]);
}

/// A generic object whose enumeration yields more keys than the single-line
/// cap renders, in single-line mode below the depth cap, as exactly the
/// first three key-value pairs, a separator, and the elision marker for the
/// keys left out.
pub proof fn lemma_single_line_truncated(cfg: Config, v: Value)
    requires
        v.class == Category::Object,
        v.typed_view is None,
        cfg.depth < DEPTH_CAP,
        !cfg.multiline,
        enumerated(v, cfg.iteration).len() > SINGLE_LINE_KEYS,
    ensures
        spec_value_tokens(cfg, v) == seq![
            col_tok("{"@, cfg.colours.object),
            plain_tok(" "@),
        ] + spec_single_entries(cfg, enumerated(v, cfg.iteration).take(SINGLE_LINE_KEYS as int))
            + seq![col_tok(","@, cfg.colours.object), plain_tok(" "@)] + spec_remaining(
            (enumerated(v, cfg.iteration).len() - SINGLE_LINE_KEYS) as nat,
            Option::None,
            cfg.colours.object,
        ) + seq![col_tok("}"@, cfg.colours.object)],
{
    let keys = enumerated(v, cfg.iteration);
    assert(spec_value_tokens(cfg, v) =~= seq![
        col_tok("{"@, cfg.colours.object),
        plain_tok(" "@),
    ] + spec_single_entries(cfg, keys.take(SINGLE_LINE_KEYS as int)) + seq![
        col_tok(","@, cfg.colours.object),
        plain_tok(" "@),
    ] + spec_remaining(
        (keys.len() - SINGLE_LINE_KEYS) as nat,
        Option::None,
        cfg.colours.object,
    ) + seq![col_tok("}"@, cfg.colours.object)]);
}

/// An elision marker for exactly one truncated item is the literal one-item
/// text and a trailing space.
pub proof fn lemma_remaining_one(colour: crate::config::Colour)
    ensures
        spec_remaining(1, Option::None, colour) == seq![
            col_tok("... 1 more item"@, colour),
            plain_tok(" "@),
        ],
{
    assert(spec_remaining(1, Option::None, colour) =~= seq![
        col_tok("... 1 more item"@, colour),
        plain_tok(" "@),
    ]);
}

/// An elision marker for more than one truncated item is an ellipsis, the
/// count in plain decimal, the many-items text, and a trailing space.
pub proof fn lemma_remaining_many(remaining: nat, colour: crate::config::Colour)
    requires
        remaining > 1,
    ensures
        spec_remaining(remaining, Option::None, colour) == seq![
            col_tok("..."@, colour),
            plain_tok(" "@),
            col_tok(dec_digits(remaining), colour),
            plain_tok(" "@),
            col_tok("more items"@, colour),
            plain_tok(" "@),
        ],
{
    assert(spec_remaining(remaining, Option::None, colour) =~= seq![
        col_tok("..."@, colour),
        plain_tok(" "@),
        col_tok(dec_digits(remaining), colour),
        plain_tok(" "@),
        col_tok("more items"@, colour),
        plain_tok(" "@),
    ]);
}

/// At or beyond the depth cap a generic object renders as the fixed
/// placeholder token, regardless of its contents — so any further nesting
/// renders the same placeholder again.
pub proof fn lemma_depth_capped(cfg: Config, v: Value)
    requires
        v.class == Category::Object || v.class == Category::Other,
        v.typed_view is None,
        cfg.depth >= DEPTH_CAP,
    ensures
        spec_value_tokens(cfg, v) == seq![col_tok("[Object]"@, cfg.colours.object)],
{
}

/// An object with no entries renders, below the depth cap, as the
/// empty-object token alone: no entry is visited.
pub proof fn lemma_empty_object(cfg: Config, v: Value)
    requires
        v.class == Category::Object,
        v.typed_view is None,
        cfg.depth < DEPTH_CAP,
        v.entries@.len() == 0,
    ensures
        spec_value_tokens(cfg, v) == seq![col_tok("{}"@, cfg.colours.object)],
{
    assert(enumerated(v, cfg.iteration).len() == 0);
}

/// In multi-line mode below the depth cap, a generic object with at least
/// one enumerated key renders as the opening brace and a newline, one line
/// per enumerated entry, and a closing brace indented by exactly
/// `indentation + depth` repetitions of the indent unit.
pub proof fn lemma_multiline_layout(cfg: Config, v: Value)
    requires
        v.class == Category::Object,
        v.typed_view is None,
        cfg.depth < DEPTH_CAP,
        cfg.multiline,
        enumerated(v, cfg.iteration).len() > 0,
    ensures
        spec_value_tokens(cfg, v) == seq![
            col_tok("{"@, cfg.colours.object),
            plain_tok("\n"@),
        ] + spec_multi_entries(cfg, enumerated(v, cfg.iteration)) + seq![
            plain_tok(indent_text(cfg.indentation + cfg.depth)),
            col_tok("}"@, cfg.colours.object),
        ],
{
}

/// Each multi-line entry line opens with an indent of exactly
/// `indentation + depth + 1` repetitions of the indent unit, followed by the
/// key-value pair, a separator and a newline.
pub proof fn lemma_multiline_entry_lines(cfg: Config, es: Seq<Entry>)
    requires
        cfg.depth < DEPTH_CAP,
        es.len() > 0,
    ensures
        spec_multi_entries(cfg, es) == seq![
            plain_tok(indent_text(cfg.indentation + cfg.depth + 1)),
        ] + spec_pair_tokens(cfg, es[0].key@, es[0].value) + seq![
            col_tok(","@, cfg.colours.object),
            plain_tok("\n"@),
        ] + spec_multi_entries(cfg, es.skip(1)),
{
}

/// An indentation of `n` repetitions of the two-character indent unit is
/// `2 * n` characters long.
pub proof fn lemma_indent_len(n: int)
    requires
        n >= 0,
    ensures
        indent_text(n).len() == 2 * n,
    decreases n,
{
    if n > 0 {
        lemma_indent_len(n - 1);
        reveal_strlit("  ");
        assert("  "@.len() == 2);
    }
}

/// Rendering is deterministic: the token stream is a function of the
/// configuration and the value, so any two streams produced for the same
/// pair are equal, and two renderings differ at most in colour decoration.
pub proof fn lemma_deterministic(cfg: Config, v: Value, first: Seq<SpecToken>, second: Seq<
    SpecToken,
>)
    requires
        first == spec_value_tokens(cfg, v),
        second == spec_value_tokens(cfg, v),
    ensures
        first == second,
{
}

/// Two renderings of the same token stream are byte-identical once colour
/// codes are stripped, provided the stream's texts carry no escape
/// character: both strip to the stream's logical content. In particular,
/// two successive renders of the same configuration and value differ at
/// most in colour decoration.
pub proof fn lemma_stripped_outputs_equal(first: Seq<char>, second: Seq<char>, ts: Seq<SpecToken>)
    requires
        painted_as(first, ts),
        painted_as(second, ts),
        forall|i: int| 0 <= i < ts.len() ==> esc_free(#[trigger] ts[i].text),
    ensures
        strip_ansi(first) == texts_of(ts),
        strip_ansi(second) == texts_of(ts),
        strip_ansi(first) == strip_ansi(second),
{
    lemma_strip_painted(first, ts);
    lemma_strip_painted(second, ts);
}

/// A value that exposes a typed numeric view renders, for every element
/// kind, through the typed-array path: its view's text alone, never the
/// generic-object layout, whatever its entries and depth.
pub proof fn lemma_typed_view_routing(cfg: Config, v: Value, kind: ElementKind)
    requires
        v.class == Category::Object || v.class == Category::Other,
        v.typed_view == Option::Some(kind),
    ensures
        spec_value_tokens(cfg, v) == seq![plain_tok(v.rendered@)],
{
}

} // verus!

