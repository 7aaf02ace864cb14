//! The dispatcher and the renderers: classification-driven routing, the
//! recursive generic-object renderer with its depth cap, truncation and
//! layout policy, and the key-value and remaining-count writers.
//!
//! Every renderer emits structural tokens; what each one emits is stated
//! exactly, as a token stream that is a function of the configuration and
//! the value. The colourizing pass ([`crate::token::tokens_to_text`]) turns
//! a stream into final text.

use vstd::prelude::*;

use crate::config::{Colour, Config, DEPTH_CAP};
use crate::token::{col_tok, plain_tok, toks, painted_as, tokens_to_text, SpecToken, Token};
use crate::value::{classify, Category, Entry, Value};

verus! {

/// In single-line mode at most this many key-value pairs are written; the
/// rest are elided behind a remaining-count marker.
pub const SINGLE_LINE_KEYS: usize = 3;

/// The decimal digit character for `d` (meaningful for `d < 10`).
pub open spec fn dec_digit(d: nat) -> char {
    if d == 0 {
        '0'
    } else if d == 1 {
        '1'
    } else if d == 2 {
        '2'
    } else if d == 3 {
        '3'
    } else if d == 4 {
        '4'
    } else if d == 5 {
        '5'
    } else if d == 6 {
        '6'
    } else if d == 7 {
        '7'
    } else if d == 8 {
        '8'
    } else {
        '9'
    }
}

/// The plain decimal digits of `n`: no sign, no grouping separators.
pub open spec fn dec_digits(n: nat) -> Seq<char>
    decreases n,
{
    if n < 10 {
        seq![dec_digit(n)]
    } else {
        dec_digits(n / 10).push(dec_digit(n % 10))
    }
}

/// The decimal digits of `n`.
///
/// Relies on itoa's `Buffer::format`: the integer's plain decimal digits,
/// as std's integer formatting writes them, with no grouping separators.
#[verifier::external_body]
fn decimal(n: usize) -> (r: String)
    ensures
        r@ == dec_digits(n as nat),
{
    let mut buffer = itoa::Buffer::new();
    buffer.format(n).to_owned()
}

/// `n` repetitions of the indent unit.
pub open spec fn indent_text(n: int) -> Seq<char>
    decreases n,
{
    if n <= 0 {
        Seq::empty()
    } else {
        indent_text(n - 1) + "  "@
    }
}

/// An indentation of `n` repetitions of the indent unit.
fn indent_string(n: u64) -> (r: String)
    ensures
        r@ == indent_text(n as int),
{
    let mut out = String::new();
    let mut i: u64 = 0;
    proof {
        assert(out@ =~= indent_text(0));
    }
    while i < n
        invariant
            0 <= i <= n,
            out@ == indent_text(i as int),
        decreases n - i,
    {
        out.append("  ");
        i += 1;
    }
    out
}

/// The view of an optional prefix string.
pub open spec fn opt_view(inner: Option<&str>) -> Option<Seq<char>> {
    match inner {
        Option::Some(s) => Option::Some(s@),
        Option::None => Option::None,
    }
}

/// The tokens of an elision marker for `remaining` truncated items: nothing
/// for zero; the literal one-item text for one; an ellipsis, the plain
/// decimal count and the many-items text otherwise. An optional prefix is
/// written first and a trailing comma then follows; without a prefix a
/// trailing space follows.
pub open spec fn spec_remaining(remaining: nat, prefix: Option<Seq<char>>, colour: Colour) -> Seq<
    SpecToken,
> {
    if remaining == 0 {
        Seq::empty()
    } else {
        (match prefix {
            Option::Some(p) => seq![plain_tok(p)],
            Option::None => Seq::<SpecToken>::empty(),
        }) + (if remaining == 1 {
            seq![col_tok("... 1 more item"@, colour)]
        } else {
            seq![
                col_tok("..."@, colour),
                plain_tok(" "@),
                col_tok(dec_digits(remaining), colour),
                plain_tok(" "@),
                col_tok("more items"@, colour),
            ]
        }) + (if prefix is Some {
            seq![col_tok(","@, colour)]
        } else {
            seq![plain_tok(" "@)]
        })
    }
}

/// Appends one token to the stream, uncoloured.
fn push_plain(out: &mut Vec<Token>, text: String)
    ensures
        toks(final(out)@) == toks(old(out)@).push(plain_tok(text@)),
{
    let ghost t = text@;
    out.push(Token { text, colour: Option::None });
    proof {
        assert(toks(out@) =~= toks(old(out)@).push(plain_tok(t)));
    }
}

/// Appends one token to the stream, to be colourized.
fn push_col(out: &mut Vec<Token>, text: String, colour: Colour)
    ensures
        toks(final(out)@) == toks(old(out)@).push(col_tok(text@, colour)),
{
    let ghost t = text@;
    out.push(Token { text, colour: Option::Some(colour) });
    proof {
        assert(toks(out@) =~= toks(old(out)@).push(col_tok(t, colour)));
    }
}

/// Writes the elision marker for `remaining` truncated items: nothing when
/// nothing was truncated, the one-item text for one, and the plain decimal
/// count with the many-items text otherwise, all colourized with the given
/// theme colour. A supplied prefix is written first, and a trailing comma
/// then follows; otherwise a trailing space follows.
pub fn write_remaining(out: &mut Vec<Token>, remaining: usize, inner: Option<&str>, colour: Colour)
    ensures
        toks(final(out)@) == toks(old(out)@) + spec_remaining(
            remaining as nat,
            opt_view(inner),
            colour,
        ),
{
    if remaining > 0 {
        if let Option::Some(prefix) = inner {
            push_plain(out, prefix.to_owned());
        }
        if remaining == 1 {
            push_col(out, "... 1 more item".to_owned(), colour);
        } else {
            push_col(out, "...".to_owned(), colour);
            push_plain(out, " ".to_owned());
            push_col(out, decimal(remaining), colour);
            push_plain(out, " ".to_owned());
            push_col(out, "more items".to_owned(), colour);
        }
        if inner.is_some() {
            push_col(out, ",".to_owned(), colour);
        } else {
            push_plain(out, " ".to_owned());
        }
    }
    proof {
        assert(toks(out@) =~= toks(old(out)@) + spec_remaining(
            remaining as nat,
            opt_view(inner),
            colour,
        ));
    }
}

/// Termination measure of the dispatcher at this configuration: recursion
/// descends only below the depth cap, so the remaining budget bounds it.
pub open spec fn fmt_measure(cfg: Config) -> int {
    if cfg.depth < DEPTH_CAP {
        5 * (DEPTH_CAP - cfg.depth) + 4
    } else {
        1
    }
}

/// Termination measure of the generic-object renderer.
pub open spec fn obj_measure(cfg: Config) -> int {
    if cfg.depth < DEPTH_CAP {
        5 * (DEPTH_CAP - cfg.depth) + 3
    } else {
        0
    }
}

/// Termination measure of the per-entry writers.
pub open spec fn entries_measure(cfg: Config) -> int {
    if cfg.depth < DEPTH_CAP {
        5 * (DEPTH_CAP - cfg.depth) + 2
    } else {
        0
    }
}

/// Termination measure of the key-value writer. At and above the depth cap
/// the child it descends into expands nothing, so one fixed budget covers it.
pub open spec fn pair_measure(cfg: Config) -> int {
    if cfg.depth < DEPTH_CAP {
        5 * (DEPTH_CAP - cfg.depth) + 1
    } else {
        30
    }
}

/// The keys an enumeration of `v` yields: its entries in enumeration order,
/// at most `cap` of them.
pub open spec fn enumerated(v: Value, cap: usize) -> Seq<Entry> {
    if v.entries@.len() <= cap {
        v.entries@
    } else {
        v.entries@.take(cap as int)
    }
}

/// The tokens the dispatcher emits for `v` under `cfg`: the value is
/// classified and routed to the renderer of its category. For values of the
/// leaf categories (boxed primitives, arrays, dates, promises, regular
/// expressions, functions, raw byte buffers, errors) the routed-to sibling
/// renderer's text is carried by the model and emitted as it stands; errors
/// in particular carry the exception formatter's text, never the generic
/// object layout. Generic and unrecognized objects are first probed for a
/// typed numeric view — one that exposes such a view is rendered by the
/// typed-array renderer, whatever its entries — and expand as generic
/// objects otherwise. A value no category claims is rendered as the
/// runtime's own textual form, the unconditional last resort.
pub open spec fn spec_value_tokens(cfg: Config, v: Value) -> Seq<SpecToken>
    decreases fmt_measure(cfg), 0int,
{
    match v.class {
        Category::Object | Category::Other => {
            if v.typed_view is Some {
                seq![plain_tok(v.rendered@)]
            } else {
                spec_object_tokens(cfg, v)
            }
        },
        _ => seq![plain_tok(v.rendered@)],
    }
}

/// The tokens of the generic-object layout for `v` under `cfg`, whatever
/// `v`'s class. At or beyond the depth cap: the fixed placeholder token,
/// regardless of the object's contents. Below it, with no enumerated key:
/// the empty-object token. Otherwise the multi-line layout (each enumerated
/// entry on its own line, indented one unit deeper than the closing brace)
/// or the single-line layout (at most [`SINGLE_LINE_KEYS`] pairs, the rest
/// elided behind a remaining-count marker).
pub open spec fn spec_object_tokens(cfg: Config, v: Value) -> Seq<SpecToken>
    decreases obj_measure(cfg), 0int,
{
    let colour = cfg.colours.object;
    if cfg.depth >= DEPTH_CAP {
        seq![col_tok("[Object]"@, colour)]
    } else {
        let keys = enumerated(v, cfg.iteration);
        if keys.len() == 0 {
            seq![col_tok("{}"@, colour)]
        } else if cfg.multiline {
            seq![col_tok("{"@, colour), plain_tok("\n"@)] + spec_multi_entries(cfg, keys) + seq![
                plain_tok(indent_text(cfg.indentation + cfg.depth)),
                col_tok("}"@, colour),
            ]
        } else {
            let shown = if keys.len() <= SINGLE_LINE_KEYS {
                keys
            } else {
                keys.take(SINGLE_LINE_KEYS as int)
            };
            seq![col_tok("{"@, colour), plain_tok(" "@)] + spec_single_entries(cfg, shown) + (
            if keys.len() > SINGLE_LINE_KEYS {
                seq![col_tok(","@, colour), plain_tok(" "@)] + spec_remaining(
                    (keys.len() - SINGLE_LINE_KEYS) as nat,
                    Option::None,
                    colour,
                )
            } else {
                seq![plain_tok(" "@)]
            }) + seq![col_tok("}"@, colour)]
        }
    }
}

/// The tokens of the multi-line entry lines for `es`: for each entry, in
/// order, an indent one unit deeper than the object's own, the key-value
/// pair, a separator and a newline. Entries expand only below the depth cap.
pub open spec fn spec_multi_entries(cfg: Config, es: Seq<Entry>) -> Seq<SpecToken>
    decreases entries_measure(cfg), es.len(),
{
    if es.len() == 0 || cfg.depth >= DEPTH_CAP {
        Seq::empty()
    } else {
        seq![plain_tok(indent_text(cfg.indentation + cfg.depth + 1))] + spec_pair_tokens(
            cfg,
            es[0].key@,
            es[0].value,
        ) + seq![col_tok(","@, cfg.colours.object), plain_tok("\n"@)] + spec_multi_entries(
            cfg,
            es.skip(1),
        )
    }
}

/// The tokens of the single-line run of pairs for `es`: the key-value pairs
/// in order, comma-space separated. Entries expand only below the depth cap.
pub open spec fn spec_single_entries(cfg: Config, es: Seq<Entry>) -> Seq<SpecToken>
    decreases entries_measure(cfg), es.len(),
{
    if es.len() == 0 || cfg.depth >= DEPTH_CAP {
        Seq::empty()
    } else if es.len() == 1 {
        spec_pair_tokens(cfg, es[0].key@, es[0].value)
    } else {
        spec_pair_tokens(cfg, es[0].key@, es[0].value) + seq![
            col_tok(","@, cfg.colours.object),
            plain_tok(" "@),
        ] + spec_single_entries(cfg, es.skip(1))
    }
}

/// The tokens of one `key: value` pair: the key's text, a separator, and the
/// value rendered one level deeper with quoting on.
pub open spec fn spec_pair_tokens(cfg: Config, key: Seq<char>, v: Value) -> Seq<SpecToken>
    decreases pair_measure(cfg), 0int,
{
    seq![plain_tok(key), col_tok(":"@, cfg.colours.object), plain_tok(" "@)] + spec_value_tokens(
        cfg.spec_child(),
        v,
    )
}

/// Writes one property as `key: value`: the key's text, a separator, then
/// the value rendered by the dispatcher one level deeper, with quoting on
/// (nested string values are always quoted, whatever the outer setting).
pub fn write_key_value(out: &mut Vec<Token>, cfg: Config, key: &str, value: &Value)
    requires
        cfg.depth < u32::MAX,
    ensures
        toks(final(out)@) == toks(old(out)@) + spec_pair_tokens(cfg, key@, *value),
    decreases pair_measure(cfg), 0int,
{
    push_plain(out, key.to_owned());
    push_col(out, ":".to_owned(), cfg.colours.object);
    push_plain(out, " ".to_owned());
    value_tokens_into(cfg.child(), value, out);
    proof {
        assert(toks(out@) =~= toks(old(out)@) + spec_pair_tokens(cfg, key@, *value));
    }
}

/// Emits the multi-line entry lines for the first `count` entries of
/// `object`: for each one an indent, the key-value pair, a separator and a
/// newline.
fn multi_entries_into(cfg: Config, object: &Value, count: usize, out: &mut Vec<Token>)
    requires
        cfg.depth < DEPTH_CAP,
        count <= object.entries@.len(),
    ensures
        toks(final(out)@) == toks(old(out)@) + spec_multi_entries(
            cfg,
            object.entries@.take(count as int),
        ),
    decreases entries_measure(cfg), 0int,
{
    let ghost keys = object.entries@.take(count as int);
    let ghost lined = toks(out@);
    let inner = (cfg.indentation as u64) + (cfg.depth as u64) + 1;
    let mut i: usize = 0;
    proof {
        assert(keys.skip(0) =~= keys);
    }
    while i < count
        invariant
            0 <= i <= count,
            count <= object.entries@.len(),
            cfg.depth < DEPTH_CAP,
            inner == cfg.indentation + cfg.depth + 1,
            keys == object.entries@.take(count as int),
            toks(out@) + spec_multi_entries(cfg, keys.skip(i as int)) == lined
                + spec_multi_entries(cfg, keys),
        decreases count - i,
    {
        let ghost before = toks(out@);
        push_plain(out, indent_string(inner));
        let entry = &object.entries[i];
        write_key_value(out, cfg, entry.key.as_str(), &entry.value);
        push_col(out, ",".to_owned(), cfg.colours.object);
        push_plain(out, "\n".to_owned());
        proof {
            let rest = keys.skip(i as int);
            assert(keys.len() == count);
            assert(rest.len() > 0);
            assert(rest[0] == object.entries@[i as int]);
            assert(rest.skip(1) =~= keys.skip(i as int + 1));
            let step = seq![plain_tok(indent_text(cfg.indentation + cfg.depth + 1))]
                + spec_pair_tokens(
                cfg,
                object.entries@[i as int].key@,
                object.entries@[i as int].value,
            ) + seq![col_tok(","@, cfg.colours.object), plain_tok("\n"@)];
            assert(spec_multi_entries(cfg, rest) == step + spec_multi_entries(
                cfg,
                rest.skip(1),
            ));
            assert(toks(out@) =~= before + step);
            assert(toks(out@) + spec_multi_entries(cfg, keys.skip(i as int + 1)) =~= (before
                + spec_multi_entries(cfg, rest)));
        }
        i += 1;
    }
    proof {
        assert(keys.skip(count as int) =~= Seq::<Entry>::empty());
        assert(toks(out@) =~= lined + spec_multi_entries(cfg, keys));
    }
}

/// Emits the single-line run of pairs for the first `shown` entries of
/// `object`, comma-space separated.
fn single_entries_into(cfg: Config, object: &Value, shown: usize, out: &mut Vec<Token>)
    requires
        cfg.depth < DEPTH_CAP,
        shown <= object.entries@.len(),
    ensures
        toks(final(out)@) == toks(old(out)@) + spec_single_entries(
            cfg,
            object.entries@.take(shown as int),
        ),
    decreases entries_measure(cfg), 0int,
{
    let ghost picked = object.entries@.take(shown as int);
    let ghost fronted = toks(out@);
    let mut i: usize = 0;
    proof {
        assert(picked.skip(0) =~= picked);
    }
    while i < shown
        invariant
            0 <= i <= shown,
            shown <= object.entries@.len(),
            cfg.depth < DEPTH_CAP,
            picked == object.entries@.take(shown as int),
            toks(out@) + spec_single_entries(cfg, picked.skip(i as int)) == fronted
                + spec_single_entries(cfg, picked),
        decreases shown - i,
    {
        let ghost before = toks(out@);
        let entry = &object.entries[i];
        write_key_value(out, cfg, entry.key.as_str(), &entry.value);
        if i + 1 < shown {
            push_col(out, ",".to_owned(), cfg.colours.object);
            push_plain(out, " ".to_owned());
        }
        proof {
            let rest = picked.skip(i as int);
            assert(picked.len() == shown);
            assert(rest.len() == shown - i);
            assert(rest[0] == object.entries@[i as int]);
            assert(rest.skip(1) =~= picked.skip(i as int + 1));
            let pair = spec_pair_tokens(
                cfg,
                object.entries@[i as int].key@,
                object.entries@[i as int].value,
            );
            if i + 1 < shown {
                assert(spec_single_entries(cfg, rest) == pair + seq![
                    col_tok(","@, cfg.colours.object),
                    plain_tok(" "@),
                ] + spec_single_entries(cfg, rest.skip(1)));
                assert(toks(out@) =~= before + (pair + seq![
                    col_tok(","@, cfg.colours.object),
                    plain_tok(" "@),
                ]));
            } else {
                assert(rest.len() == 1);
                assert(spec_single_entries(cfg, rest) == pair);
                assert(spec_single_entries(cfg, picked.skip(i as int + 1)) =~= Seq::<
                    SpecToken,
                >::empty());
            }
            assert(toks(out@) + spec_single_entries(cfg, picked.skip(i as int + 1)) =~= (before
                + spec_single_entries(cfg, rest)));
        }
        i += 1;
    }
    proof {
        assert(picked.skip(shown as int) =~= Seq::<Entry>::empty());
        assert(toks(out@) =~= fronted + spec_single_entries(cfg, picked));
    }
}

/// Emits the generic-object layout for `object` under `cfg`, disregarding
/// the object's class: the placeholder at or beyond the depth cap, the
/// empty-object token for an object with no enumerated key, and the
/// multi-line or single-line layout otherwise.
#[verifier::rlimit(60)]
pub fn plain_object_tokens_into(cfg: Config, object: &Value, out: &mut Vec<Token>)
    ensures
        toks(final(out)@) == toks(old(out)@) + spec_object_tokens(cfg, *object),
    decreases obj_measure(cfg), 0int,
{
    let colour = cfg.colours.object;
    if cfg.depth < DEPTH_CAP {
        let total = object.entries.len();
        let count = if total <= cfg.iteration {
            total
        } else {
            cfg.iteration
        };
        let ghost keys = enumerated(*object, cfg.iteration);
        proof {
            assert(keys =~= object.entries@.take(count as int));
        }
        if count == 0 {
            push_col(out, "{}".to_owned(), colour);
        } else {
            push_col(out, "{".to_owned(), colour);
            if cfg.multiline {
                push_plain(out, "\n".to_owned());
                multi_entries_into(cfg, object, count, out);
                push_plain(out, indent_string((cfg.indentation as u64) + (cfg.depth as u64)));
                push_col(out, "}".to_owned(), colour);
            } else {
                push_plain(out, " ".to_owned());
                let shown = if count <= SINGLE_LINE_KEYS {
                    count
                } else {
                    SINGLE_LINE_KEYS
                };
                single_entries_into(cfg, object, shown, out);
                proof {
                    let picked = if keys.len() <= SINGLE_LINE_KEYS as int {
                        keys
                    } else {
                        keys.take(SINGLE_LINE_KEYS as int)
                    };
                    assert(picked =~= object.entries@.take(shown as int));
                }
                if count > SINGLE_LINE_KEYS {
                    push_col(out, ",".to_owned(), colour);
                    push_plain(out, " ".to_owned());
                    write_remaining(out, count - SINGLE_LINE_KEYS, Option::None, colour);
                } else {
                    push_plain(out, " ".to_owned());
                }
                push_col(out, "}".to_owned(), colour);
            }
        }
    } else {
        push_col(out, "[Object]".to_owned(), colour);
    }
    proof {
        assert(toks(out@) =~= toks(old(out)@) + spec_object_tokens(cfg, *object));
    }
}

/// Emits the tokens for `value` under `cfg`: classifies it and routes it to
/// the renderer of its category.
pub fn value_tokens_into(cfg: Config, value: &Value, out: &mut Vec<Token>)
    ensures
        toks(final(out)@) == toks(old(out)@) + spec_value_tokens(cfg, *value),
    decreases fmt_measure(cfg), 0int,
{
    match classify(value) {
        Category::Object | Category::Other => {
            match value.typed_view {
                // The typed-array renderer: one element decoder per element
                // kind, all feeding the same layout; the model carries its
                // text.
                Option::Some(_) => push_plain(out, value.rendered.clone()),
                Option::None => plain_object_tokens_into(cfg, value, out),
            }
        },
        // The leaf categories delegate to the sibling renderer specialized
        // for the shape (boxed primitive, array, date, promise, regular
        // expression, function, raw byte buffer, or the exception
        // formatter); the model carries that renderer's text. A value no
        // category claims carries the runtime's own textual form.
        _ => push_plain(out, value.rendered.clone()),
    }
    proof {
        assert(toks(out@) =~= toks(old(out)@) + spec_value_tokens(cfg, *value));
    }
}

/// A pending rendering of a value by the dispatcher: the value, classified
/// and routed to the renderer of its category when the text is asked for.
pub struct ObjectDisplay<'cx> {
    pub object: &'cx Value,
    pub cfg: Config,
}

/// Binds a value to a configuration for class-dependent rendering: the
/// value is classified and routed to the matching per-category renderer.
pub fn format_object<'cx>(cfg: Config, object: &'cx Value) -> (r: ObjectDisplay<'cx>)
    ensures
        r.cfg == cfg,
        r.object == object,
{
    ObjectDisplay { object, cfg }
}

impl<'cx> ObjectDisplay<'cx> {
    /// The token stream the dispatcher emits for the value: a function of
    /// the configuration and the value alone.
    pub fn tokens(&self) -> (ts: Vec<Token>)
        ensures
            toks(ts@) == spec_value_tokens(self.cfg, *self.object),
    {
        let mut out: Vec<Token> = Vec::new();
        proof {
            assert(toks(out@) =~= Seq::<SpecToken>::empty());
        }
        value_tokens_into(self.cfg, self.object, &mut out);
        proof {
            assert(toks(out@) =~= spec_value_tokens(self.cfg, *self.object));
        }
        out
    }

    /// The rendered text: the token stream through the colourizing pass.
    pub fn to_text(&self) -> (r: String)
        ensures
            painted_as(r@, spec_value_tokens(self.cfg, *self.object)),
    {
        let ts = self.tokens();
        tokens_to_text(&ts)
    }
}

/// A pending rendering of a value by the generic-object renderer alone,
/// disregarding the value's class.
pub struct PlainObjectDisplay<'cx> {
    pub object: &'cx Value,
    pub cfg: Config,
}

/// Binds a value to a configuration for rendering under the generic-object
/// layout, whatever the value's class.
pub fn format_plain_object<'cx>(cfg: Config, object: &'cx Value) -> (r: PlainObjectDisplay<'cx>)
    ensures
        r.cfg == cfg,
        r.object == object,
{
    PlainObjectDisplay { object, cfg }
}

impl<'cx> PlainObjectDisplay<'cx> {
    /// The token stream of the generic-object layout for the value.
    pub fn tokens(&self) -> (ts: Vec<Token>)
        ensures
            toks(ts@) == spec_object_tokens(self.cfg, *self.object),
    {
        let mut out: Vec<Token> = Vec::new();
        proof {
            assert(toks(out@) =~= Seq::<SpecToken>::empty());
        }
        plain_object_tokens_into(self.cfg, self.object, &mut out);
        proof {
            assert(toks(out@) =~= spec_object_tokens(self.cfg, *self.object));
        }
        out
    }

    /// The rendered text: the token stream through the colourizing pass.
    pub fn to_text(&self) -> (r: String)
        ensures
            painted_as(r@, spec_object_tokens(self.cfg, *self.object)),
    {
        let ts = self.tokens();
        tokens_to_text(&ts)
    }
}

} // verus!
