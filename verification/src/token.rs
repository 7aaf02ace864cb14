//! Structural tokens and their colourization.
//!
//! Colour decoration is a cross-cutting concern kept orthogonal to the
//! structural algorithm: every renderer emits plain structural tokens, and a
//! thin colourizing pass turns a token stream into the final text. Whether a
//! coloured token actually carries ANSI escape sequences in the final text
//! depends on the terminal environment, so the pass's contract relates the
//! text to the token stream by [`painted_as`], which admits both outcomes
//! for each token.

use vstd::prelude::*;

use crate::config::Colour;

use colored::Colorize;

verus! {

/// One structural token: a piece of text, optionally to be colourized.
pub struct Token {
    pub text: String,
    pub colour: Option<Colour>,
}

/// The mathematical view of a token.
pub struct SpecToken {
    pub text: Seq<char>,
    pub colour: Option<Colour>,
}

impl View for Token {
    type V = SpecToken;

    open spec fn view(&self) -> SpecToken {
        SpecToken { text: self.text@, colour: self.colour }
    }
}

/// The views of a sequence of tokens.
pub open spec fn toks(ts: Seq<Token>) -> Seq<SpecToken> {
    ts.map_values(|t: Token| t@)
}

/// An uncoloured token.
pub open spec fn plain_tok(text: Seq<char>) -> SpecToken {
    SpecToken { text, colour: None }
}

/// A token to be colourized.
pub open spec fn col_tok(text: Seq<char>, colour: Colour) -> SpecToken {
    SpecToken { text, colour: Some(colour) }
}

/// The ANSI foreground code of a colour from the classic 16-colour palette.
pub open spec fn ansi_code(c: Colour) -> Seq<char> {
    match c {
        Colour::Black => seq!['3', '0'],
        Colour::Red => seq!['3', '1'],
        Colour::Green => seq!['3', '2'],
        Colour::Yellow => seq!['3', '3'],
        Colour::Blue => seq!['3', '4'],
        Colour::Magenta => seq!['3', '5'],
        Colour::Cyan => seq!['3', '6'],
        Colour::White => seq!['3', '7'],
        Colour::BrightBlack => seq!['9', '0'],
        Colour::BrightRed => seq!['9', '1'],
        Colour::BrightGreen => seq!['9', '2'],
        Colour::BrightYellow => seq!['9', '3'],
        Colour::BrightBlue => seq!['9', '4'],
        Colour::BrightMagenta => seq!['9', '5'],
        Colour::BrightCyan => seq!['9', '6'],
        Colour::BrightWhite => seq!['9', '7'],
    }
}

/// `text` wrapped in the ANSI escape that sets the foreground colour `c`,
/// followed by the ANSI reset.
pub open spec fn ansi_wrap(text: Seq<char>, c: Colour) -> Seq<char> {
    seq!['\u{1b}', '['] + ansi_code(c) + seq!['m'] + text + seq!['\u{1b}', '[', '0', 'm']
}

/// `text` holds no ANSI escape character.
pub open spec fn esc_free(text: Seq<char>) -> bool {
    forall|i: int| 0 <= i < text.len() ==> text[i] != '\u{1b}'
}

/// `out` is one acceptable rendering of the single token `t`: the token's
/// text as it stands, or, for a coloured token, the text wrapped in the
/// colour's ANSI escapes.
pub open spec fn is_paint_of(out: Seq<char>, t: SpecToken) -> bool {
    match t.colour {
        Option::None => out == t.text,
        Option::Some(c) => out == t.text || out == ansi_wrap(t.text, c),
    }
}

/// `out` is one acceptable rendering of the token stream `ts`: the
/// concatenation, in order, of one acceptable rendering of each token.
pub open spec fn painted_as(out: Seq<char>, ts: Seq<SpecToken>) -> bool
    decreases ts.len(),
{
    if ts.len() == 0 {
        out.len() == 0
    } else {
        exists|n: int|
            0 <= n <= out.len() && is_paint_of(#[trigger] out.subrange(0, n), ts[0])
                && painted_as(out.subrange(n, out.len() as int), ts.skip(1))
    }
}

/// Appending one acceptable token rendering to an acceptable rendering of a
/// stream gives an acceptable rendering of the stream extended by the token.
pub proof fn lemma_painted_push(out: Seq<char>, ts: Seq<SpecToken>, s: Seq<char>, t: SpecToken)
    requires
        painted_as(out, ts),
        is_paint_of(s, t),
    ensures
        painted_as(out + s, ts.push(t)),
    decreases ts.len(),
{
    if ts.len() == 0 {
        assert(out + s =~= s);
        assert(ts.push(t)[0] == t);
        assert(ts.push(t).skip(1) =~= Seq::<SpecToken>::empty());
        let n = s.len() as int;
        assert((out + s).subrange(0, n) =~= s);
        assert((out + s).subrange(n, (out + s).len() as int) =~= Seq::<char>::empty());
        assert(painted_as((out + s).subrange(n, (out + s).len() as int), ts.push(t).skip(1)));
    } else {
        let n = choose|n: int|
            0 <= n <= out.len() && is_paint_of(#[trigger] out.subrange(0, n), ts[0])
                && painted_as(out.subrange(n, out.len() as int), ts.skip(1));
        lemma_painted_push(out.subrange(n, out.len() as int), ts.skip(1), s, t);
        let whole = out + s;
        assert(whole.subrange(0, n) =~= out.subrange(0, n));
        assert(whole.subrange(n, whole.len() as int) =~= out.subrange(n, out.len() as int) + s);
        assert(ts.push(t)[0] == ts[0]);
        assert(ts.push(t).skip(1) =~= ts.skip(1).push(t));
        assert(0 <= n <= whole.len() && is_paint_of(whole.subrange(0, n), ts.push(t)[0])
            && painted_as(whole.subrange(n, whole.len() as int), ts.push(t).skip(1)));
    }
}

/// `out` with ANSI escape sequences removed: every run from an escape
/// character through the next `m` is dropped, every other character kept.
/// `in_escape` says whether a run is already open at the front.
pub open spec fn strip_ansi_from(out: Seq<char>, in_escape: bool) -> Seq<char>
    decreases out.len(),
{
    if out.len() == 0 {
        Seq::empty()
    } else if in_escape {
        strip_ansi_from(out.skip(1), out[0] != 'm')
    } else if out[0] == '\u{1b}' {
        strip_ansi_from(out.skip(1), true)
    } else {
        seq![out[0]] + strip_ansi_from(out.skip(1), false)
    }
}

/// `out` with ANSI escape sequences removed.
pub open spec fn strip_ansi(out: Seq<char>) -> Seq<char> {
    strip_ansi_from(out, false)
}

/// The concatenation of the texts of a token stream: its logical content,
/// with no colour decoration.
pub open spec fn texts_of(ts: Seq<SpecToken>) -> Seq<char>
    decreases ts.len(),
{
    if ts.len() == 0 {
        Seq::empty()
    } else {
        ts[0].text + texts_of(ts.skip(1))
    }
}

/// Stripping passes an escape-free prefix through untouched.
proof fn lemma_strip_esc_free(a: Seq<char>, b: Seq<char>)
    requires
        esc_free(a),
    ensures
        strip_ansi_from(a + b, false) == a + strip_ansi_from(b, false),
    decreases a.len(),
{
    if a.len() == 0 {
        assert(a + b =~= b);
        assert(a + strip_ansi_from(b, false) =~= strip_ansi_from(b, false));
    } else {
        assert((a + b)[0] == a[0]);
        assert((a + b).skip(1) =~= a.skip(1) + b);
        lemma_strip_esc_free(a.skip(1), b);
        assert(strip_ansi_from(a + b, false) == seq![a[0]] + (a.skip(1) + strip_ansi_from(
            b,
            false,
        )));
        assert(seq![a[0]] + (a.skip(1) + strip_ansi_from(b, false)) =~= a + strip_ansi_from(
            b,
            false,
        ));
    }
}

/// Stripping drops an open escape run through its closing `m`.
proof fn lemma_strip_escape_run(a: Seq<char>, b: Seq<char>)
    requires
        forall|i: int| 0 <= i < a.len() ==> a[i] != 'm',
    ensures
        strip_ansi_from(a + seq!['m'] + b, true) == strip_ansi_from(b, false),
    decreases a.len(),
{
    if a.len() == 0 {
        assert(a + seq!['m'] + b =~= seq!['m'] + b);
        assert((seq!['m'] + b)[0] == 'm');
        assert((seq!['m'] + b).skip(1) =~= b);
    } else {
        assert((a + seq!['m'] + b)[0] == a[0]);
        assert((a + seq!['m'] + b).skip(1) =~= a.skip(1) + seq!['m'] + b);
        lemma_strip_escape_run(a.skip(1), b);
    }
}

/// Stripping drops a whole colour wrap around an escape-free text, keeping
/// the text.
proof fn lemma_strip_wrapped(text: Seq<char>, c: Colour, b: Seq<char>)
    requires
        esc_free(text),
    ensures
        strip_ansi_from(ansi_wrap(text, c) + b, false) == text + strip_ansi_from(b, false),
{
    let open_run = seq!['['] + ansi_code(c);
    let close_run = seq!['[', '0'];
    let tail = text + (seq!['\u{1b}'] + close_run + seq!['m'] + b);
    assert(forall|i: int| 0 <= i < ansi_code(c).len() ==> ansi_code(c)[i] != 'm');
    assert(forall|i: int| 0 <= i < open_run.len() ==> open_run[i] != 'm');
    assert(ansi_wrap(text, c) + b =~= seq!['\u{1b}'] + (open_run + seq!['m'] + tail));
    let whole = seq!['\u{1b}'] + (open_run + seq!['m'] + tail);
    assert(whole[0] == '\u{1b}');
    assert(whole.skip(1) =~= open_run + seq!['m'] + tail);
    lemma_strip_escape_run(open_run, tail);
    assert(strip_ansi_from(ansi_wrap(text, c) + b, false) == strip_ansi_from(tail, false));
    lemma_strip_esc_free(text, seq!['\u{1b}'] + close_run + seq!['m'] + b);
    assert(tail =~= text + (seq!['\u{1b}'] + close_run + seq!['m'] + b));
    let after = seq!['\u{1b}'] + (close_run + seq!['m'] + b);
    assert(seq!['\u{1b}'] + close_run + seq!['m'] + b =~= after);
    assert(after[0] == '\u{1b}');
    assert(after.skip(1) =~= close_run + seq!['m'] + b);
    assert(forall|i: int| 0 <= i < close_run.len() ==> close_run[i] != 'm');
    lemma_strip_escape_run(close_run, b);
    assert(strip_ansi_from(after, false) == strip_ansi_from(b, false));
}

/// Stripping the colour codes from any acceptable rendering of a token
/// stream whose texts are escape-free yields exactly the stream's logical
/// content: colour decoration never changes it.
pub proof fn lemma_strip_painted(out: Seq<char>, ts: Seq<SpecToken>)
    requires
        painted_as(out, ts),
        forall|i: int| 0 <= i < ts.len() ==> esc_free(#[trigger] ts[i].text),
    ensures
        strip_ansi(out) == texts_of(ts),
    decreases ts.len(),
{
    if ts.len() == 0 {
        assert(out.len() == 0);
        assert(out =~= Seq::<char>::empty());
    } else {
        let n = choose|n: int|
            0 <= n <= out.len() && is_paint_of(#[trigger] out.subrange(0, n), ts[0])
                && painted_as(out.subrange(n, out.len() as int), ts.skip(1));
        let head = out.subrange(0, n);
        let rest = out.subrange(n, out.len() as int);
        assert(out =~= head + rest);
        assert(forall|i: int|
            0 <= i < ts.skip(1).len() ==> esc_free(#[trigger] ts.skip(1)[i].text));
        lemma_strip_painted(rest, ts.skip(1));
        if head == ts[0].text {
            lemma_strip_esc_free(head, rest);
        } else {
            let c = ts[0].colour->Some_0;
            assert(head == ansi_wrap(ts[0].text, c));
            lemma_strip_wrapped(ts[0].text, c, rest);
        }
    }
}

/// Colourizes `text` with the foreground colour `colour`.
///
/// Relies on colored's `Colorize::color` (with the colour selected by its
/// name through colored's `From<&str>` for `Color`): when colouring is
/// enabled for the process the result is the text wrapped in the colour's
/// ANSI escape and the reset, and otherwise the text unchanged. Whether
/// colouring is enabled depends on the environment, so both outcomes are
/// admitted. Texts that already carry an escape character are re-escaped by
/// colored in a form this contract does not state, and are excluded.
#[verifier::external_body]
fn paint(text: &str, colour: Colour) -> (r: String)
    requires
        esc_free(text@),
    ensures
        r@ == text@ || r@ == ansi_wrap(text@, colour),
{
    text.color(colour.name()).to_string()
}

/// Whether `text` holds an ANSI escape character.
fn contains_escape(text: &str) -> (b: bool)
    ensures
        b == !esc_free(text@),
{
    let len = text.unicode_len();
    let mut i: usize = 0;
    while i < len
        invariant
            0 <= i <= len,
            len == text@.len(),
            forall|j: int| 0 <= j < i ==> text@[j] != '\u{1b}',
        decreases len - i,
    {
        if text.get_char(i) == '\u{1b}' {
            return true;
        }
        i += 1;
    }
    false
}

/// Renders a token stream as text: each token's text in order, coloured
/// tokens through the colourizing layer.
pub fn tokens_to_text(ts: &Vec<Token>) -> (r: String)
    ensures
        painted_as(r@, toks(ts@)),
{
    let mut out = String::new();
    let mut i: usize = 0;
    proof {
        assert(toks(ts@).subrange(0, 0) =~= Seq::<SpecToken>::empty());
    }
    while i < ts.len()
        invariant
            0 <= i <= ts@.len(),
            painted_as(out@, toks(ts@).subrange(0, i as int)),
        decreases ts@.len() - i,
    {
        let piece: String = match ts[i].colour {
            Option::None => ts[i].text.clone(),
            Option::Some(c) => {
                if contains_escape(ts[i].text.as_str()) {
                    // A coloured token whose text already carries an escape
                    // character is emitted as it stands: the colourizing
                    // layer's contract does not cover such texts.
                    ts[i].text.clone()
                } else {
                    paint(ts[i].text.as_str(), c)
                }
            },
        };
        proof {
            assert(is_paint_of(piece@, ts@[i as int]@));
            lemma_painted_push(out@, toks(ts@).subrange(0, i as int), piece@, ts@[i as int]@);
            assert(toks(ts@).subrange(0, i as int).push(ts@[i as int]@) =~= toks(ts@).subrange(
                0,
                i as int + 1,
            ));
        }
        out.append(piece.as_str());
        i += 1;
    }
    proof {
        assert(toks(ts@).subrange(0, ts@.len() as int) =~= toks(ts@));
    }
    out
}

} // verus!
