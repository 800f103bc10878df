use vstd::prelude::*;

use crate::text::{append_chars, append_str, chars_eq_str, chars_of, lower_chars, spec_lower,
    string_of};

verus! {

// ---------------------------------------------------------------------------
// Styling directives
// ---------------------------------------------------------------------------

/// The colors a rendered line can carry, one per severity class.
#[derive(Clone, Copy, PartialEq, Eq, Structural, Debug)]
pub enum Color {
    Plain,
    Red,
    Yellow,
    Cyan,
    White,
    Blue,
    Purple,
    WhiteOnBrightRed,
}

/// A run of text under one styling directive.
pub struct StyledSpan {
    pub text: String,
    pub dimmed: bool,
    pub color: Color,
}

/// The mathematical value of a span: its characters and its directive.
pub struct SpanView {
    pub text: Seq<char>,
    pub dimmed: bool,
    pub color: Color,
}

impl View for StyledSpan {
    type V = SpanView;

    open spec fn view(&self) -> SpanView {
        SpanView { text: self.text@, dimmed: self.dimmed, color: self.color }
    }
}

/// A formatted line: a list of styled spans, in order.
pub struct StyledText {
    pub spans: Vec<StyledSpan>,
}

impl View for StyledText {
    type V = Seq<SpanView>;

    open spec fn view(&self) -> Seq<SpanView> {
        self.spans@.map_values(|s: StyledSpan| s@)
    }
}

// ---------------------------------------------------------------------------
// The color policy: severity level to color
// ---------------------------------------------------------------------------

/// The color for a severity level, looked up case-insensitively; unknown
/// levels fall back to white.
pub open spec fn spec_color_for(level: Seq<char>) -> Color {
    let l = spec_lower(level);
    if l == "emergency"@ || l == "alert"@ || l == "fatal"@ {
        Color::WhiteOnBrightRed
    } else if l == "critical"@ || l == "error"@ {
        Color::Red
    } else if l == "warn"@ || l == "warning"@ {
        Color::Yellow
    } else if l == "notice"@ {
        Color::Cyan
    } else if l == "info"@ {
        Color::White
    } else if l == "debug"@ {
        Color::Blue
    } else if l == "trace"@ {
        Color::Purple
    } else {
        Color::White
    }
}

/// Map a severity level to its color.
pub fn color_for_level(level: &str) -> (c: Color)
    ensures
        c == spec_color_for(level@),
{
    let raw = chars_of(level);
    let l = lower_chars(&raw);
    if chars_eq_str(&l, "emergency") || chars_eq_str(&l, "alert") || chars_eq_str(&l, "fatal") {
        Color::WhiteOnBrightRed
    } else if chars_eq_str(&l, "critical") || chars_eq_str(&l, "error") {
        Color::Red
    } else if chars_eq_str(&l, "warn") || chars_eq_str(&l, "warning") {
        Color::Yellow
    } else if chars_eq_str(&l, "notice") {
        Color::Cyan
    } else if chars_eq_str(&l, "info") {
        Color::White
    } else if chars_eq_str(&l, "debug") {
        Color::Blue
    } else if chars_eq_str(&l, "trace") {
        Color::Purple
    } else {
        Color::White
    }
}

// ---------------------------------------------------------------------------
// Rendering spans to text, plainly or with ANSI escapes
// ---------------------------------------------------------------------------

/// The ANSI color parameter for each color.
pub open spec fn spec_color_codes(c: Color) -> Seq<char> {
    match c {
        Color::Plain => Seq::empty(),
        Color::Red => seq!['3', '1'],
        Color::Yellow => seq!['3', '3'],
        Color::Cyan => seq!['3', '6'],
        Color::White => seq!['3', '7'],
        Color::Blue => seq!['3', '4'],
        Color::Purple => seq!['3', '5'],
        Color::WhiteOnBrightRed => seq!['3', '7', ';', '1', '0', '1'],
    }
}

/// The parameter list of a span's escape sequence: faintness first, then color.
pub open spec fn spec_span_codes(dimmed: bool, color: Color) -> Seq<char> {
    if dimmed && color != Color::Plain {
        seq!['2', ';'] + spec_color_codes(color)
    } else if dimmed {
        seq!['2']
    } else {
        spec_color_codes(color)
    }
}

/// One rendered span under ANSI styling: the escape prefix, the text, the
/// reset.  An unstyled or empty span renders as its bare text.
pub open spec fn spec_render_span(s: SpanView) -> Seq<char> {
    if s.text.len() == 0 || (!s.dimmed && s.color == Color::Plain) {
        s.text
    } else {
        seq!['\u{1b}', '['] + spec_span_codes(s.dimmed, s.color) + seq!['m'] + s.text + seq![
            '\u{1b}',
            '[',
            '0',
            'm',
        ]
    }
}

/// The plain rendering: the spans' texts, concatenated.
pub open spec fn spec_render_plain(spans: Seq<SpanView>) -> Seq<char>
    decreases spans.len(),
{
    if spans.len() == 0 {
        Seq::empty()
    } else {
        spans[0].text + spec_render_plain(spans.drop_first())
    }
}

/// The colored rendering: each span's escape-wrapped text, concatenated.
pub open spec fn spec_render_color(spans: Seq<SpanView>) -> Seq<char>
    decreases spans.len(),
{
    if spans.len() == 0 {
        Seq::empty()
    } else {
        spec_render_span(spans[0]) + spec_render_color(spans.drop_first())
    }
}

/// What a styled line renders to, with or without colors.
pub open spec fn spec_render(spans: Seq<SpanView>, colors: bool) -> Seq<char> {
    if colors {
        spec_render_color(spans)
    } else {
        spec_render_plain(spans)
    }
}

proof fn lemma_render_plain_push(spans: Seq<SpanView>, s: SpanView)
    ensures
        spec_render_plain(spans.push(s)) == spec_render_plain(spans) + s.text,
    decreases spans.len(),
{
    if spans.len() == 0 {
        assert(spans.push(s).drop_first() =~= Seq::<SpanView>::empty());
        assert(spans.push(s)[0] == s);
        assert(spec_render_plain(spans.push(s)) == s.text + spec_render_plain(
            spans.push(s).drop_first(),
        ));
        assert(spec_render_plain(Seq::<SpanView>::empty()) == Seq::<char>::empty());
        assert(s.text + Seq::<char>::empty() =~= s.text);
        assert(Seq::<char>::empty() + s.text =~= s.text);
        assert(spec_render_plain(spans.push(s)) == spec_render_plain(spans) + s.text);
    } else {
        assert(spans.push(s).drop_first() =~= spans.drop_first().push(s));
        lemma_render_plain_push(spans.drop_first(), s);
        assert(spans.push(s)[0] == spans[0]);
        assert(spans[0].text + (spec_render_plain(spans.drop_first()) + s.text) =~= (spans[0].text
            + spec_render_plain(spans.drop_first())) + s.text);
        assert(spec_render_plain(spans.push(s)) == spec_render_plain(spans) + s.text);
    }
}

proof fn lemma_render_color_push(spans: Seq<SpanView>, s: SpanView)
    ensures
        spec_render_color(spans.push(s)) == spec_render_color(spans) + spec_render_span(s),
    decreases spans.len(),
{
    if spans.len() == 0 {
        assert(spans.push(s).drop_first() =~= Seq::<SpanView>::empty());
        assert(spans.push(s)[0] == s);
        assert(spec_render_color(spans.push(s)) == spec_render_span(s) + spec_render_color(
            spans.push(s).drop_first(),
        ));
        assert(spec_render_color(Seq::<SpanView>::empty()) == Seq::<char>::empty());
        assert(spec_render_span(s) + Seq::<char>::empty() =~= spec_render_span(s));
        assert(Seq::<char>::empty() + spec_render_span(s) =~= spec_render_span(s));
        assert(spec_render_color(spans.push(s)) == spec_render_color(spans) + spec_render_span(s));
    } else {
        assert(spans.push(s).drop_first() =~= spans.drop_first().push(s));
        lemma_render_color_push(spans.drop_first(), s);
        assert(spans.push(s)[0] == spans[0]);
        assert(spec_render_span(spans[0]) + (spec_render_color(spans.drop_first())
            + spec_render_span(s)) =~= (spec_render_span(spans[0]) + spec_render_color(
            spans.drop_first(),
        )) + spec_render_span(s));
        assert(spec_render_color(spans.push(s)) == spec_render_color(spans) + spec_render_span(s));
    }
}

/// The ANSI color parameter of a color, as characters.
fn color_codes_chars(c: Color) -> (v: Vec<char>)
    ensures
        v@ == spec_color_codes(c),
{
    let mut v: Vec<char> = Vec::new();
    match c {
        Color::Plain => {
            proof {
                assert(v@ =~= spec_color_codes(c));
            }
        },
        Color::Red => {
            v.push('3');
            v.push('1');
            proof {
                assert(v@ =~= spec_color_codes(c));
            }
        },
        Color::Yellow => {
            v.push('3');
            v.push('3');
            proof {
                assert(v@ =~= spec_color_codes(c));
            }
        },
        Color::Cyan => {
            v.push('3');
            v.push('6');
            proof {
                assert(v@ =~= spec_color_codes(c));
            }
        },
        Color::White => {
            v.push('3');
            v.push('7');
            proof {
                assert(v@ =~= spec_color_codes(c));
            }
        },
        Color::Blue => {
            v.push('3');
            v.push('4');
            proof {
                assert(v@ =~= spec_color_codes(c));
            }
        },
        Color::Purple => {
            v.push('3');
            v.push('5');
            proof {
                assert(v@ =~= spec_color_codes(c));
            }
        },
        Color::WhiteOnBrightRed => {
            v.push('3');
            v.push('7');
            v.push(';');
            v.push('1');
            v.push('0');
            v.push('1');
            proof {
                assert(v@ =~= spec_color_codes(c));
            }
        },
    }
    v
}

/// Render one span, wrapping styled text in its escape sequence.
fn render_span_chars(span: &StyledSpan) -> (v: Vec<char>)
    ensures
        v@ == spec_render_span(span@),
{
    let plain_style = !span.dimmed && matches!(span.color, Color::Plain);
    if span.text.as_str().unicode_len() == 0 || plain_style {
        let v = chars_of(span.text.as_str());
        proof {
            assert(v@ =~= spec_render_span(span@));
        }
        v
    } else {
        let mut v: Vec<char> = Vec::new();
        v.push('\u{1b}');
        v.push('[');
        if span.dimmed {
            v.push('2');
            if !matches!(span.color, Color::Plain) {
                v.push(';');
                let codes = color_codes_chars(span.color);
                append_chars(&mut v, &codes);
            }
        } else {
            let codes = color_codes_chars(span.color);
            append_chars(&mut v, &codes);
        }
        v.push('m');
        append_str(&mut v, span.text.as_str());
        v.push('\u{1b}');
        v.push('[');
        v.push('0');
        v.push('m');
        proof {
            assert(v@ =~= spec_render_span(span@));
        }
        v
    }
}

/// Render a styled line to a string, plainly or with ANSI colors.
pub fn render_styled(line: &StyledText, colors: bool) -> (r: String)
    ensures
        r@ == spec_render(line@, colors),
{
    let mut out: Vec<char> = Vec::new();
    let mut i: usize = 0;
    while i < line.spans.len()
        invariant
            i <= line.spans@.len(),
            out@ == spec_render(line@.take(i as int), colors),
        decreases line.spans@.len() - i,
    {
        if colors {
            let piece = render_span_chars(&line.spans[i]);
            append_chars(&mut out, &piece);
        } else {
            append_str(&mut out, line.spans[i].text.as_str());
        }
        i = i + 1;
        proof {
            assert(line@.take(i as int) =~= line@.take(i as int - 1).push(line@[i as int - 1]));
            if colors {
                lemma_render_color_push(line@.take(i as int - 1), line@[i as int - 1]);
            } else {
                lemma_render_plain_push(line@.take(i as int - 1), line@[i as int - 1]);
            }
            assert(line@[i as int - 1] == line.spans@[i as int - 1]@);
            assert(out@ =~= spec_render(line@.take(i as int), colors));
        }
    }
    proof {
        assert(line@.take(line@.len() as int) =~= line@);
    }
    string_of(&out)
}

} // verus!
