use vstd::prelude::*;

use crate::json::{json_get, spec_json_get, spec_text_value, text_value, JsonValue};
use crate::line_formats::{
    spec_elixir_try, spec_log4j_try, spec_logstash_try, ElixirLogLine, Log4JJsonLayoutLogLine,
    LogstashJavaLogLine,
};
use crate::style::{
    color_for_level, render_styled, spec_color_for, spec_render, Color, SpanView, StyledSpan,
    StyledText,
};
use crate::text::{append_str, join_chars, spec_join, spec_trim, str_eq, string_of, trim_chars};

verus! {

// ---------------------------------------------------------------------------
// The schema variant set, in priority order
// ---------------------------------------------------------------------------

/// Names one of the known line shapes.  Their order here is the priority
/// order of a full rescan.
#[derive(Clone, Copy, PartialEq, Eq, Structural, Debug)]
pub enum SchemaVariantId {
    Elixir,
    LogstashJava,
    Log4JJsonLayout,
}

/// Decode-and-render under one named variant.
pub open spec fn spec_try_variant(k: SchemaVariantId, v: JsonValue) -> Option<Seq<SpanView>> {
    match k {
        SchemaVariantId::Elixir => spec_elixir_try(v),
        SchemaVariantId::LogstashJava => spec_logstash_try(v),
        SchemaVariantId::Log4JJsonLayout => spec_log4j_try(v),
    }
}

/// The first variant, in priority order, that decodes the record.
pub open spec fn spec_first_match(v: JsonValue) -> Option<SchemaVariantId> {
    if spec_elixir_try(v) is Some {
        Some(SchemaVariantId::Elixir)
    } else if spec_logstash_try(v) is Some {
        Some(SchemaVariantId::LogstashJava)
    } else if spec_log4j_try(v) is Some {
        Some(SchemaVariantId::Log4JJsonLayout)
    } else {
        None
    }
}

fn try_convert(k: SchemaVariantId, entry: &JsonValue) -> (r: Option<StyledText>)
    ensures
        match r {
            Some(st) => spec_try_variant(k, *entry) == Some(st@),
            None => spec_try_variant(k, *entry) is None,
        },
{
    match k {
        SchemaVariantId::Elixir => ElixirLogLine::to_colored_string(entry),
        SchemaVariantId::LogstashJava => LogstashJavaLogLine::to_colored_string(entry),
        SchemaVariantId::Log4JJsonLayout => Log4JJsonLayoutLogLine::to_colored_string(entry),
    }
}

// ---------------------------------------------------------------------------
// Severity coloring of whole lines
// ---------------------------------------------------------------------------

/// A span of text colored by a severity level.
pub fn colored_with_level(level: &str, text: &str) -> (s: StyledSpan)
    ensures
        s@.text == text@,
        s@.dimmed == false,
        s@.color == spec_color_for(level@),
{
    StyledSpan { text: text.to_owned(), dimmed: false, color: color_for_level(level) }
}

fn colored_with_maybe_level(maybe_level: Option<&str>, text: &str) -> (s: StyledSpan)
    ensures
        s@.text == text@,
        s@.dimmed == false,
        s@.color == match maybe_level {
            Some(level) => spec_color_for(level@),
            None => Color::Plain,
        },
{
    match maybe_level {
        None => StyledSpan { text: text.to_owned(), dimmed: false, color: Color::Plain },
        Some(level) => colored_with_level(level, text),
    }
}

// ---------------------------------------------------------------------------
// The generic renderer, the fallback that never fails
// ---------------------------------------------------------------------------

/// What one field contributes to the generic metadata: nothing for the
/// message field, else its shown value in brackets.
pub open spec fn spec_generic_piece(f: (String, JsonValue)) -> Seq<char> {
    if f.0@ == "message"@ {
        Seq::empty()
    } else {
        "["@ + spec_text_value(f.1) + "]"@
    }
}

/// The generic metadata: every non-message field bracketed, in encounter
/// order, joined by spaces, the whole trimmed.
pub open spec fn spec_generic_meta(fields: Seq<(String, JsonValue)>) -> Seq<char> {
    spec_trim(spec_join(fields.map_values(|f: (String, JsonValue)| spec_generic_piece(f)), " "@))
}

/// The line color of a generic record: by its `level` field when that is a
/// string, else no color.
pub open spec fn spec_generic_color(v: JsonValue) -> Color {
    match spec_json_get(v, "level"@) {
        Some(field) => match field {
            JsonValue::Str(s) => spec_color_for(s@),
            _ => Color::Plain,
        },
        None => Color::Plain,
    }
}

/// The spans of a generically rendered record: the dimmed metadata, then
/// the message field's shown value when there is one.
pub open spec fn spec_generic_spans(v: JsonValue) -> Seq<SpanView> {
    match v {
        JsonValue::Obj(fields) => {
            let meta = SpanView {
                text: spec_generic_meta(fields@),
                dimmed: true,
                color: spec_generic_color(v),
            };
            match spec_json_get(v, "message"@) {
                Some(m) => seq![
                    meta,
                    SpanView {
                        text: " "@ + spec_text_value(m),
                        dimmed: false,
                        color: spec_generic_color(v),
                    },
                ],
                None => seq![meta],
            }
        },
        _ => Seq::empty(),
    }
}

/// Render any object record: bracketed fields, then the message.
fn format_generic_json(entry: &JsonValue) -> (r: StyledText)
    requires
        *entry matches JsonValue::Obj(_),
    ensures
        r@ == spec_generic_spans(*entry),
{
    match entry {
        JsonValue::Obj(fields) => {
            let mut parts: Vec<Vec<char>> = Vec::new();
            let mut i: usize = 0;
            while i < fields.len()
                invariant
                    i <= fields@.len(),
                    parts@.len() == i,
                    forall|j: int|
                        0 <= j < i ==> (#[trigger] parts@[j])@ == spec_generic_piece(fields@[j]),
                decreases fields@.len() - i,
            {
                let mut part: Vec<char> = Vec::new();
                if !str_eq(fields[i].0.as_str(), "message") {
                    let shown = text_value(&fields[i].1);
                    append_str(&mut part, "[");
                    append_str(&mut part, shown.as_str());
                    append_str(&mut part, "]");
                }
                proof {
                    assert(part@ =~= spec_generic_piece(fields@[i as int]));
                }
                parts.push(part);
                i = i + 1;
            }
            let joined = join_chars(&parts, " ");
            let trimmed = trim_chars(&joined);
            proof {
                assert(parts@.map_values(|p: Vec<char>| p@) =~= fields@.map_values(
                    |f: (String, JsonValue)| spec_generic_piece(f),
                ));
            }
            let meta = string_of(&trimmed);
            let maybe_level: Option<&str> = match json_get(entry, "level") {
                Some(field) => match field {
                    JsonValue::Str(s) => Some(s.as_str()),
                    _ => None,
                },
                None => None,
            };
            let color = match maybe_level {
                Some(level) => color_for_level(level),
                None => Color::Plain,
            };
            let mut spans: Vec<StyledSpan> = Vec::new();
            spans.push(StyledSpan { text: meta, dimmed: true, color });
            match json_get(entry, "message") {
                Some(m) => {
                    let shown = text_value(m);
                    let mut msg: Vec<char> = Vec::new();
                    append_str(&mut msg, " ");
                    append_str(&mut msg, shown.as_str());
                    let text = string_of(&msg);
                    spans.push(colored_with_maybe_level(maybe_level, text.as_str()));
                },
                None => {},
            }
            let r = StyledText { spans };
            proof {
                assert(r@ =~= spec_generic_spans(*entry));
            }
            r
        },
        _ => StyledText { spans: Vec::new() },
    }
}

// ---------------------------------------------------------------------------
// The Formatter: sticky dispatch over the variant set
// ---------------------------------------------------------------------------

/// The sticky dispatch state machine.  It remembers the variant that
/// rendered the previous record and tries it first; when that misses it
/// rescans the whole variant set in priority order, and falls back to the
/// generic renderer, which never fails.
pub struct Formatter {
    /// The variant that rendered the last record, if any did.
    pub last_line_converter: Option<SchemaVariantId>,
    /// Whether rendered lines carry ANSI color escapes.
    pub colors: bool,
}

/// The spans a full rescan produces: the first matching variant's rendering,
/// or the generic rendering.
pub open spec fn spec_rescan_spans(v: JsonValue) -> Seq<SpanView> {
    match spec_first_match(v) {
        Some(k) => spec_try_variant(k, v).unwrap(),
        None => spec_generic_spans(v),
    }
}

/// The spans one formatted record produces, given the sticky state: the
/// sticky variant's rendering when it still fits, else a full rescan.
pub open spec fn spec_message_spans(sticky: Option<SchemaVariantId>, v: JsonValue) -> Seq<
    SpanView,
> {
    match sticky {
        Some(k) => if spec_try_variant(k, v) is Some {
            spec_try_variant(k, v).unwrap()
        } else {
            spec_rescan_spans(v)
        },
        None => spec_rescan_spans(v),
    }
}

/// The sticky state after one record: kept while the sticky variant fits,
/// else whatever a full rescan finds, or cleared.
pub open spec fn spec_next_sticky(sticky: Option<SchemaVariantId>, v: JsonValue) -> Option<
    SchemaVariantId,
> {
    match sticky {
        Some(k) => if spec_try_variant(k, v) is Some {
            Some(k)
        } else {
            spec_first_match(v)
        },
        None => spec_first_match(v),
    }
}

/// The spans of a line that was not JSON at all: a red marker, then the
/// raw line, byte for byte.
pub open spec fn spec_not_json_spans(line: Seq<char>) -> Seq<SpanView> {
    seq![
        SpanView { text: "[NOT JSON]"@, dimmed: false, color: Color::Red },
        SpanView { text: " "@ + line, dimmed: false, color: Color::Plain },
    ]
}

impl Default for Formatter {
    fn default() -> (f: Self)
        ensures
            f.last_line_converter is None,
            f.colors == false,
    {
        Self::new()
    }
}

impl Formatter {
    /// A fresh formatter: no sticky variant, plain output.
    pub fn new() -> (f: Self)
        ensures
            f.last_line_converter is None,
            f.colors == false,
    {
        Formatter { last_line_converter: None, colors: false }
    }

    /// A fresh formatter that renders with ANSI colors when asked to.
    pub fn with_colors(colors: bool) -> (f: Self)
        ensures
            f.last_line_converter is None,
            f.colors == colors,
    {
        Formatter { last_line_converter: None, colors }
    }

    /// Tag a non-JSON line and hand it back otherwise untouched.  The
    /// sticky state is not consulted and not changed.
    pub fn format_not_json(&mut self, line: &str) -> (r: String)
        ensures
            *final(self) == *old(self),
            r@ == spec_render(spec_not_json_spans(line@), old(self).colors),
    {
        let mut spans: Vec<StyledSpan> = Vec::new();
        spans.push(
            StyledSpan { text: "[NOT JSON]".to_owned(), dimmed: false, color: Color::Red },
        );
        let mut raw: Vec<char> = Vec::new();
        append_str(&mut raw, " ");
        append_str(&mut raw, line);
        spans.push(StyledSpan { text: string_of(&raw), dimmed: false, color: Color::Plain });
        let styled = StyledText { spans };
        proof {
            assert(styled@ =~= spec_not_json_spans(line@));
        }
        render_styled(&styled, self.colors)
    }

    /// Format one record: dispatch it to a variant or the generic fallback,
    /// remember what matched, and render the result.
    pub fn format_message(&mut self, entry: &JsonValue) -> (r: String)
        requires
            *entry matches JsonValue::Obj(_),
        ensures
            final(self).colors == old(self).colors,
            final(self).last_line_converter == spec_next_sticky(
                old(self).last_line_converter,
                *entry,
            ),
            r@ == spec_render(
                spec_message_spans(old(self).last_line_converter, *entry),
                old(self).colors,
            ),
    {
        let styled = self.color_format_message(entry);
        render_styled(&styled, self.colors)
    }

    fn color_format_message(&mut self, entry: &JsonValue) -> (r: StyledText)
        requires
            *entry matches JsonValue::Obj(_),
        ensures
            final(self).colors == old(self).colors,
            final(self).last_line_converter == spec_next_sticky(
                old(self).last_line_converter,
                *entry,
            ),
            r@ == spec_message_spans(old(self).last_line_converter, *entry),
    {
        match self.last_line_converter {
            None => self.color_format_message_try_each(entry),
            Some(convert) => self.with_fallback(convert, entry),
        }
    }

    fn color_format_message_try_each(&mut self, entry: &JsonValue) -> (r: StyledText)
        requires
            *entry matches JsonValue::Obj(_),
        ensures
            final(self).colors == old(self).colors,
            final(self).last_line_converter == spec_first_match(*entry),
            r@ == spec_rescan_spans(*entry),
    {
        match try_convert(SchemaVariantId::Elixir, entry) {
            Some(styled) => {
                self.last_line_converter = Some(SchemaVariantId::Elixir);
                return styled;
            },
            None => {},
        }
        match try_convert(SchemaVariantId::LogstashJava, entry) {
            Some(styled) => {
                self.last_line_converter = Some(SchemaVariantId::LogstashJava);
                return styled;
            },
            None => {},
        }
        match try_convert(SchemaVariantId::Log4JJsonLayout, entry) {
            Some(styled) => {
                self.last_line_converter = Some(SchemaVariantId::Log4JJsonLayout);
                return styled;
            },
            None => {},
        }
        self.last_line_converter = None;
        format_generic_json(entry)
    }

    fn with_fallback(&mut self, convert: SchemaVariantId, entry: &JsonValue) -> (r: StyledText)
        requires
            *entry matches JsonValue::Obj(_),
            old(self).last_line_converter == Some(convert),
        ensures
            final(self).colors == old(self).colors,
            final(self).last_line_converter == spec_next_sticky(
                old(self).last_line_converter,
                *entry,
            ),
            r@ == spec_message_spans(old(self).last_line_converter, *entry),
    {
        match try_convert(convert, entry) {
            Some(styled) => {
                self.last_line_converter = Some(convert);
                styled
            },
            None => self.color_format_message_try_each(entry),
        }
    }
}

// ---------------------------------------------------------------------------
// Laws of the formatter
// ---------------------------------------------------------------------------

/// Law: a plainly rendered non-JSON line is the marker, a space, and the
/// original line, byte for byte.
pub proof fn lemma_not_json_verbatim(line: Seq<char>)
    ensures
        spec_render(spec_not_json_spans(line), false) == "[NOT JSON]"@ + " "@ + line,
{
    let spans = spec_not_json_spans(line);
    let tail = spans.drop_first();
    assert(tail.len() == 1);
    assert(tail[0] == spans[1]);
    assert(tail.drop_first() =~= Seq::<SpanView>::empty());
    assert(crate::style::spec_render_plain(tail.drop_first()) == Seq::<char>::empty());
    assert(crate::style::spec_render_plain(tail) == spans[1].text + crate::style::spec_render_plain(
        tail.drop_first(),
    ));
    assert(crate::style::spec_render_plain(spans) == spans[0].text
        + crate::style::spec_render_plain(tail));
    assert(spec_render(spans, false) =~= "[NOT JSON]"@ + " "@ + line);
}

/// Law: formatting is a function of the sticky state and the record alone,
/// so two formatters in equal states render any record identically; in
/// particular two fresh formatters always agree.
pub proof fn lemma_format_deterministic(
    s1: Option<SchemaVariantId>,
    s2: Option<SchemaVariantId>,
    v: JsonValue,
    colors: bool,
)
    requires
        s1 == s2,
    ensures
        spec_render(spec_message_spans(s1, v), colors) == spec_render(
            spec_message_spans(s2, v),
            colors,
        ),
        spec_next_sticky(s1, v) == spec_next_sticky(s2, v),
{
}

} // verus!
