use vstd::prelude::*;

use crate::json::{json_get, spec_json_get, spec_text_value, text_value, JsonValue};
use crate::style::{color_for_level, spec_color_for, Color, SpanView, StyledSpan, StyledText};
use crate::text::{append_str, chars_of, i64_chars, join_chars, spec_i64_text, spec_join,
    spec_reindent, spec_trim, reindent_chars, string_of, trim_chars};

verus! {

// ---------------------------------------------------------------------------
// Field access, strict but aliased
//
// Decoding a record into a line shape follows one discipline throughout:
// a required field must be present with the expected type; a field with an
// alias must be present under exactly one of its two names; an optional
// field falls back to its default only when absent, and still fails the
// decode when present with the wrong type.
// ---------------------------------------------------------------------------

/// A required string field: its characters, or `None` when it is absent or
/// not a string.
pub open spec fn spec_req_str(v: JsonValue, key: Seq<char>) -> Option<Seq<char>> {
    match spec_json_get(v, key) {
        Some(field) => match field {
            JsonValue::Str(s) => Some(s@),
            _ => None,
        },
        None => None,
    }
}

/// An aliased field: the value under exactly one of the two names, `None`
/// when both names or neither name is present.
pub open spec fn spec_aliased(v: JsonValue, k1: Seq<char>, k2: Seq<char>) -> Option<JsonValue> {
    match (spec_json_get(v, k1), spec_json_get(v, k2)) {
        (Some(a), None) => Some(a),
        (None, Some(b)) => Some(b),
        _ => None,
    }
}

/// A required aliased string field.
pub open spec fn spec_aliased_str(v: JsonValue, k1: Seq<char>, k2: Seq<char>) -> Option<
    Seq<char>,
> {
    match spec_aliased(v, k1, k2) {
        Some(field) => match field {
            JsonValue::Str(s) => Some(s@),
            _ => None,
        },
        None => None,
    }
}

/// A required aliased boolean field.
pub open spec fn spec_aliased_bool(v: JsonValue, k1: Seq<char>, k2: Seq<char>) -> Option<bool> {
    match spec_aliased(v, k1, k2) {
        Some(field) => match field {
            JsonValue::Bool(b) => Some(b),
            _ => None,
        },
        None => None,
    }
}

/// A required aliased integer field.
pub open spec fn spec_aliased_int(v: JsonValue, k1: Seq<char>, k2: Seq<char>) -> Option<int> {
    match spec_aliased(v, k1, k2) {
        Some(field) => match field {
            JsonValue::Int(n) => Some(n as int),
            _ => None,
        },
        None => None,
    }
}

/// An optional string field: empty when absent, failing when present but
/// not a string.
pub open spec fn spec_opt_str(v: JsonValue, key: Seq<char>) -> Option<Seq<char>> {
    match spec_json_get(v, key) {
        None => Some(Seq::empty()),
        Some(field) => match field {
            JsonValue::Str(s) => Some(s@),
            _ => None,
        },
    }
}

/// An optional aliased string field: empty when neither name is present,
/// failing when both are, or when the value is not a string.
pub open spec fn spec_opt_aliased_str(v: JsonValue, k1: Seq<char>, k2: Seq<char>) -> Option<
    Seq<char>,
> {
    match (spec_json_get(v, k1), spec_json_get(v, k2)) {
        (None, None) => Some(Seq::empty()),
        (Some(a), None) => match a {
            JsonValue::Str(s) => Some(s@),
            _ => None,
        },
        (None, Some(b)) => match b {
            JsonValue::Str(s) => Some(s@),
            _ => None,
        },
        _ => None,
    }
}

/// An optional aliased integer field with default zero.
pub open spec fn spec_opt_aliased_int(v: JsonValue, k1: Seq<char>, k2: Seq<char>) -> Option<int> {
    match (spec_json_get(v, k1), spec_json_get(v, k2)) {
        (None, None) => Some(0int),
        (Some(a), None) => match a {
            JsonValue::Int(n) => Some(n as int),
            _ => None,
        },
        (None, Some(b)) => match b {
            JsonValue::Int(n) => Some(n as int),
            _ => None,
        },
        _ => None,
    }
}

fn req_str(v: &JsonValue, key: &str) -> (r: Option<String>)
    ensures
        match r {
            Some(s) => spec_req_str(*v, key@) == Some(s@),
            None => spec_req_str(*v, key@) is None,
        },
{
    match json_get(v, key) {
        Some(field) => match field {
            JsonValue::Str(s) => Some(s.clone()),
            _ => None,
        },
        None => None,
    }
}

fn aliased<'a>(v: &'a JsonValue, k1: &str, k2: &str) -> (r: Option<&'a JsonValue>)
    ensures
        match r {
            Some(x) => spec_aliased(*v, k1@, k2@) == Some(*x),
            None => spec_aliased(*v, k1@, k2@) is None,
        },
{
    let a = json_get(v, k1);
    let b = json_get(v, k2);
    match (a, b) {
        (Some(x), None) => Some(x),
        (None, Some(y)) => Some(y),
        _ => None,
    }
}

fn aliased_str(v: &JsonValue, k1: &str, k2: &str) -> (r: Option<String>)
    ensures
        match r {
            Some(s) => spec_aliased_str(*v, k1@, k2@) == Some(s@),
            None => spec_aliased_str(*v, k1@, k2@) is None,
        },
{
    match aliased(v, k1, k2) {
        Some(field) => match field {
            JsonValue::Str(s) => Some(s.clone()),
            _ => None,
        },
        None => None,
    }
}

fn aliased_bool(v: &JsonValue, k1: &str, k2: &str) -> (r: Option<bool>)
    ensures
        match r {
            Some(b) => spec_aliased_bool(*v, k1@, k2@) == Some(b),
            None => spec_aliased_bool(*v, k1@, k2@) is None,
        },
{
    match aliased(v, k1, k2) {
        Some(field) => match field {
            JsonValue::Bool(b) => Some(*b),
            _ => None,
        },
        None => None,
    }
}

fn aliased_i64(v: &JsonValue, k1: &str, k2: &str) -> (r: Option<i64>)
    ensures
        match r {
            Some(n) => spec_aliased_int(*v, k1@, k2@) == Some(n as int),
            None => spec_aliased_int(*v, k1@, k2@) is None,
        },
{
    match aliased(v, k1, k2) {
        Some(field) => match field {
            JsonValue::Int(n) => Some(*n),
            _ => None,
        },
        None => None,
    }
}

fn opt_str(v: &JsonValue, key: &str) -> (r: Option<String>)
    ensures
        match r {
            Some(s) => spec_opt_str(*v, key@) == Some(s@),
            None => spec_opt_str(*v, key@) is None,
        },
{
    match json_get(v, key) {
        None => Some(String::new()),
        Some(field) => match field {
            JsonValue::Str(s) => Some(s.clone()),
            _ => None,
        },
    }
}

fn opt_aliased_str(v: &JsonValue, k1: &str, k2: &str) -> (r: Option<String>)
    ensures
        match r {
            Some(s) => spec_opt_aliased_str(*v, k1@, k2@) == Some(s@),
            None => spec_opt_aliased_str(*v, k1@, k2@) is None,
        },
{
    let a = json_get(v, k1);
    let b = json_get(v, k2);
    match (a, b) {
        (None, None) => Some(String::new()),
        (Some(field), None) => match field {
            JsonValue::Str(s) => Some(s.clone()),
            _ => None,
        },
        (None, Some(field)) => match field {
            JsonValue::Str(s) => Some(s.clone()),
            _ => None,
        },
        _ => None,
    }
}

fn opt_aliased_i64(v: &JsonValue, k1: &str, k2: &str) -> (r: Option<i64>)
    ensures
        match r {
            Some(n) => spec_opt_aliased_int(*v, k1@, k2@) == Some(n as int),
            None => spec_opt_aliased_int(*v, k1@, k2@) is None,
        },
{
    let a = json_get(v, k1);
    let b = json_get(v, k2);
    match (a, b) {
        (None, None) => Some(0),
        (Some(field), None) => match field {
            JsonValue::Int(n) => Some(*n),
            _ => None,
        },
        (None, Some(field)) => match field {
            JsonValue::Int(n) => Some(*n),
            _ => None,
        },
        _ => None,
    }
}

// ---------------------------------------------------------------------------
// MDC maps
// ---------------------------------------------------------------------------

/// The entries of an MDC map as key and shown-value text.
pub open spec fn spec_mdc_entries(fields: Seq<(String, JsonValue)>) -> Seq<(Seq<char>, Seq<char>)> {
    fields.map_values(|f: (String, JsonValue)| (f.0@, spec_text_value(f.1)))
}

/// The `mdc` field of a record: absent means empty, an object gives its
/// entries, anything else fails the decode.
pub open spec fn spec_mdc_field(v: JsonValue) -> Option<Seq<(Seq<char>, Seq<char>)>> {
    match spec_json_get(v, "mdc"@) {
        None => Some(Seq::empty()),
        Some(field) => match field {
            JsonValue::Obj(m) => Some(spec_mdc_entries(m@)),
            _ => None,
        },
    }
}

/// The view of decoded MDC entries.
pub open spec fn spec_mdc_view(entries: Seq<(String, String)>) -> Seq<(Seq<char>, Seq<char>)> {
    entries.map_values(|e: (String, String)| (e.0@, e.1@))
}

fn mdc_entries(fields: &Vec<(String, JsonValue)>) -> (r: Vec<(String, String)>)
    ensures
        spec_mdc_view(r@) == spec_mdc_entries(fields@),
{
    let mut r: Vec<(String, String)> = Vec::new();
    let mut i: usize = 0;
    while i < fields.len()
        invariant
            i <= fields@.len(),
            r@.len() == i,
            forall|j: int|
                0 <= j < i ==> (#[trigger] r@[j]).0@ == fields@[j].0@ && r@[j].1@
                    == spec_text_value(fields@[j].1),
        decreases fields@.len() - i,
    {
        let shown = text_value(&fields[i].1);
        r.push((fields[i].0.clone(), shown));
        i = i + 1;
        proof {
            assert(r@[i as int - 1].0@ == fields@[i as int - 1].0@);
            assert(r@[i as int - 1].1@ == spec_text_value(fields@[i as int - 1].1));
        }
    }
    proof {
        assert(spec_mdc_view(r@) =~= spec_mdc_entries(fields@));
    }
    r
}

fn mdc_field(v: &JsonValue) -> (r: Option<Vec<(String, String)>>)
    ensures
        match r {
            Some(entries) => spec_mdc_field(*v) == Some(spec_mdc_view(entries@)),
            None => spec_mdc_field(*v) is None,
        },
{
    match json_get(v, "mdc") {
        None => Some(Vec::new()),
        Some(field) => match field {
            JsonValue::Obj(m) => Some(mdc_entries(m)),
            _ => None,
        },
    }
}

/// How an MDC map is shown behind the metadata: nothing when empty, else a
/// bracketed `key=value` list, the values trimmed.
pub open spec fn spec_mdc_text(entries: Seq<(Seq<char>, Seq<char>)>) -> Seq<char> {
    if entries.len() == 0 {
        Seq::empty()
    } else {
        "["@ + spec_join(
            entries.map_values(|e: (Seq<char>, Seq<char>)| e.0 + "="@ + spec_trim(e.1)),
            ","@,
        ) + "]"@
    }
}

/// Render decoded MDC entries as `[k=v,...]`, or nothing when empty.
fn format_mdc(entries: &Vec<(String, String)>) -> (r: String)
    ensures
        r@ == spec_mdc_text(spec_mdc_view(entries@)),
{
    if entries.len() == 0 {
        proof {
            assert(spec_mdc_view(entries@).len() == 0);
        }
        String::new()
    } else {
        let mut parts: Vec<Vec<char>> = Vec::new();
        let mut i: usize = 0;
        while i < entries.len()
            invariant
                i <= entries@.len(),
                parts@.len() == i,
                forall|j: int|
                    0 <= j < i ==> #[trigger] parts@[j]@ == entries@[j].0@ + "="@ + spec_trim(
                        entries@[j].1@,
                    ),
            decreases entries@.len() - i,
        {
            let mut part: Vec<char> = Vec::new();
            append_str(&mut part, entries[i].0.as_str());
            append_str(&mut part, "=");
            let value_chars = chars_of(entries[i].1.as_str());
            let trimmed = trim_chars(&value_chars);
            crate::text::append_chars(&mut part, &trimmed);
            proof {
                assert(part@ =~= entries@[i as int].0@ + "="@ + spec_trim(entries@[i as int].1@));
            }
            parts.push(part);
            i = i + 1;
        }
        let joined = join_chars(&parts, ",");
        let mut out: Vec<char> = Vec::new();
        append_str(&mut out, "[");
        crate::text::append_chars(&mut out, &joined);
        append_str(&mut out, "]");
        proof {
            assert(joined@.take(joined@.len() as int) =~= joined@);
            assert(parts@.map_values(|p: Vec<char>| p@) =~= spec_mdc_view(
                entries@,
            ).map_values(|e: (Seq<char>, Seq<char>)| e.0 + "="@ + spec_trim(e.1)));
            assert(out@ =~= spec_mdc_text(spec_mdc_view(entries@)));
        }
        string_of(&out)
    }
}

// ---------------------------------------------------------------------------
// ElixirLogLine
// ---------------------------------------------------------------------------

/// A log record in the shape an Elixir-style JSON logger emits.
#[derive(Debug)]
pub struct ElixirLogLine {
    pub app: String,
    pub level: String,
    pub message: String,
    pub module: String,
    pub pid: String,
    pub timestamp: String,
}

/// The mathematical value of an `ElixirLogLine`.
pub struct ElixirLogLineView {
    pub app: Seq<char>,
    pub level: Seq<char>,
    pub message: Seq<char>,
    pub module: Seq<char>,
    pub pid: Seq<char>,
    pub timestamp: Seq<char>,
}

impl View for ElixirLogLine {
    type V = ElixirLogLineView;

    open spec fn view(&self) -> ElixirLogLineView {
        ElixirLogLineView {
            app: self.app@,
            level: self.level@,
            message: self.message@,
            module: self.module@,
            pid: self.pid@,
            timestamp: self.timestamp@,
        }
    }
}

/// What an Elixir-shaped record decodes to: all six fields present as
/// strings, or nothing.
pub open spec fn spec_elixir_decode(v: JsonValue) -> Option<ElixirLogLineView> {
    if {
        &&& spec_req_str(v, "app"@) is Some
        &&& spec_req_str(v, "level"@) is Some
        &&& spec_req_str(v, "message"@) is Some
        &&& spec_req_str(v, "module"@) is Some
        &&& spec_req_str(v, "pid"@) is Some
        &&& spec_req_str(v, "timestamp"@) is Some
    } {
        Some(
            ElixirLogLineView {
                app: spec_req_str(v, "app"@).unwrap(),
                level: spec_req_str(v, "level"@).unwrap(),
                message: spec_req_str(v, "message"@).unwrap(),
                module: spec_req_str(v, "module"@).unwrap(),
                pid: spec_req_str(v, "pid"@).unwrap(),
                timestamp: spec_req_str(v, "timestamp"@).unwrap(),
            },
        )
    } else {
        None
    }
}

/// The dimmed metadata of an Elixir line.
pub open spec fn spec_elixir_meta(l: ElixirLogLineView) -> Seq<char> {
    "["@ + l.timestamp + "] ["@ + l.level + "] ["@ + l.app + "] ["@ + l.module + "] ["@ + l.pid
        + "]"@
}

/// The spans of a rendered Elixir line: dimmed metadata, then the message,
/// all in the severity color.
pub open spec fn spec_elixir_spans(l: ElixirLogLineView) -> Seq<SpanView> {
    seq![
        SpanView { text: spec_elixir_meta(l), dimmed: true, color: spec_color_for(l.level) },
        SpanView { text: " "@ + l.message, dimmed: false, color: spec_color_for(l.level) },
    ]
}

/// Decode-and-render for the Elixir shape.
pub open spec fn spec_elixir_try(v: JsonValue) -> Option<Seq<SpanView>> {
    match spec_elixir_decode(v) {
        Some(l) => Some(spec_elixir_spans(l)),
        None => None,
    }
}

impl ElixirLogLine {
    /// Decode a record into this shape, atomically: all six fields or nothing.
    pub fn try_decode(entry: &JsonValue) -> (r: Option<ElixirLogLine>)
        ensures
            match r {
                Some(l) => spec_elixir_decode(*entry) == Some(l@),
                None => spec_elixir_decode(*entry) is None,
            },
    {
        let app = match req_str(entry, "app") {
            Some(s) => s,
            None => {
                return None;
            },
        };
        let level = match req_str(entry, "level") {
            Some(s) => s,
            None => {
                return None;
            },
        };
        let message = match req_str(entry, "message") {
            Some(s) => s,
            None => {
                return None;
            },
        };
        let module = match req_str(entry, "module") {
            Some(s) => s,
            None => {
                return None;
            },
        };
        let pid = match req_str(entry, "pid") {
            Some(s) => s,
            None => {
                return None;
            },
        };
        let timestamp = match req_str(entry, "timestamp") {
            Some(s) => s,
            None => {
                return None;
            },
        };
        Some(ElixirLogLine { app, level, message, module, pid, timestamp })
    }

    /// The bracketed metadata: timestamp, level, app, module, pid.
    pub fn format_meta(&self) -> (r: String)
        ensures
            r@ == spec_elixir_meta(self@),
    {
        let mut out: Vec<char> = Vec::new();
        append_str(&mut out, "[");
        append_str(&mut out, self.timestamp.as_str());
        append_str(&mut out, "] [");
        append_str(&mut out, self.level.as_str());
        append_str(&mut out, "] [");
        append_str(&mut out, self.app.as_str());
        append_str(&mut out, "] [");
        append_str(&mut out, self.module.as_str());
        append_str(&mut out, "] [");
        append_str(&mut out, self.pid.as_str());
        append_str(&mut out, "]");
        proof {
            assert(out@ =~= spec_elixir_meta(self@));
        }
        string_of(&out)
    }

    /// Render this line as dimmed metadata plus the message.
    pub fn format(&self) -> (r: StyledText)
        ensures
            r@ == spec_elixir_spans(self@),
    {
        let color = color_for_level(self.level.as_str());
        let meta = self.format_meta();
        let mut msg: Vec<char> = Vec::new();
        append_str(&mut msg, " ");
        append_str(&mut msg, self.message.as_str());
        let mut spans: Vec<StyledSpan> = Vec::new();
        spans.push(StyledSpan { text: meta, dimmed: true, color });
        spans.push(StyledSpan { text: string_of(&msg), dimmed: false, color });
        let r = StyledText { spans };
        proof {
            assert(r@ =~= spec_elixir_spans(self@));
        }
        r
    }

    /// Try to show a record in this shape.
    pub fn to_colored_string(entry: &JsonValue) -> (r: Option<StyledText>)
        ensures
            match r {
                Some(st) => spec_elixir_try(*entry) == Some(st@),
                None => spec_elixir_try(*entry) is None,
            },
    {
        match ElixirLogLine::try_decode(entry) {
            None => None,
            Some(line) => Some(line.format()),
        }
    }
}

// ---------------------------------------------------------------------------
// ElixirExtendedLogLine
// ---------------------------------------------------------------------------

/// The Elixir shape under its longer field name `application`.
#[derive(Debug)]
pub struct ElixirExtendedLogLine {
    pub application: String,
    pub level: String,
    pub message: String,
    pub module: String,
    pub pid: String,
    pub timestamp: String,
}

/// The mathematical value of an `ElixirExtendedLogLine`.
pub struct ElixirExtendedLogLineView {
    pub application: Seq<char>,
    pub level: Seq<char>,
    pub message: Seq<char>,
    pub module: Seq<char>,
    pub pid: Seq<char>,
    pub timestamp: Seq<char>,
}

impl View for ElixirExtendedLogLine {
    type V = ElixirExtendedLogLineView;

    open spec fn view(&self) -> ElixirExtendedLogLineView {
        ElixirExtendedLogLineView {
            application: self.application@,
            level: self.level@,
            message: self.message@,
            module: self.module@,
            pid: self.pid@,
            timestamp: self.timestamp@,
        }
    }
}

/// What a record decodes to in the extended Elixir shape.
pub open spec fn spec_elixir_extended_decode(v: JsonValue) -> Option<ElixirExtendedLogLineView> {
    if {
        &&& spec_req_str(v, "application"@) is Some
        &&& spec_req_str(v, "level"@) is Some
        &&& spec_req_str(v, "message"@) is Some
        &&& spec_req_str(v, "module"@) is Some
        &&& spec_req_str(v, "pid"@) is Some
        &&& spec_req_str(v, "timestamp"@) is Some
    } {
        Some(
            ElixirExtendedLogLineView {
                application: spec_req_str(v, "application"@).unwrap(),
                level: spec_req_str(v, "level"@).unwrap(),
                message: spec_req_str(v, "message"@).unwrap(),
                module: spec_req_str(v, "module"@).unwrap(),
                pid: spec_req_str(v, "pid"@).unwrap(),
                timestamp: spec_req_str(v, "timestamp"@).unwrap(),
            },
        )
    } else {
        None
    }
}

/// The dimmed metadata of an extended Elixir line.
pub open spec fn spec_elixir_extended_meta(l: ElixirExtendedLogLineView) -> Seq<char> {
    "["@ + l.timestamp + "] ["@ + l.level + "] ["@ + l.application + "] ["@ + l.module + "] ["@
        + l.pid + "]"@
}

/// The spans of a rendered extended Elixir line.
pub open spec fn spec_elixir_extended_spans(l: ElixirExtendedLogLineView) -> Seq<SpanView> {
    seq![
        SpanView {
            text: spec_elixir_extended_meta(l),
            dimmed: true,
            color: spec_color_for(l.level),
        },
        SpanView { text: " "@ + l.message, dimmed: false, color: spec_color_for(l.level) },
    ]
}

/// Decode-and-render for the extended Elixir shape.
pub open spec fn spec_elixir_extended_try(v: JsonValue) -> Option<Seq<SpanView>> {
    match spec_elixir_extended_decode(v) {
        Some(l) => Some(spec_elixir_extended_spans(l)),
        None => None,
    }
}

impl ElixirExtendedLogLine {
    /// Decode a record into this shape, atomically.
    pub fn try_decode(entry: &JsonValue) -> (r: Option<ElixirExtendedLogLine>)
        ensures
            match r {
                Some(l) => spec_elixir_extended_decode(*entry) == Some(l@),
                None => spec_elixir_extended_decode(*entry) is None,
            },
    {
        let application = match req_str(entry, "application") {
            Some(s) => s,
            None => {
                return None;
            },
        };
        let level = match req_str(entry, "level") {
            Some(s) => s,
            None => {
                return None;
            },
        };
        let message = match req_str(entry, "message") {
            Some(s) => s,
            None => {
                return None;
            },
        };
        let module = match req_str(entry, "module") {
            Some(s) => s,
            None => {
                return None;
            },
        };
        let pid = match req_str(entry, "pid") {
            Some(s) => s,
            None => {
                return None;
            },
        };
        let timestamp = match req_str(entry, "timestamp") {
            Some(s) => s,
            None => {
                return None;
            },
        };
        Some(ElixirExtendedLogLine { application, level, message, module, pid, timestamp })
    }

    /// The bracketed metadata: timestamp, level, application, module, pid.
    pub fn format_meta(&self) -> (r: String)
        ensures
            r@ == spec_elixir_extended_meta(self@),
    {
        let mut out: Vec<char> = Vec::new();
        append_str(&mut out, "[");
        append_str(&mut out, self.timestamp.as_str());
        append_str(&mut out, "] [");
        append_str(&mut out, self.level.as_str());
        append_str(&mut out, "] [");
        append_str(&mut out, self.application.as_str());
        append_str(&mut out, "] [");
        append_str(&mut out, self.module.as_str());
        append_str(&mut out, "] [");
        append_str(&mut out, self.pid.as_str());
        append_str(&mut out, "]");
        proof {
            assert(out@ =~= spec_elixir_extended_meta(self@));
        }
        string_of(&out)
    }

    /// Render this line as dimmed metadata plus the message.
    pub fn format(&self) -> (r: StyledText)
        ensures
            r@ == spec_elixir_extended_spans(self@),
    {
        let color = color_for_level(self.level.as_str());
        let meta = self.format_meta();
        let mut msg: Vec<char> = Vec::new();
        append_str(&mut msg, " ");
        append_str(&mut msg, self.message.as_str());
        let mut spans: Vec<StyledSpan> = Vec::new();
        spans.push(StyledSpan { text: meta, dimmed: true, color });
        spans.push(StyledSpan { text: string_of(&msg), dimmed: false, color });
        let r = StyledText { spans };
        proof {
            assert(r@ =~= spec_elixir_extended_spans(self@));
        }
        r
    }

    /// Try to show a record in this shape.
    pub fn to_colored_string(entry: &JsonValue) -> (r: Option<StyledText>)
        ensures
            match r {
                Some(st) => spec_elixir_extended_try(*entry) == Some(st@),
                None => spec_elixir_extended_try(*entry) is None,
            },
    {
        match ElixirExtendedLogLine::try_decode(entry) {
            None => None,
            Some(line) => Some(line.format()),
        }
    }
}

// ---------------------------------------------------------------------------
// LogstashJavaLogLine
// ---------------------------------------------------------------------------

/// The structured exception a Logstash record may carry.
#[derive(Debug)]
pub struct LogstashLogLineException {
    pub message: String,
    pub class: String,
    pub stacktrace: String,
}

/// The mathematical value of a `LogstashLogLineException`.
pub struct LogstashLogLineExceptionView {
    pub message: Seq<char>,
    pub class: Seq<char>,
    pub stacktrace: Seq<char>,
}

impl View for LogstashLogLineException {
    type V = LogstashLogLineExceptionView;

    open spec fn view(&self) -> LogstashLogLineExceptionView {
        LogstashLogLineExceptionView {
            message: self.message@,
            class: self.class@,
            stacktrace: self.stacktrace@,
        }
    }
}

/// A log record in the shape a Logstash-style Java logger emits.
#[derive(Debug)]
pub struct LogstashJavaLogLine {
    pub level: String,
    pub message: String,
    pub logger_name: String,
    pub thread_name: String,
    pub timestamp: String,
    pub mdc: Vec<(String, String)>,
    pub stack_trace: String,
    pub exception: LogstashLogLineException,
}

/// The mathematical value of a `LogstashJavaLogLine`.
pub struct LogstashJavaLogLineView {
    pub level: Seq<char>,
    pub message: Seq<char>,
    pub logger_name: Seq<char>,
    pub thread_name: Seq<char>,
    pub timestamp: Seq<char>,
    pub mdc: Seq<(Seq<char>, Seq<char>)>,
    pub stack_trace: Seq<char>,
    pub exception: LogstashLogLineExceptionView,
}

impl View for LogstashJavaLogLine {
    type V = LogstashJavaLogLineView;

    open spec fn view(&self) -> LogstashJavaLogLineView {
        LogstashJavaLogLineView {
            level: self.level@,
            message: self.message@,
            logger_name: self.logger_name@,
            thread_name: self.thread_name@,
            timestamp: self.timestamp@,
            mdc: spec_mdc_view(self.mdc@),
            stack_trace: self.stack_trace@,
            exception: self.exception@,
        }
    }
}

/// The `exception` field of a Logstash record: absent means empty, an
/// object gives its (all optional, aliased) parts, anything else fails.
pub open spec fn spec_logstash_exception(v: JsonValue) -> Option<LogstashLogLineExceptionView> {
    match spec_json_get(v, "exception"@) {
        None => Some(
            LogstashLogLineExceptionView {
                message: Seq::empty(),
                class: Seq::empty(),
                stacktrace: Seq::empty(),
            },
        ),
        Some(field) => match field {
            JsonValue::Obj(_) => {
                if {
                    &&& spec_opt_aliased_str(field, "message"@, "exception_message"@) is Some
                    &&& spec_opt_aliased_str(field, "class"@, "exception_class"@) is Some
                    &&& spec_opt_str(field, "stacktrace"@) is Some
                } {
                    Some(
                        LogstashLogLineExceptionView {
                            message: spec_opt_aliased_str(
                                field,
                                "message"@,
                                "exception_message"@,
                            ).unwrap(),
                            class: spec_opt_aliased_str(
                                field,
                                "class"@,
                                "exception_class"@,
                            ).unwrap(),
                            stacktrace: spec_opt_str(field, "stacktrace"@).unwrap(),
                        },
                    )
                } else {
                    None
                }
            },
            _ => None,
        },
    }
}

/// What a Logstash-shaped record decodes to.
pub open spec fn spec_logstash_decode(v: JsonValue) -> Option<LogstashJavaLogLineView> {
    if {
        &&& spec_req_str(v, "level"@) is Some
        &&& spec_req_str(v, "message"@) is Some
        &&& spec_req_str(v, "logger_name"@) is Some
        &&& spec_req_str(v, "thread_name"@) is Some
        &&& spec_aliased_str(v, "timestamp"@, "@timestamp"@) is Some
        &&& spec_mdc_field(v) is Some
        &&& spec_opt_str(v, "stack_trace"@) is Some
        &&& spec_logstash_exception(v) is Some
    } {
        Some(
            LogstashJavaLogLineView {
                level: spec_req_str(v, "level"@).unwrap(),
                message: spec_req_str(v, "message"@).unwrap(),
                logger_name: spec_req_str(v, "logger_name"@).unwrap(),
                thread_name: spec_req_str(v, "thread_name"@).unwrap(),
                timestamp: spec_aliased_str(v, "timestamp"@, "@timestamp"@).unwrap(),
                mdc: spec_mdc_field(v).unwrap(),
                stack_trace: spec_opt_str(v, "stack_trace"@).unwrap(),
                exception: spec_logstash_exception(v).unwrap(),
            },
        )
    } else {
        None
    }
}

/// The dimmed metadata of a Logstash line, with its MDC list appended.
pub open spec fn spec_logstash_meta(l: LogstashJavaLogLineView) -> Seq<char> {
    "["@ + l.timestamp + "] ["@ + l.level + "] ["@ + l.logger_name + "] ["@ + l.thread_name + "]"@
        + spec_mdc_text(l.mdc)
}

/// The highlighted trailer of a Logstash line: a structured exception wins
/// over a plain stack trace; embedded newlines stay indented.
pub open spec fn spec_logstash_stack(l: LogstashJavaLogLineView) -> Option<Seq<char>> {
    if l.exception.message.len() > 0 {
        Some(
            "\n\t"@ + l.exception.message + " ("@ + l.exception.class + ")\n\t"@ + spec_reindent(
                l.exception.stacktrace,
            ),
        )
    } else if l.stack_trace.len() > 0 {
        Some("\n\t"@ + spec_reindent(l.stack_trace))
    } else {
        None
    }
}

/// The spans of a rendered Logstash line.
pub open spec fn spec_logstash_spans(l: LogstashJavaLogLineView) -> Seq<SpanView> {
    let base = seq![
        SpanView { text: spec_logstash_meta(l), dimmed: true, color: spec_color_for(l.level) },
        SpanView { text: " "@ + l.message, dimmed: false, color: spec_color_for(l.level) },
    ];
    match spec_logstash_stack(l) {
        Some(t) => base.push(SpanView { text: t, dimmed: false, color: Color::Red }),
        None => base,
    }
}

/// Decode-and-render for the Logstash shape.
pub open spec fn spec_logstash_try(v: JsonValue) -> Option<Seq<SpanView>> {
    match spec_logstash_decode(v) {
        Some(l) => Some(spec_logstash_spans(l)),
        None => None,
    }
}

fn logstash_exception(v: &JsonValue) -> (r: Option<LogstashLogLineException>)
    ensures
        match r {
            Some(e) => spec_logstash_exception(*v) == Some(e@),
            None => spec_logstash_exception(*v) is None,
        },
{
    match json_get(v, "exception") {
        None => Some(
            LogstashLogLineException {
                message: String::new(),
                class: String::new(),
                stacktrace: String::new(),
            },
        ),
        Some(field) => match field {
            JsonValue::Obj(_) => {
                let message = match opt_aliased_str(field, "message", "exception_message") {
                    Some(s) => s,
                    None => {
                        return None;
                    },
                };
                let class = match opt_aliased_str(field, "class", "exception_class") {
                    Some(s) => s,
                    None => {
                        return None;
                    },
                };
                let stacktrace = match opt_str(field, "stacktrace") {
                    Some(s) => s,
                    None => {
                        return None;
                    },
                };
                Some(LogstashLogLineException { message, class, stacktrace })
            },
            _ => None,
        },
    }
}

impl LogstashJavaLogLine {
    /// Decode a record into this shape, atomically.
    pub fn try_decode(entry: &JsonValue) -> (r: Option<LogstashJavaLogLine>)
        ensures
            match r {
                Some(l) => spec_logstash_decode(*entry) == Some(l@),
                None => spec_logstash_decode(*entry) is None,
            },
    {
        let level = match req_str(entry, "level") {
            Some(s) => s,
            None => {
                return None;
            },
        };
        let message = match req_str(entry, "message") {
            Some(s) => s,
            None => {
                return None;
            },
        };
        let logger_name = match req_str(entry, "logger_name") {
            Some(s) => s,
            None => {
                return None;
            },
        };
        let thread_name = match req_str(entry, "thread_name") {
            Some(s) => s,
            None => {
                return None;
            },
        };
        let timestamp = match aliased_str(entry, "timestamp", "@timestamp") {
            Some(s) => s,
            None => {
                return None;
            },
        };
        let mdc = match mdc_field(entry) {
            Some(m) => m,
            None => {
                return None;
            },
        };
        let stack_trace = match opt_str(entry, "stack_trace") {
            Some(s) => s,
            None => {
                return None;
            },
        };
        let exception = match logstash_exception(entry) {
            Some(e) => e,
            None => {
                return None;
            },
        };
        Some(
            LogstashJavaLogLine {
                level,
                message,
                logger_name,
                thread_name,
                timestamp,
                mdc,
                stack_trace,
                exception,
            },
        )
    }

    /// The bracketed metadata with the MDC list appended.
    pub fn format_meta(&self) -> (r: String)
        ensures
            r@ == spec_logstash_meta(self@),
    {
        let mut out: Vec<char> = Vec::new();
        append_str(&mut out, "[");
        append_str(&mut out, self.timestamp.as_str());
        append_str(&mut out, "] [");
        append_str(&mut out, self.level.as_str());
        append_str(&mut out, "] [");
        append_str(&mut out, self.logger_name.as_str());
        append_str(&mut out, "] [");
        append_str(&mut out, self.thread_name.as_str());
        append_str(&mut out, "]");
        let mdc = self.format_mdc();
        append_str(&mut out, mdc.as_str());
        proof {
            assert(out@ =~= spec_logstash_meta(self@));
        }
        string_of(&out)
    }

    /// The MDC list of this line, rendered.
    pub fn format_mdc(&self) -> (r: String)
        ensures
            r@ == spec_mdc_text(self@.mdc),
    {
        format_mdc(&self.mdc)
    }

    /// The highlighted exception or stack-trace trailer, if there is one.
    pub fn format_stacktrace(&self) -> (r: Option<StyledSpan>)
        ensures
            match r {
                Some(sp) => {
                    &&& spec_logstash_stack(self@) == Some(sp@.text)
                    &&& sp@.dimmed == false
                    &&& sp@.color == Color::Red
                },
                None => spec_logstash_stack(self@) is None,
            },
    {
        if self.exception.message.as_str().unicode_len() > 0 {
            let mut out: Vec<char> = Vec::new();
            append_str(&mut out, "\n\t");
            append_str(&mut out, self.exception.message.as_str());
            append_str(&mut out, " (");
            append_str(&mut out, self.exception.class.as_str());
            append_str(&mut out, ")\n\t");
            let trace_chars = chars_of(self.exception.stacktrace.as_str());
            let indented = reindent_chars(&trace_chars);
            crate::text::append_chars(&mut out, &indented);
            proof {
                assert(out@ =~= spec_logstash_stack(self@).unwrap());
            }
            Some(StyledSpan { text: string_of(&out), dimmed: false, color: Color::Red })
        } else if self.stack_trace.as_str().unicode_len() > 0 {
            let mut out: Vec<char> = Vec::new();
            append_str(&mut out, "\n\t");
            let trace_chars = chars_of(self.stack_trace.as_str());
            let indented = reindent_chars(&trace_chars);
            crate::text::append_chars(&mut out, &indented);
            proof {
                assert(out@ =~= spec_logstash_stack(self@).unwrap());
            }
            Some(StyledSpan { text: string_of(&out), dimmed: false, color: Color::Red })
        } else {
            None
        }
    }

    /// Render this line: metadata, message, and any exception trailer.
    pub fn format(&self) -> (r: StyledText)
        ensures
            r@ == spec_logstash_spans(self@),
    {
        let color = color_for_level(self.level.as_str());
        let meta = self.format_meta();
        let mut msg: Vec<char> = Vec::new();
        append_str(&mut msg, " ");
        append_str(&mut msg, self.message.as_str());
        let mut spans: Vec<StyledSpan> = Vec::new();
        spans.push(StyledSpan { text: meta, dimmed: true, color });
        spans.push(StyledSpan { text: string_of(&msg), dimmed: false, color });
        match self.format_stacktrace() {
            Some(sp) => {
                spans.push(sp);
            },
            None => {},
        }
        let r = StyledText { spans };
        proof {
            assert(r@ =~= spec_logstash_spans(self@));
        }
        r
    }

    /// Try to show a record in this shape.
    pub fn to_colored_string(entry: &JsonValue) -> (r: Option<StyledText>)
        ensures
            match r {
                Some(st) => spec_logstash_try(*entry) == Some(st@),
                None => spec_logstash_try(*entry) is None,
            },
    {
        match LogstashJavaLogLine::try_decode(entry) {
            None => None,
            Some(line) => Some(line.format()),
        }
    }
}

// ---------------------------------------------------------------------------
// Log4J's default JSON layout
// ---------------------------------------------------------------------------

/// The instant of a Log4J record: epoch seconds and the nanosecond part.
#[derive(Debug)]
pub struct Log4JJsonLayoutLogLineInstant {
    pub epoch_second: i64,
    pub nano_of_second: u32,
}

/// The mathematical value of an instant.
pub struct Log4JInstantView {
    pub epoch_second: int,
    pub nano_of_second: int,
}

impl View for Log4JJsonLayoutLogLineInstant {
    type V = Log4JInstantView;

    open spec fn view(&self) -> Log4JInstantView {
        Log4JInstantView {
            epoch_second: self.epoch_second as int,
            nano_of_second: self.nano_of_second as int,
        }
    }
}

/// The thrown-exception part a Log4J record may carry; every field optional.
#[derive(Debug)]
pub struct Log4JJsonLayoutLogLineThrown {
    pub common_element_count: i32,
    pub localized_message: String,
    pub message: String,
    pub name: String,
}

/// The mathematical value of a thrown part.
pub struct Log4JThrownView {
    pub common_element_count: int,
    pub localized_message: Seq<char>,
    pub message: Seq<char>,
    pub name: Seq<char>,
}

impl View for Log4JJsonLayoutLogLineThrown {
    type V = Log4JThrownView;

    open spec fn view(&self) -> Log4JThrownView {
        Log4JThrownView {
            common_element_count: self.common_element_count as int,
            localized_message: self.localized_message@,
            message: self.message@,
            name: self.name@,
        }
    }
}

/// A log record in the shape of Log4J's default JSON layout.
#[derive(Debug)]
pub struct Log4JJsonLayoutLogLine {
    pub thread_name: String,
    pub level: String,
    pub logger_name: String,
    pub end_of_batch: bool,
    pub logger_fqcn: String,
    pub message: String,
    pub instant: Log4JJsonLayoutLogLineInstant,
    pub thread_id: i32,
    pub thread_priority: i32,
    pub thrown: Log4JJsonLayoutLogLineThrown,
    pub mdc: Vec<(String, String)>,
}

/// The mathematical value of a `Log4JJsonLayoutLogLine`.
pub struct Log4JJsonLayoutLogLineView {
    pub thread_name: Seq<char>,
    pub level: Seq<char>,
    pub logger_name: Seq<char>,
    pub end_of_batch: bool,
    pub logger_fqcn: Seq<char>,
    pub message: Seq<char>,
    pub instant: Log4JInstantView,
    pub thread_id: int,
    pub thread_priority: int,
    pub thrown: Log4JThrownView,
    pub mdc: Seq<(Seq<char>, Seq<char>)>,
}

impl View for Log4JJsonLayoutLogLine {
    type V = Log4JJsonLayoutLogLineView;

    open spec fn view(&self) -> Log4JJsonLayoutLogLineView {
        Log4JJsonLayoutLogLineView {
            thread_name: self.thread_name@,
            level: self.level@,
            logger_name: self.logger_name@,
            end_of_batch: self.end_of_batch,
            logger_fqcn: self.logger_fqcn@,
            message: self.message@,
            instant: self.instant@,
            thread_id: self.thread_id as int,
            thread_priority: self.thread_priority as int,
            thrown: self.thrown@,
            mdc: spec_mdc_view(self.mdc@),
        }
    }
}

/// The `instant` object: both parts present as integers, the nanosecond
/// part within `u32`.
pub open spec fn spec_instant_decode(inst: JsonValue) -> Option<Log4JInstantView> {
    match (
        spec_aliased_int(inst, "epoch_second"@, "epochSecond"@),
        spec_aliased_int(inst, "nano_of_second"@, "nanoOfSecond"@),
    ) {
        (Some(e), Some(n)) => if 0 <= n <= u32::MAX {
            Some(Log4JInstantView { epoch_second: e, nano_of_second: n })
        } else {
            None
        },
        _ => None,
    }
}

/// The `thrown` object: absent means empty, an object gives its (optional,
/// aliased) parts, anything else fails.
pub open spec fn spec_thrown_decode(v: JsonValue) -> Option<Log4JThrownView> {
    match spec_json_get(v, "thrown"@) {
        None => Some(
            Log4JThrownView {
                common_element_count: 0,
                localized_message: Seq::empty(),
                message: Seq::empty(),
                name: Seq::empty(),
            },
        ),
        Some(field) => match field {
            JsonValue::Obj(_) => {
                let count = spec_opt_aliased_int(
                    field,
                    "common_element_count"@,
                    "commonElementCount"@,
                );
                if {
                    &&& count is Some
                    &&& i32::MIN <= count.unwrap() <= i32::MAX
                    &&& spec_opt_aliased_str(field, "localized_message"@, "localizedMessage"@)
                        is Some
                    &&& spec_opt_str(field, "message"@) is Some
                    &&& spec_opt_str(field, "name"@) is Some
                } {
                    Some(
                        Log4JThrownView {
                            common_element_count: count.unwrap(),
                            localized_message: spec_opt_aliased_str(
                                field,
                                "localized_message"@,
                                "localizedMessage"@,
                            ).unwrap(),
                            message: spec_opt_str(field, "message"@).unwrap(),
                            name: spec_opt_str(field, "name"@).unwrap(),
                        },
                    )
                } else {
                    None
                }
            },
            _ => None,
        },
    }
}

/// What a Log4J-shaped record decodes to.
pub open spec fn spec_log4j_decode(v: JsonValue) -> Option<Log4JJsonLayoutLogLineView> {
    let instant = match spec_json_get(v, "instant"@) {
        Some(inst) => spec_instant_decode(inst),
        None => None,
    };
    let thread_id = spec_aliased_int(v, "thread_id"@, "threadId"@);
    let thread_priority = spec_aliased_int(v, "thread_priority"@, "threadPriority"@);
    if {
        &&& spec_aliased_str(v, "thread_name"@, "thread"@) is Some
        &&& spec_req_str(v, "level"@) is Some
        &&& spec_aliased_str(v, "logger_name"@, "loggerName"@) is Some
        &&& spec_aliased_bool(v, "end_of_batch"@, "endOfBatch"@) is Some
        &&& spec_aliased_str(v, "logger_fqcn"@, "loggerFqcn"@) is Some
        &&& spec_req_str(v, "message"@) is Some
        &&& instant is Some
        &&& thread_id is Some && i32::MIN <= thread_id.unwrap() <= i32::MAX
        &&& thread_priority is Some && i32::MIN <= thread_priority.unwrap() <= i32::MAX
        &&& spec_thrown_decode(v) is Some
        &&& spec_mdc_field(v) is Some
    } {
        Some(
            Log4JJsonLayoutLogLineView {
                thread_name: spec_aliased_str(v, "thread_name"@, "thread"@).unwrap(),
                level: spec_req_str(v, "level"@).unwrap(),
                logger_name: spec_aliased_str(v, "logger_name"@, "loggerName"@).unwrap(),
                end_of_batch: spec_aliased_bool(v, "end_of_batch"@, "endOfBatch"@).unwrap(),
                logger_fqcn: spec_aliased_str(v, "logger_fqcn"@, "loggerFqcn"@).unwrap(),
                message: spec_req_str(v, "message"@).unwrap(),
                instant: instant.unwrap(),
                thread_id: thread_id.unwrap(),
                thread_priority: thread_priority.unwrap(),
                thrown: spec_thrown_decode(v).unwrap(),
                mdc: spec_mdc_field(v).unwrap(),
            },
        )
    } else {
        None
    }
}

// ---------------------------------------------------------------------------
// The Log4J timestamp
// ---------------------------------------------------------------------------

/// The RFC 3339 UTC rendering of a timestamp, as chrono's `%+` format
/// writes it.  The result is a function of the two arguments alone.
pub uninterp spec fn spec_utc_rfc3339(epoch_second: int, nano_of_second: int) -> Seq<char>;

/// The timestamps this crate hands to chrono: within about 250,000 years
/// of the epoch, with a plain sub-second nanosecond part.
pub open spec fn spec_timestamp_in_range(epoch_second: int, nano_of_second: int) -> bool {
    &&& -8_000_000_000_000 <= epoch_second <= 8_000_000_000_000
    &&& 0 <= nano_of_second < 1_000_000_000
}

/// Relies on chrono's `DateTime::<Utc>::from_timestamp`, which returns a
/// datetime for every timestamp in `spec_timestamp_in_range` (its own range
/// is wider), and on chrono's `%+` formatting of that datetime, an RFC 3339
/// rendering that depends on the timestamp alone.
#[verifier::external_body]
fn utc_rfc3339(epoch_second: i64, nano_of_second: u32) -> (r: String)
    requires
        spec_timestamp_in_range(epoch_second as int, nano_of_second as int),
    ensures
        r@ == spec_utc_rfc3339(epoch_second as int, nano_of_second as int),
{
    match chrono::DateTime::<chrono::Utc>::from_timestamp(epoch_second, nano_of_second) {
        Some(d) => d.format("%+").to_string(),
        None => String::new(),
    }
}

/// The timestamp text of a Log4J line: the RFC 3339 rendering where the
/// instant lies in range, else the bare epoch seconds in decimal.
pub open spec fn spec_log4j_date(i: Log4JInstantView) -> Seq<char> {
    if spec_timestamp_in_range(i.epoch_second, i.nano_of_second) {
        spec_utc_rfc3339(i.epoch_second, i.nano_of_second)
    } else {
        spec_i64_text(i.epoch_second)
    }
}

// ---------------------------------------------------------------------------
// Rendering the Log4J shape
// ---------------------------------------------------------------------------

/// The dimmed metadata of a Log4J line: date, level, logger, thread, MDC.
pub open spec fn spec_log4j_meta(l: Log4JJsonLayoutLogLineView) -> Seq<char> {
    "["@ + spec_log4j_date(l.instant) + "] ["@ + l.level + "] ["@ + l.logger_name + "] ["@
        + l.thread_name + "]"@ + spec_mdc_text(l.mdc)
}

/// The highlighted trailer of a Log4J line, by which thrown parts are
/// non-empty: name and message as an indented block, message alone as an
/// indented block, name alone inline in parentheses, else nothing.
pub open spec fn spec_log4j_stack(l: Log4JJsonLayoutLogLineView) -> Option<Seq<char>> {
    if l.thrown.message.len() > 0 && l.thrown.name.len() > 0 {
        Some("\n\t"@ + l.thrown.name + "\n\t"@ + spec_reindent(l.thrown.message))
    } else if l.thrown.message.len() > 0 {
        Some("\n\t"@ + spec_reindent(l.thrown.message))
    } else if l.thrown.name.len() > 0 {
        Some(" ("@ + l.thrown.name + ")"@)
    } else {
        None
    }
}

/// The spans of a rendered Log4J line.
pub open spec fn spec_log4j_spans(l: Log4JJsonLayoutLogLineView) -> Seq<SpanView> {
    let base = seq![
        SpanView { text: spec_log4j_meta(l), dimmed: true, color: spec_color_for(l.level) },
        SpanView { text: " "@ + l.message, dimmed: false, color: spec_color_for(l.level) },
    ];
    match spec_log4j_stack(l) {
        Some(t) => base.push(SpanView { text: t, dimmed: false, color: Color::Red }),
        None => base,
    }
}

/// Decode-and-render for the Log4J shape.
pub open spec fn spec_log4j_try(v: JsonValue) -> Option<Seq<SpanView>> {
    match spec_log4j_decode(v) {
        Some(l) => Some(spec_log4j_spans(l)),
        None => None,
    }
}

fn aliased_i32(v: &JsonValue, k1: &str, k2: &str) -> (r: Option<i32>)
    ensures
        match r {
            Some(n) => spec_aliased_int(*v, k1@, k2@) == Some(n as int),
            None => {
                ||| spec_aliased_int(*v, k1@, k2@) is None
                ||| !(i32::MIN <= spec_aliased_int(*v, k1@, k2@).unwrap() <= i32::MAX)
            },
        },
{
    match aliased_i64(v, k1, k2) {
        Some(n) => {
            if i32::MIN as i64 <= n && n <= i32::MAX as i64 {
                Some(n as i32)
            } else {
                None
            }
        },
        None => None,
    }
}

fn instant_decode(inst: &JsonValue) -> (r: Option<Log4JJsonLayoutLogLineInstant>)
    ensures
        match r {
            Some(i) => spec_instant_decode(*inst) == Some(i@),
            None => spec_instant_decode(*inst) is None,
        },
{
    let e = match aliased_i64(inst, "epoch_second", "epochSecond") {
        Some(e) => e,
        None => {
            return None;
        },
    };
    let n = match aliased_i64(inst, "nano_of_second", "nanoOfSecond") {
        Some(n) => n,
        None => {
            return None;
        },
    };
    if 0 <= n && n <= u32::MAX as i64 {
        Some(Log4JJsonLayoutLogLineInstant { epoch_second: e, nano_of_second: n as u32 })
    } else {
        None
    }
}

fn thrown_decode(v: &JsonValue) -> (r: Option<Log4JJsonLayoutLogLineThrown>)
    ensures
        match r {
            Some(t) => spec_thrown_decode(*v) == Some(t@),
            None => spec_thrown_decode(*v) is None,
        },
{
    match json_get(v, "thrown") {
        None => Some(
            Log4JJsonLayoutLogLineThrown {
                common_element_count: 0,
                localized_message: String::new(),
                message: String::new(),
                name: String::new(),
            },
        ),
        Some(field) => match field {
            JsonValue::Obj(_) => {
                let count = match opt_aliased_i64(
                    field,
                    "common_element_count",
                    "commonElementCount",
                ) {
                    Some(n) => {
                        if i32::MIN as i64 <= n && n <= i32::MAX as i64 {
                            n as i32
                        } else {
                            return None;
                        }
                    },
                    None => {
                        return None;
                    },
                };
                let localized_message = match opt_aliased_str(
                    field,
                    "localized_message",
                    "localizedMessage",
                ) {
                    Some(s) => s,
                    None => {
                        return None;
                    },
                };
                let message = match opt_str(field, "message") {
                    Some(s) => s,
                    None => {
                        return None;
                    },
                };
                let name = match opt_str(field, "name") {
                    Some(s) => s,
                    None => {
                        return None;
                    },
                };
                Some(
                    Log4JJsonLayoutLogLineThrown {
                        common_element_count: count,
                        localized_message,
                        message,
                        name,
                    },
                )
            },
            _ => None,
        },
    }
}

impl Log4JJsonLayoutLogLine {
    /// Decode a record into this shape, atomically.
    pub fn try_decode(entry: &JsonValue) -> (r: Option<Log4JJsonLayoutLogLine>)
        ensures
            match r {
                Some(l) => spec_log4j_decode(*entry) == Some(l@),
                None => spec_log4j_decode(*entry) is None,
            },
    {
        let thread_name = match aliased_str(entry, "thread_name", "thread") {
            Some(s) => s,
            None => {
                return None;
            },
        };
        let level = match req_str(entry, "level") {
            Some(s) => s,
            None => {
                return None;
            },
        };
        let logger_name = match aliased_str(entry, "logger_name", "loggerName") {
            Some(s) => s,
            None => {
                return None;
            },
        };
        let end_of_batch = match aliased_bool(entry, "end_of_batch", "endOfBatch") {
            Some(b) => b,
            None => {
                return None;
            },
        };
        let logger_fqcn = match aliased_str(entry, "logger_fqcn", "loggerFqcn") {
            Some(s) => s,
            None => {
                return None;
            },
        };
        let message = match req_str(entry, "message") {
            Some(s) => s,
            None => {
                return None;
            },
        };
        let instant = match json_get(entry, "instant") {
            Some(inst) => match instant_decode(inst) {
                Some(i) => i,
                None => {
                    return None;
                },
            },
            None => {
                return None;
            },
        };
        let thread_id = match aliased_i32(entry, "thread_id", "threadId") {
            Some(n) => n,
            None => {
                return None;
            },
        };
        let thread_priority = match aliased_i32(entry, "thread_priority", "threadPriority") {
            Some(n) => n,
            None => {
                return None;
            },
        };
        let thrown = match thrown_decode(entry) {
            Some(t) => t,
            None => {
                return None;
            },
        };
        let mdc = match mdc_field(entry) {
            Some(m) => m,
            None => {
                return None;
            },
        };
        Some(
            Log4JJsonLayoutLogLine {
                thread_name,
                level,
                logger_name,
                end_of_batch,
                logger_fqcn,
                message,
                instant,
                thread_id,
                thread_priority,
                thrown,
                mdc,
            },
        )
    }

    /// The timestamp text: RFC 3339 in range, bare epoch seconds otherwise.
    pub fn format_date(&self) -> (r: String)
        ensures
            r@ == spec_log4j_date(self.instant@),
    {
        let e = self.instant.epoch_second;
        let n = self.instant.nano_of_second;
        if -8_000_000_000_000 <= e && e <= 8_000_000_000_000 && n < 1_000_000_000 {
            utc_rfc3339(e, n)
        } else {
            let digits = i64_chars(e);
            string_of(&digits)
        }
    }

    /// The bracketed metadata with the MDC list appended.
    pub fn format_meta(&self) -> (r: String)
        ensures
            r@ == spec_log4j_meta(self@),
    {
        let mut out: Vec<char> = Vec::new();
        append_str(&mut out, "[");
        let date = self.format_date();
        append_str(&mut out, date.as_str());
        append_str(&mut out, "] [");
        append_str(&mut out, self.level.as_str());
        append_str(&mut out, "] [");
        append_str(&mut out, self.logger_name.as_str());
        append_str(&mut out, "] [");
        append_str(&mut out, self.thread_name.as_str());
        append_str(&mut out, "]");
        let mdc = self.format_mdc();
        append_str(&mut out, mdc.as_str());
        proof {
            assert(out@ =~= spec_log4j_meta(self@));
        }
        string_of(&out)
    }

    /// The MDC list of this line, rendered.
    pub fn format_mdc(&self) -> (r: String)
        ensures
            r@ == spec_mdc_text(self@.mdc),
    {
        format_mdc(&self.mdc)
    }

    /// The highlighted thrown trailer, if there is one.
    pub fn format_stacktrace(&self) -> (r: Option<StyledSpan>)
        ensures
            match r {
                Some(sp) => {
                    &&& spec_log4j_stack(self@) == Some(sp@.text)
                    &&& sp@.dimmed == false
                    &&& sp@.color == Color::Red
                },
                None => spec_log4j_stack(self@) is None,
            },
    {
        let has_message = self.thrown.message.as_str().unicode_len() > 0;
        let has_name = self.thrown.name.as_str().unicode_len() > 0;
        if has_message && has_name {
            let mut out: Vec<char> = Vec::new();
            append_str(&mut out, "\n\t");
            append_str(&mut out, self.thrown.name.as_str());
            append_str(&mut out, "\n\t");
            let msg_chars = chars_of(self.thrown.message.as_str());
            let indented = reindent_chars(&msg_chars);
            crate::text::append_chars(&mut out, &indented);
            proof {
                assert(out@ =~= spec_log4j_stack(self@).unwrap());
            }
            Some(StyledSpan { text: string_of(&out), dimmed: false, color: Color::Red })
        } else if has_message {
            let mut out: Vec<char> = Vec::new();
            append_str(&mut out, "\n\t");
            let msg_chars = chars_of(self.thrown.message.as_str());
            let indented = reindent_chars(&msg_chars);
            crate::text::append_chars(&mut out, &indented);
            proof {
                assert(out@ =~= spec_log4j_stack(self@).unwrap());
            }
            Some(StyledSpan { text: string_of(&out), dimmed: false, color: Color::Red })
        } else if has_name {
            let mut out: Vec<char> = Vec::new();
            append_str(&mut out, " (");
            append_str(&mut out, self.thrown.name.as_str());
            append_str(&mut out, ")");
            proof {
                assert(out@ =~= spec_log4j_stack(self@).unwrap());
            }
            Some(StyledSpan { text: string_of(&out), dimmed: false, color: Color::Red })
        } else {
            None
        }
    }

    /// Render this line: metadata, message, and any thrown trailer.
    pub fn format(&self) -> (r: StyledText)
        ensures
            r@ == spec_log4j_spans(self@),
    {
        let color = color_for_level(self.level.as_str());
        let meta = self.format_meta();
        let mut msg: Vec<char> = Vec::new();
        append_str(&mut msg, " ");
        append_str(&mut msg, self.message.as_str());
        let mut spans: Vec<StyledSpan> = Vec::new();
        spans.push(StyledSpan { text: meta, dimmed: true, color });
        spans.push(StyledSpan { text: string_of(&msg), dimmed: false, color });
        match self.format_stacktrace() {
            Some(sp) => {
                spans.push(sp);
            },
            None => {},
        }
        let r = StyledText { spans };
        proof {
            assert(r@ =~= spec_log4j_spans(self@));
        }
        r
    }

    /// Try to show a record in this shape.
    pub fn to_colored_string(entry: &JsonValue) -> (r: Option<StyledText>)
        ensures
            match r {
                Some(st) => spec_log4j_try(*entry) == Some(st@),
                None => spec_log4j_try(*entry) is None,
            },
    {
        match Log4JJsonLayoutLogLine::try_decode(entry) {
            None => None,
            Some(line) => Some(line.format()),
        }
    }
}

// ---------------------------------------------------------------------------
// Equality of decoded Log4J lines
// ---------------------------------------------------------------------------

fn mdc_eq(a: &Vec<(String, String)>, b: &Vec<(String, String)>) -> (r: bool)
    ensures
        r == (spec_mdc_view(a@) == spec_mdc_view(b@)),
{
    if a.len() != b.len() {
        proof {
            assert(spec_mdc_view(a@).len() != spec_mdc_view(b@).len());
        }
        return false;
    }
    let mut i: usize = 0;
    while i < a.len()
        invariant
            a@.len() == b@.len(),
            i <= a@.len(),
            forall|j: int|
                0 <= j < i ==> (#[trigger] a@[j]).0@ == b@[j].0@ && a@[j].1@ == b@[j].1@,
        decreases a@.len() - i,
    {
        if !(a[i].0 == b[i].0 && a[i].1 == b[i].1) {
            proof {
                assert(spec_mdc_view(a@)[i as int] != spec_mdc_view(b@)[i as int]);
            }
            return false;
        }
        i = i + 1;
        proof {
            assert(a@[i as int - 1].0@ == b@[i as int - 1].0@);
            assert(a@[i as int - 1].1@ == b@[i as int - 1].1@);
        }
    }
    proof {
        assert(spec_mdc_view(a@) =~= spec_mdc_view(b@));
    }
    true
}

impl PartialEq for Log4JJsonLayoutLogLineInstant {
    fn eq(&self, other: &Self) -> (r: bool) {
        self.epoch_second == other.epoch_second && self.nano_of_second == other.nano_of_second
    }
}

impl vstd::std_specs::cmp::PartialEqSpecImpl for Log4JJsonLayoutLogLineInstant {
    open spec fn obeys_eq_spec() -> bool {
        true
    }

    open spec fn eq_spec(&self, other: &Self) -> bool {
        self@ == other@
    }
}

impl PartialEq for Log4JJsonLayoutLogLineThrown {
    fn eq(&self, other: &Self) -> (r: bool) {
        self.common_element_count == other.common_element_count && self.localized_message
            == other.localized_message && self.message == other.message && self.name == other.name
    }
}

impl vstd::std_specs::cmp::PartialEqSpecImpl for Log4JJsonLayoutLogLineThrown {
    open spec fn obeys_eq_spec() -> bool {
        true
    }

    open spec fn eq_spec(&self, other: &Self) -> bool {
        self@ == other@
    }
}

impl PartialEq for Log4JJsonLayoutLogLine {
    fn eq(&self, other: &Self) -> (r: bool) {
        self.thread_name == other.thread_name && self.level == other.level && self.logger_name
            == other.logger_name && self.end_of_batch == other.end_of_batch && self.logger_fqcn
            == other.logger_fqcn && self.message == other.message && self.instant == other.instant
            && self.thread_id == other.thread_id && self.thread_priority == other.thread_priority
            && self.thrown == other.thrown && mdc_eq(&self.mdc, &other.mdc)
    }
}

impl vstd::std_specs::cmp::PartialEqSpecImpl for Log4JJsonLayoutLogLine {
    open spec fn obeys_eq_spec() -> bool {
        true
    }

    open spec fn eq_spec(&self, other: &Self) -> bool {
        self@ == other@
    }
}

} // verus!
