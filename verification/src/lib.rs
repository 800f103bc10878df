//! A reader for streams of JSON log lines of mixed provenance.
//!
//! Each input line is decoded (by the surrounding driver) into a
//! [`json::JsonValue`], narrowed by the [`filter`] predicates, and handed to
//! the [`format::Formatter`], which recognises the known line shapes of
//! [`line_formats`], remembers which one matched last, and always produces
//! one readable line, colored by severity when asked to.

use vstd::prelude::*;

pub mod filter;
pub mod format;
pub mod json;
pub mod line_formats;
pub mod style;
pub mod text;

verus! {

use crate::filter::{spec_passes_all, passes_filters, Filter};
use crate::format::{spec_message_spans, spec_next_sticky, spec_not_json_spans, Formatter};
use crate::json::JsonValue;
use crate::style::spec_render;

/// One step of the reading loop: route a decoded line through the filters
/// and the formatter.  A line that was not JSON, or not a JSON object,
/// comes back tagged and otherwise untouched; an object that fails the
/// filters produces nothing; any other object produces its formatted
/// rendering and advances the formatter's sticky state.
pub fn process_line(
    formatter: &mut Formatter,
    filters: &[Filter],
    parsed: Option<JsonValue>,
    raw: &str,
) -> (r: Option<String>)
    ensures
        final(formatter).colors == old(formatter).colors,
        match parsed {
            Some(v) => {
                if v matches JsonValue::Obj(_) {
                    if spec_passes_all(filters@, v) {
                        &&& final(formatter).last_line_converter == spec_next_sticky(
                            old(formatter).last_line_converter,
                            v,
                        )
                        &&& r matches Some(out) && out@ == spec_render(
                            spec_message_spans(old(formatter).last_line_converter, v),
                            old(formatter).colors,
                        )
                    } else {
                        &&& *final(formatter) == *old(formatter)
                        &&& r is None
                    }
                } else {
                    &&& *final(formatter) == *old(formatter)
                    &&& r matches Some(out) && out@ == spec_render(
                        spec_not_json_spans(raw@),
                        old(formatter).colors,
                    )
                }
            },
            None => {
                &&& *final(formatter) == *old(formatter)
                &&& r matches Some(out) && out@ == spec_render(
                    spec_not_json_spans(raw@),
                    old(formatter).colors,
                )
            },
        },
{
    match parsed {
        None => Some(formatter.format_not_json(raw)),
        Some(v) => {
            match &v {
                JsonValue::Obj(_) => {
                    if passes_filters(filters, &v) {
                        Some(formatter.format_message(&v))
                    } else {
                        None
                    }
                },
                _ => Some(formatter.format_not_json(raw)),
            }
        },
    }
}

} // verus!
