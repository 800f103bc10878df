use vstd::prelude::*;

use crate::json::{json_get, spec_json_get, JsonValue};
use crate::text::{chars_contains, chars_of, spec_contains_seq, str_eq, string_of, sub_chars};

verus! {

// ---------------------------------------------------------------------------
// Filter predicates
// ---------------------------------------------------------------------------

/// How a filter compares a record field against its operand.
#[derive(Clone, Copy, PartialEq, Eq, Structural, Debug)]
pub enum FilterKind {
    Equals,
    Contains,
    NotContains,
}

/// One filter predicate over one record field.
#[derive(Debug)]
pub struct Filter {
    pub key: String,
    pub kind: FilterKind,
    pub value: String,
}

/// The mathematical value of a filter.
pub struct FilterView {
    pub key: Seq<char>,
    pub kind: FilterKind,
    pub value: Seq<char>,
}

impl View for Filter {
    type V = FilterView;

    open spec fn view(&self) -> FilterView {
        FilterView { key: self.key@, kind: self.kind, value: self.value@ }
    }
}

impl PartialEq for Filter {
    fn eq(&self, other: &Filter) -> (r: bool) {
        self.key == other.key && self.kind == other.kind && self.value == other.value
    }
}

impl vstd::std_specs::cmp::PartialEqSpecImpl for Filter {
    open spec fn obeys_eq_spec() -> bool {
        true
    }

    open spec fn eq_spec(&self, other: &Filter) -> bool {
        self.key@ == other.key@ && self.kind == other.kind && self.value@ == other.value@
    }
}

/// A filter expression that matches none of the accepted forms.
#[derive(Debug)]
pub struct FilterSyntaxError {
    pub expression: String,
}

// ---------------------------------------------------------------------------
// The filter expression grammar
// ---------------------------------------------------------------------------

/// The position of the first `=` in `s`, or `s.len()` when there is none.
pub open spec fn spec_index_of_eq(s: Seq<char>) -> int
    decreases s.len(),
{
    if s.len() == 0 {
        0
    } else if s[0] == '=' {
        0
    } else {
        1 + spec_index_of_eq(s.drop_first())
    }
}

pub proof fn lemma_index_of_eq(s: Seq<char>)
    ensures
        0 <= spec_index_of_eq(s) <= s.len(),
        spec_index_of_eq(s) < s.len() ==> s[spec_index_of_eq(s)] == '=',
        forall|j: int| 0 <= j < spec_index_of_eq(s) ==> s[j] != '=',
    decreases s.len(),
{
    if s.len() == 0 {
    } else if s[0] == '=' {
    } else {
        lemma_index_of_eq(s.drop_first());
        assert forall|j: int| 0 <= j < spec_index_of_eq(s) implies s[j] != '=' by {
            if j > 0 {
                assert(s.drop_first()[j - 1] == s[j]);
            }
        }
    }
}

/// What one filter expression parses to, if anything.  The forms, most
/// specific first: `key=+value` (contains), `key=^value` (does not contain),
/// `key=value` (equals, where the value may contain further `=`).  The key
/// ends at the first `=` and must be non-empty; the value must be non-empty.
pub open spec fn spec_parse_filter(s: Seq<char>) -> Option<FilterView> {
    let p = spec_index_of_eq(s);
    if p == 0 || p >= s.len() {
        None
    } else {
        let key = s.take(p);
        let rest = s.skip(p + 1);
        if rest.len() >= 2 && rest[0] == '+' {
            Some(FilterView { key, kind: FilterKind::Contains, value: rest.drop_first() })
        } else if rest.len() >= 2 && rest[0] == '^' {
            Some(FilterView { key, kind: FilterKind::NotContains, value: rest.drop_first() })
        } else if rest.len() >= 1 {
            Some(FilterView { key, kind: FilterKind::Equals, value: rest })
        } else {
            None
        }
    }
}

impl Filter {
    /// Build an equality filter from a key and an operand.
    pub fn equals(key: &str, value: &str) -> (f: Self)
        ensures
            f@ == (FilterView { key: key@, kind: FilterKind::Equals, value: value@ }),
    {
        Filter { kind: FilterKind::Equals, key: key.to_owned(), value: value.to_owned() }
    }

    /// Build a substring filter from a key and an operand.
    pub fn contains(key: &str, value: &str) -> (f: Self)
        ensures
            f@ == (FilterView { key: key@, kind: FilterKind::Contains, value: value@ }),
    {
        Filter { kind: FilterKind::Contains, key: key.to_owned(), value: value.to_owned() }
    }

    /// Build an excluding substring filter from a key and an operand.
    pub fn not_contains(key: &str, value: &str) -> (f: Self)
        ensures
            f@ == (FilterView { key: key@, kind: FilterKind::NotContains, value: value@ }),
    {
        Filter { kind: FilterKind::NotContains, key: key.to_owned(), value: value.to_owned() }
    }

    /// Parse one filter expression, rejecting anything outside the grammar.
    pub fn from(text: &str) -> (r: Result<Filter, FilterSyntaxError>)
        ensures
            match r {
                Ok(f) => spec_parse_filter(text@) == Some(f@),
                Err(e) => spec_parse_filter(text@) is None && e.expression@ == text@,
            },
    {
        let chars = chars_of(text);
        let n = chars.len();
        let mut i: usize = 0;
        while i < n && chars[i] != '='
            invariant
                chars@ == text@,
                n == chars@.len(),
                i <= n,
                forall|j: int| 0 <= j < i ==> chars@[j] != '=',
            decreases n - i,
        {
            i = i + 1;
        }
        proof {
            lemma_index_of_eq(text@);
            if i < n {
                assert(text@[i as int] == '=');
                assert(spec_index_of_eq(text@) == i as int);
            } else {
                assert(spec_index_of_eq(text@) == n as int);
            }
        }
        if i == 0 || i >= n {
            return Err(FilterSyntaxError { expression: text.to_owned() });
        }
        let key_chars = sub_chars(&chars, 0, i);
        proof {
            assert(key_chars@ =~= text@.take(i as int));
        }
        let key = string_of(&key_chars);
        let rest_len = n - i - 1;
        if rest_len == 0 {
            return Err(FilterSyntaxError { expression: text.to_owned() });
        }
        if rest_len >= 2 && (chars[i + 1] == '+' || chars[i + 1] == '^') {
            let value_chars = sub_chars(&chars, i + 2, n);
            let value = string_of(&value_chars);
            proof {
                assert(text@.skip(i as int + 1)[0] == text@[i as int + 1]);
                assert(value_chars@ =~= text@.skip(i as int + 1).drop_first());
            }
            if chars[i + 1] == '+' {
                Ok(Filter { kind: FilterKind::Contains, key, value })
            } else {
                Ok(Filter { kind: FilterKind::NotContains, key, value })
            }
        } else {
            let value_chars = sub_chars(&chars, i + 1, n);
            let value = string_of(&value_chars);
            proof {
                assert(value_chars@ =~= text@.skip(i as int + 1));
                if rest_len >= 2 {
                    assert(text@.skip(i as int + 1)[0] == text@[i as int + 1]);
                }
            }
            Ok(Filter { kind: FilterKind::Equals, key, value })
        }
    }
}

// ---------------------------------------------------------------------------
// Evaluation
// ---------------------------------------------------------------------------

/// Whether one filter passes a record: the key must name a string-valued
/// field, and the field's text must satisfy the filter's comparison.  A
/// missing key or a non-string value fails, for every kind of filter.
pub open spec fn spec_filter_passes(f: FilterView, entry: JsonValue) -> bool {
    match spec_json_get(entry, f.key) {
        Some(field) => match field {
            JsonValue::Str(s) => match f.kind {
                FilterKind::Equals => s@ == f.value,
                FilterKind::Contains => spec_contains_seq(s@, f.value),
                FilterKind::NotContains => !spec_contains_seq(s@, f.value),
            },
            _ => false,
        },
        None => false,
    }
}

impl Filter {
    /// Evaluate this filter against a record.
    pub fn passes(&self, entry: &JsonValue) -> (r: bool)
        ensures
            r == spec_filter_passes(self@, *entry),
    {
        match json_get(entry, self.key.as_str()) {
            None => false,
            Some(field) => match field {
                JsonValue::Str(s) => {
                    match self.kind {
                        FilterKind::Equals => str_eq(s.as_str(), self.value.as_str()),
                        FilterKind::Contains => {
                            let hay = chars_of(s.as_str());
                            let needle = chars_of(self.value.as_str());
                            chars_contains(&hay, &needle)
                        },
                        FilterKind::NotContains => {
                            let hay = chars_of(s.as_str());
                            let needle = chars_of(self.value.as_str());
                            !chars_contains(&hay, &needle)
                        },
                    }
                },
                _ => false,
            },
        }
    }
}

/// Whether every filter in a set passes the record; an empty set passes.
pub open spec fn spec_passes_all(filters: Seq<Filter>, entry: JsonValue) -> bool {
    forall|i: int| 0 <= i < filters.len() ==> spec_filter_passes(filters[i]@, entry)
}

/// A record passes a filter set exactly when it passes every filter in it.
pub fn passes_filters(filters: &[Filter], entry: &JsonValue) -> (r: bool)
    ensures
        r == spec_passes_all(filters@, *entry),
{
    let n = filters.len();
    let mut i: usize = 0;
    while i < n
        invariant
            n == filters@.len(),
            i <= n,
            forall|j: int| 0 <= j < i ==> spec_filter_passes(filters@[j]@, *entry),
        decreases n - i,
    {
        let f = &filters[i];
        if !f.passes(entry) {
            return false;
        }
        i = i + 1;
    }
    true
}

/// Parse a list of filter expressions; the first expression outside the
/// grammar fails the whole list.
pub fn parse_filters(unparsed_filters: Vec<&str>) -> (r: Result<Vec<Filter>, FilterSyntaxError>)
    ensures
        match r {
            Ok(fs) => {
                &&& fs@.len() == unparsed_filters@.len()
                &&& forall|i: int|
                    0 <= i < fs@.len() ==> spec_parse_filter(unparsed_filters@[i]@) == Some(
                        fs@[i]@,
                    )
            },
            Err(e) => exists|i: int|
                0 <= i < unparsed_filters@.len() && spec_parse_filter(unparsed_filters@[i]@)
                    is None && e.expression@ == unparsed_filters@[i]@,
        },
{
    let mut fs: Vec<Filter> = Vec::new();
    let n = unparsed_filters.len();
    let mut i: usize = 0;
    while i < n
        invariant
            n == unparsed_filters@.len(),
            i <= n,
            fs@.len() == i,
            forall|j: int|
                0 <= j < i ==> spec_parse_filter(unparsed_filters@[j]@) == Some(fs@[j]@),
        decreases n - i,
    {
        match Filter::from(unparsed_filters[i]) {
            Ok(f) => {
                fs.push(f);
            },
            Err(e) => {
                return Err(e);
            },
        }
        i = i + 1;
    }
    Ok(fs)
}

// ---------------------------------------------------------------------------
// Laws of the grammar and of evaluation
// ---------------------------------------------------------------------------

proof fn lemma_key_stops_scan(s: Seq<char>, key: Seq<char>)
    requires
        key.len() < s.len(),
        s[key.len() as int] == '=',
        forall|j: int| 0 <= j < key.len() ==> s[j] == key[j],
        forall|j: int| 0 <= j < key.len() ==> key[j] != '=',
    ensures
        spec_index_of_eq(s) == key.len(),
{
    lemma_index_of_eq(s);
    let p = spec_index_of_eq(s);
    if p < key.len() {
        assert(s[p] == '=');
        assert(key[p] != '=');
    }
    if p > key.len() {
        assert(s[key.len() as int] != '=');
    }
}

/// Law: an expression `key=value`, with a non-empty key holding no `=`, a
/// non-empty value, and no `+` or `^` marker right after the `=`, parses to
/// an equality filter with exactly that key and that value.
pub proof fn lemma_parse_equals(s: Seq<char>, key: Seq<char>, value: Seq<char>)
    requires
        s == key + seq!['='] + value,
        key.len() > 0,
        forall|j: int| 0 <= j < key.len() ==> key[j] != '=',
        value.len() > 0,
        value[0] != '+',
        value[0] != '^',
    ensures
        spec_parse_filter(s) == Some(
            FilterView { key, kind: FilterKind::Equals, value },
        ),
{
    assert(s[key.len() as int] == '=');
    lemma_key_stops_scan(s, key);
    assert(s.take(key.len() as int) =~= key);
    assert(s.skip(key.len() as int + 1) =~= value);
    if value.len() >= 2 {
        assert(spec_parse_filter(s) == Some(FilterView { key, kind: FilterKind::Equals, value }));
    }
}

/// Law: an expression `key=+value` (or `key=^value`), with a non-empty key
/// holding no `=` and a non-empty value that may itself contain `=`, parses
/// to a contains (or does-not-contain) filter with that key and that value.
pub proof fn lemma_parse_marked(s: Seq<char>, key: Seq<char>, marker: char, value: Seq<char>)
    requires
        s == key + seq!['=', marker] + value,
        key.len() > 0,
        forall|j: int| 0 <= j < key.len() ==> key[j] != '=',
        value.len() > 0,
        marker == '+' || marker == '^',
    ensures
        spec_parse_filter(s) == Some(
            FilterView {
                key,
                kind: if marker == '+' {
                    FilterKind::Contains
                } else {
                    FilterKind::NotContains
                },
                value,
            },
        ),
{
    assert(s[key.len() as int] == '=');
    lemma_key_stops_scan(s, key);
    assert(s.take(key.len() as int) =~= key);
    assert(s.skip(key.len() as int + 1) =~= seq![marker] + value);
    assert(s.skip(key.len() as int + 1)[0] == marker);
    assert(s.skip(key.len() as int + 1).drop_first() =~= value);
}

/// Law: a record that passes every filter of a set but possibly one still
/// passes the set with that one removed; in particular, removing a failing
/// filter from an otherwise-passing set cannot make the set fail.
pub proof fn lemma_remove_filter(filters: Seq<Filter>, i: int, entry: JsonValue)
    requires
        0 <= i < filters.len(),
        forall|j: int|
            0 <= j < filters.len() && j != i ==> spec_filter_passes(filters[j]@, entry),
    ensures
        spec_passes_all(filters.remove(i), entry),
{
    let removed = filters.remove(i);
    assert forall|k: int| 0 <= k < removed.len() implies spec_filter_passes(
        removed[k]@,
        entry,
    ) by {
        if k < i {
            assert(removed[k] == filters[k]);
        } else {
            assert(removed[k] == filters[k + 1]);
        }
    }
}

} // verus!
