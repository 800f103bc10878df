use vstd::prelude::*;

verus! {

// ---------------------------------------------------------------------------
// Conversions between `&str` / `String` and `Vec<char>`
//
// All text manipulation in this crate is done over `Vec<char>`, whose view is
// the same `Seq<char>` that `&str` and `String` use, so one family of spec
// functions covers everything.
// ---------------------------------------------------------------------------

/// Collect the characters of a string slice into a vector.
pub fn chars_of(s: &str) -> (v: Vec<char>)
    ensures
        v@ == s@,
{
    let n = s.unicode_len();
    let mut v: Vec<char> = Vec::new();
    let mut i: usize = 0;
    while i < n
        invariant
            n == s@.len(),
            i <= n,
            v@ == s@.take(i as int),
        decreases n - i,
    {
        let c = s.get_char(i);
        v.push(c);
        i = i + 1;
        proof {
            assert(v@ =~= s@.take(i as int));
        }
    }
    proof {
        assert(v@ =~= s@);
    }
    v
}

/// Relies on std's `String::push`, which appends one character to the string.
#[verifier::external_body]
fn push_char(s: &mut String, c: char)
    ensures
        final(s)@ == old(s)@.push(c),
{
    s.push(c);
}

/// Build a `String` out of a vector of characters.
pub fn string_of(v: &Vec<char>) -> (s: String)
    ensures
        s@ == v@,
{
    let mut s = String::new();
    let mut i: usize = 0;
    while i < v.len()
        invariant
            i <= v.len(),
            s@ == v@.take(i as int),
        decreases v.len() - i,
    {
        push_char(&mut s, v[i]);
        i = i + 1;
        proof {
            assert(s@ =~= v@.take(i as int));
        }
    }
    proof {
        assert(s@ =~= v@);
    }
    s
}

/// Append every character of `piece` to `out`.
pub fn append_chars(out: &mut Vec<char>, piece: &Vec<char>)
    ensures
        final(out)@ == old(out)@ + piece@,
{
    let mut i: usize = 0;
    while i < piece.len()
        invariant
            i <= piece.len(),
            out@ == old(out)@ + piece@.take(i as int),
        decreases piece.len() - i,
    {
        out.push(piece[i]);
        i = i + 1;
        proof {
            assert(out@ =~= old(out)@ + piece@.take(i as int));
        }
    }
    proof {
        assert(out@ =~= old(out)@ + piece@);
    }
}

/// Append every character of the string slice `piece` to `out`.
pub fn append_str(out: &mut Vec<char>, piece: &str)
    ensures
        final(out)@ == old(out)@ + piece@,
{
    let chars = chars_of(piece);
    append_chars(out, &chars);
}

/// Compare a character vector against a string slice.
pub fn chars_eq_str(v: &Vec<char>, s: &str) -> (r: bool)
    ensures
        r == (v@ == s@),
{
    let n = s.unicode_len();
    if v.len() != n {
        proof {
            assert(v@.len() != s@.len());
        }
        return false;
    }
    let mut i: usize = 0;
    while i < n
        invariant
            n == s@.len(),
            v@.len() == n,
            i <= n,
            forall|j: int| 0 <= j < i ==> v@[j] == s@[j],
        decreases n - i,
    {
        if v[i] != s.get_char(i) {
            return false;
        }
        i = i + 1;
    }
    proof {
        assert(v@ =~= s@);
    }
    true
}

/// Copy the characters of `v` between `from` and `to` into a new vector.
pub fn sub_chars(v: &Vec<char>, from: usize, to: usize) -> (r: Vec<char>)
    requires
        from <= to <= v@.len(),
    ensures
        r@ == v@.subrange(from as int, to as int),
{
    let mut r: Vec<char> = Vec::new();
    let mut i: usize = from;
    while i < to
        invariant
            from <= i <= to <= v@.len(),
            r@ == v@.subrange(from as int, i as int),
        decreases to - i,
    {
        r.push(v[i]);
        i = i + 1;
        proof {
            assert(r@ =~= v@.subrange(from as int, i as int));
        }
    }
    r
}

/// Compare two string slices character by character.
pub fn str_eq(a: &str, b: &str) -> (r: bool)
    ensures
        r == (a@ == b@),
{
    let n = a.unicode_len();
    if b.unicode_len() != n {
        return false;
    }
    let mut i: usize = 0;
    while i < n
        invariant
            n == a@.len(),
            b@.len() == n,
            i <= n,
            forall|j: int| 0 <= j < i ==> a@[j] == b@[j],
        decreases n - i,
    {
        if a.get_char(i) != b.get_char(i) {
            return false;
        }
        i = i + 1;
    }
    proof {
        assert(a@ =~= b@);
    }
    true
}

// ---------------------------------------------------------------------------
// Substring search
// ---------------------------------------------------------------------------

/// `needle` occurs in `hay` starting at index `i`.
pub open spec fn spec_has_sub_at(hay: Seq<char>, needle: Seq<char>, i: int) -> bool {
    &&& 0 <= i
    &&& i + needle.len() <= hay.len()
    &&& hay.subrange(i, i + needle.len() as int) == needle
}

/// `needle` occurs somewhere in `hay` as a contiguous run.
pub open spec fn spec_contains_seq(hay: Seq<char>, needle: Seq<char>) -> bool {
    exists|i: int| spec_has_sub_at(hay, needle, i)
}

/// Substring search over character vectors.
pub fn chars_contains(hay: &Vec<char>, needle: &Vec<char>) -> (r: bool)
    ensures
        r == spec_contains_seq(hay@, needle@),
{
    if needle.len() > hay.len() {
        proof {
            assert(forall|i: int| !spec_has_sub_at(hay@, needle@, i));
        }
        return false;
    }
    if needle.len() == 0 {
        proof {
            assert(hay@.subrange(0, 0) =~= needle@);
            assert(spec_has_sub_at(hay@, needle@, 0));
        }
        return true;
    }
    let last_start = hay.len() - needle.len();
    let mut i: usize = 0;
    while i <= last_start
        invariant
            1 <= needle@.len() <= hay@.len(),
            hay@.len() == hay.len(),
            last_start == hay@.len() - needle@.len(),
            i <= last_start + 1,
            forall|k: int| 0 <= k < i ==> !spec_has_sub_at(hay@, needle@, k),
        decreases last_start - i + 1,
    {
        let mut j: usize = 0;
        let mut mismatch = false;
        while j < needle.len()
            invariant
                needle@.len() <= hay@.len(),
                hay@.len() == hay.len(),
                i + needle@.len() <= hay@.len(),
                j <= needle@.len(),
                !mismatch ==> forall|t: int| 0 <= t < j ==> hay@[i + t] == needle@[t],
                mismatch ==> !spec_has_sub_at(hay@, needle@, i as int),
            decreases needle@.len() - j,
        {
            if hay[i + j] != needle[j] {
                proof {
                    assert(hay@.subrange(i as int, i + needle@.len() as int) != needle@) by {
                        assert(hay@.subrange(i as int, i + needle@.len() as int)[j as int]
                            == hay@[i + j]);
                    }
                }
                mismatch = true;
                j = needle.len();
            } else {
                j = j + 1;
            }
        }
        if !mismatch {
            proof {
                assert(hay@.subrange(i as int, i + needle@.len() as int) =~= needle@);
                assert(spec_has_sub_at(hay@, needle@, i as int));
            }
            return true;
        }
        i = i + 1;
    }
    proof {
        assert(forall|k: int| !spec_has_sub_at(hay@, needle@, k)) by {
            assert(forall|k: int| k > last_start ==> !spec_has_sub_at(hay@, needle@, k));
        }
    }
    false
}

// ---------------------------------------------------------------------------
// Decimal rendering of integers
// ---------------------------------------------------------------------------

/// The decimal digit character for `d`, which must lie in `0 ..= 9`.
pub open spec fn spec_digit(d: int) -> char {
    if d == 0 {
        '0'
    } else if d == 1 {
        '1'
    } else if d == 2 {
        '2'
    } else if d == 3 {
        '3'
    } else if d == 4 {
        '4'
    } else if d == 5 {
        '5'
    } else if d == 6 {
        '6'
    } else if d == 7 {
        '7'
    } else if d == 8 {
        '8'
    } else {
        '9'
    }
}

/// The usual decimal rendering of a natural number, most significant digit first.
pub open spec fn spec_u64_digits(n: nat) -> Seq<char>
    decreases n,
{
    if n < 10 {
        seq![spec_digit(n as int)]
    } else {
        spec_u64_digits(n / 10).push(spec_digit((n % 10) as int))
    }
}

/// The decimal rendering of an integer: a minus sign for negatives, then the digits.
pub open spec fn spec_i64_text(n: int) -> Seq<char> {
    if n >= 0 {
        spec_u64_digits(n as nat)
    } else {
        seq!['-'] + spec_u64_digits((-n) as nat)
    }
}

fn digit_char(d: u64) -> (c: char)
    requires
        d < 10,
    ensures
        c == spec_digit(d as int),
{
    if d == 0 {
        '0'
    } else if d == 1 {
        '1'
    } else if d == 2 {
        '2'
    } else if d == 3 {
        '3'
    } else if d == 4 {
        '4'
    } else if d == 5 {
        '5'
    } else if d == 6 {
        '6'
    } else if d == 7 {
        '7'
    } else if d == 8 {
        '8'
    } else {
        '9'
    }
}

/// Decimal digits of `n`, most significant first.
pub fn u64_chars(n: u64) -> (v: Vec<char>)
    ensures
        v@ == spec_u64_digits(n as nat),
    decreases n,
{
    if n < 10 {
        let mut v: Vec<char> = Vec::new();
        v.push(digit_char(n));
        proof {
            assert(v@ =~= seq![spec_digit(n as int)]);
        }
        v
    } else {
        let mut v = u64_chars(n / 10);
        v.push(digit_char(n % 10));
        proof {
            assert((n / 10) as nat == (n as nat) / 10);
            assert((n % 10) as nat == (n as nat) % 10);
        }
        v
    }
}

/// Decimal rendering of a signed integer.
pub fn i64_chars(n: i64) -> (v: Vec<char>)
    ensures
        v@ == spec_i64_text(n as int),
{
    if n >= 0 {
        u64_chars(n as u64)
    } else {
        let pos: u64 = ((-(n + 1)) as u64) + 1;
        let digits = u64_chars(pos);
        let mut v: Vec<char> = Vec::new();
        v.push('-');
        append_chars(&mut v, &digits);
        proof {
            assert(v@ =~= seq!['-'] + digits@);
        }
        v
    }
}

// ---------------------------------------------------------------------------
// Whitespace and trimming
// ---------------------------------------------------------------------------

/// The characters with the Unicode `White_Space` property, the set that
/// `str::trim` removes.
pub open spec fn spec_is_ws(c: char) -> bool {
    ||| c == ' '
    ||| ('\u{09}' <= c && c <= '\u{0d}')
    ||| c == '\u{85}'
    ||| c == '\u{a0}'
    ||| c == '\u{1680}'
    ||| ('\u{2000}' <= c && c <= '\u{200a}')
    ||| c == '\u{2028}'
    ||| c == '\u{2029}'
    ||| c == '\u{202f}'
    ||| c == '\u{205f}'
    ||| c == '\u{3000}'
}

fn is_ws(c: char) -> (r: bool)
    ensures
        r == spec_is_ws(c),
{
    c == ' ' || ('\u{09}' <= c && c <= '\u{0d}') || c == '\u{85}' || c == '\u{a0}' || c
        == '\u{1680}' || ('\u{2000}' <= c && c <= '\u{200a}') || c == '\u{2028}' || c == '\u{2029}'
        || c == '\u{202f}' || c == '\u{205f}' || c == '\u{3000}'
}

pub open spec fn spec_trim_left(s: Seq<char>) -> Seq<char>
    decreases s.len(),
{
    if s.len() > 0 && spec_is_ws(s[0]) {
        spec_trim_left(s.drop_first())
    } else {
        s
    }
}

pub open spec fn spec_trim_right(s: Seq<char>) -> Seq<char>
    decreases s.len(),
{
    if s.len() > 0 && spec_is_ws(s.last()) {
        spec_trim_right(s.drop_last())
    } else {
        s
    }
}

/// What `str::trim` leaves: the text without leading and trailing whitespace.
pub open spec fn spec_trim(s: Seq<char>) -> Seq<char> {
    spec_trim_right(spec_trim_left(s))
}

/// Remove leading and trailing whitespace characters.
pub fn trim_chars(v: &Vec<char>) -> (r: Vec<char>)
    ensures
        r@ == spec_trim(v@),
{
    proof {
        assert(v@.skip(0) =~= v@);
    }
    let mut start: usize = 0;
    while start < v.len() && is_ws(v[start])
        invariant
            start <= v@.len(),
            spec_trim_left(v@) == spec_trim_left(v@.skip(start as int)),
        decreases v@.len() - start,
    {
        proof {
            assert(v@.skip(start as int).drop_first() =~= v@.skip(start as int + 1));
        }
        start = start + 1;
    }
    proof {
        assert(spec_trim_left(v@) == v@.skip(start as int));
    }
    proof {
        assert(v@.skip(start as int) =~= v@.subrange(start as int, v@.len() as int));
    }
    let mut end: usize = v.len();
    while end > start && is_ws(v[end - 1])
        invariant
            start <= end <= v@.len(),
            spec_trim_right(v@.skip(start as int)) == spec_trim_right(
                v@.subrange(start as int, end as int),
            ),
        decreases end,
    {
        proof {
            let cur = v@.subrange(start as int, end as int);
            assert(cur.last() == v@[end - 1]);
            assert(cur.drop_last() =~= v@.subrange(start as int, end as int - 1));
        }
        end = end - 1;
    }
    proof {
        let cur = v@.subrange(start as int, end as int);
        if cur.len() > 0 {
            assert(cur.last() == v@[end - 1]);
        }
        assert(spec_trim_right(cur) == cur);
    }
    let mut r: Vec<char> = Vec::new();
    let mut i: usize = start;
    while i < end
        invariant
            start <= i <= end <= v@.len(),
            r@ == v@.subrange(start as int, i as int),
        decreases end - i,
    {
        r.push(v[i]);
        i = i + 1;
        proof {
            assert(r@ =~= v@.subrange(start as int, i as int));
        }
    }
    r
}

// ---------------------------------------------------------------------------
// ASCII lowercasing
// ---------------------------------------------------------------------------

/// Lowercase an ASCII letter; leave every other character alone.
pub open spec fn spec_lower_char(c: char) -> char {
    if 'A' <= c && c <= 'Z' {
        (((c as u8) + 32) as char)
    } else {
        c
    }
}

/// Characterwise ASCII lowercasing.
pub open spec fn spec_lower(s: Seq<char>) -> Seq<char> {
    s.map_values(|c: char| spec_lower_char(c))
}

/// Lowercase the ASCII letters of a character vector.
pub fn lower_chars(v: &Vec<char>) -> (r: Vec<char>)
    ensures
        r@ == spec_lower(v@),
{
    let mut r: Vec<char> = Vec::new();
    let mut i: usize = 0;
    while i < v.len()
        invariant
            i <= v@.len(),
            r@ == spec_lower(v@.take(i as int)),
        decreases v@.len() - i,
    {
        let c = v[i];
        let lc: char = if 'A' <= c && c <= 'Z' {
            ((c as u8) + 32) as char
        } else {
            c
        };
        r.push(lc);
        i = i + 1;
        proof {
            assert(r@ =~= spec_lower(v@.take(i as int)));
        }
    }
    proof {
        assert(v@.take(v@.len() as int) =~= v@);
    }
    r
}

// ---------------------------------------------------------------------------
// Re-indentation of embedded newlines
// ---------------------------------------------------------------------------

/// What one character contributes to `spec_reindent`: a newline gains a tab.
pub open spec fn spec_reindent_char(c: char) -> Seq<char> {
    if c == '\n' {
        seq!['\n', '\t']
    } else {
        seq![c]
    }
}

/// The text with every newline replaced by a newline plus a tab, so that a
/// multi-line block stays indented under its first line.
pub open spec fn spec_reindent(s: Seq<char>) -> Seq<char>
    decreases s.len(),
{
    if s.len() == 0 {
        Seq::empty()
    } else {
        spec_reindent_char(s[0]) + spec_reindent(s.drop_first())
    }
}

proof fn lemma_reindent_push(s: Seq<char>, c: char)
    ensures
        spec_reindent(s.push(c)) == spec_reindent(s) + spec_reindent_char(c),
    decreases s.len(),
{
    if s.len() == 0 {
        assert(s =~= Seq::<char>::empty());
        assert(s.push(c).drop_first() =~= Seq::<char>::empty());
        assert(s.push(c)[0] == c);
        assert(spec_reindent(s.push(c)) == spec_reindent_char(c) + spec_reindent(
            s.push(c).drop_first(),
        ));
        assert(spec_reindent_char(c) + Seq::<char>::empty() =~= spec_reindent_char(c));
        assert(Seq::<char>::empty() + spec_reindent_char(c) =~= spec_reindent_char(c));
        assert(spec_reindent(s.push(c)) == spec_reindent(s) + spec_reindent_char(c));
    } else {
        assert(s.push(c).drop_first() =~= s.drop_first().push(c));
        lemma_reindent_push(s.drop_first(), c);
        assert(s.push(c)[0] == s[0]);
        assert(spec_reindent(s.push(c)) == spec_reindent_char(s[0]) + spec_reindent(
            s.drop_first().push(c),
        ));
        assert(spec_reindent(s) == spec_reindent_char(s[0]) + spec_reindent(s.drop_first()));
        assert(spec_reindent_char(s[0]) + (spec_reindent(s.drop_first()) + spec_reindent_char(c))
            =~= (spec_reindent_char(s[0]) + spec_reindent(s.drop_first())) + spec_reindent_char(c));
        assert(spec_reindent(s.push(c)) == spec_reindent(s) + spec_reindent_char(c));
    }
}

/// Replace every newline with a newline followed by a tab.
pub fn reindent_chars(v: &Vec<char>) -> (r: Vec<char>)
    ensures
        r@ == spec_reindent(v@),
{
    let mut r: Vec<char> = Vec::new();
    let mut i: usize = 0;
    while i < v.len()
        invariant
            i <= v@.len(),
            r@ == spec_reindent(v@.take(i as int)),
        decreases v@.len() - i,
    {
        let c = v[i];
        r.push(c);
        if c == '\n' {
            r.push('\t');
        }
        i = i + 1;
        proof {
            assert(v@.take(i as int) =~= v@.take(i as int - 1).push(v@[i as int - 1]));
            lemma_reindent_push(v@.take(i as int - 1), v@[i as int - 1]);
            assert(r@ =~= spec_reindent(v@.take(i as int - 1)) + spec_reindent_char(
                v@[i as int - 1],
            ));
        }
    }
    proof {
        assert(v@.take(v@.len() as int) =~= v@);
    }
    r
}

// ---------------------------------------------------------------------------
// Joining pieces with a separator
// ---------------------------------------------------------------------------

/// `parts` joined by `sep`: empty for no parts, and no separator after the last part.
pub open spec fn spec_join(parts: Seq<Seq<char>>, sep: Seq<char>) -> Seq<char>
    decreases parts.len(),
{
    if parts.len() == 0 {
        Seq::empty()
    } else if parts.len() == 1 {
        parts[0]
    } else {
        parts[0] + sep + spec_join(parts.drop_first(), sep)
    }
}

proof fn lemma_join_take(parts: Seq<Seq<char>>, sep: Seq<char>, i: int)
    requires
        0 < i <= parts.len(),
    ensures
        spec_join(parts.take(i), sep) == if i == 1 {
            parts[0]
        } else {
            spec_join(parts.take(i - 1), sep) + sep + parts[i - 1]
        },
    decreases i,
{
    if i == 1 {
        assert(parts.take(1).len() == 1);
        assert(parts.take(1)[0] == parts[0]);
    } else {
        lemma_join_take(parts.drop_first(), sep, i - 1);
        assert(parts.take(i).drop_first() =~= parts.drop_first().take(i - 1));
        assert(parts.take(i)[0] == parts[0]);
        assert(parts.take(i - 1).drop_first() =~= parts.drop_first().take(i - 2));
        assert(parts.take(i - 1)[0] == parts[0]);
        assert(parts.drop_first()[i - 2] == parts[i - 1]);
        if i - 1 == 1 {
            assert(parts.take(i - 1).len() == 1);
            assert(spec_join(parts.take(i - 1), sep) == parts[0]);
            assert(spec_join(parts.take(i), sep) == parts[0] + sep + spec_join(
                parts.drop_first().take(i - 1),
                sep,
            ));
            assert(parts.drop_first().take(1)[0] == parts[1]);
            assert(spec_join(parts.drop_first().take(i - 1), sep) == parts[1]);
        } else {
            assert(spec_join(parts.take(i), sep) == parts[0] + sep + spec_join(
                parts.drop_first().take(i - 1),
                sep,
            ));
            assert(spec_join(parts.take(i - 1), sep) == parts[0] + sep + spec_join(
                parts.drop_first().take(i - 2),
                sep,
            ));
        }
        assert(spec_join(parts.take(i), sep) =~= spec_join(parts.take(i - 1), sep) + sep + parts[i
            - 1]);
    }
}

/// Join character vectors with a separator.
pub fn join_chars(parts: &Vec<Vec<char>>, sep: &str) -> (out: Vec<char>)
    ensures
        out@ == spec_join(parts@.map_values(|p: Vec<char>| p@), sep@),
{
    let ghost viewed = parts@.map_values(|p: Vec<char>| p@);
    let mut out: Vec<char> = Vec::new();
    proof {
        assert(viewed.take(0) =~= Seq::<Seq<char>>::empty());
    }
    let mut i: usize = 0;
    while i < parts.len()
        invariant
            viewed == parts@.map_values(|p: Vec<char>| p@),
            i <= parts@.len(),
            out@ == spec_join(viewed.take(i as int), sep@),
        decreases parts@.len() - i,
    {
        if i > 0 {
            append_str(&mut out, sep);
        }
        append_chars(&mut out, &parts[i]);
        i = i + 1;
        proof {
            lemma_join_take(viewed, sep@, i as int);
            assert(viewed[i as int - 1] == parts@[i as int - 1]@);
            assert(out@ =~= spec_join(viewed.take(i as int), sep@));
        }
    }
    proof {
        assert(viewed.take(viewed.len() as int) =~= viewed);
    }
    out
}

} // verus!
