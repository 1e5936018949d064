//! Character-level text utilities with their mathematical meaning.
//!
//! Strings are viewed as sequences of Unicode scalar values (`Seq<char>`).
use vstd::prelude::*;

verus! {

// ---------------------------------------------------------------------------
// Character classes
// ---------------------------------------------------------------------------

/// Unicode `White_Space` property, the set that `char::is_whitespace` tests.
pub open spec fn is_ws(c: char) -> bool {
    ||| ('\u{9}' <= c && c <= '\u{d}')
    ||| c == ' '
    ||| c == '\u{85}'
    ||| c == '\u{a0}'
    ||| c == '\u{1680}'
    ||| ('\u{2000}' <= c && c <= '\u{200a}')
    ||| c == '\u{2028}'
    ||| c == '\u{2029}'
    ||| c == '\u{202f}'
    ||| c == '\u{205f}'
    ||| c == '\u{3000}'
}

pub fn is_whitespace(c: char) -> (r: bool)
    ensures
        r == is_ws(c),
{
    ('\u{9}' <= c && c <= '\u{d}') || c == ' ' || c == '\u{85}' || c == '\u{a0}' || c
        == '\u{1680}' || ('\u{2000}' <= c && c <= '\u{200a}') || c == '\u{2028}' || c
        == '\u{2029}' || c == '\u{202f}' || c == '\u{205f}' || c == '\u{3000}'
}

/// Unicode general category `Cc`, the set that `char::is_control` tests.
pub open spec fn is_ctrl(c: char) -> bool {
    c <= '\u{1f}' || ('\u{7f}' <= c && c <= '\u{9f}')
}

pub fn is_control(c: char) -> (r: bool)
    ensures
        r == is_ctrl(c),
{
    c <= '\u{1f}' || ('\u{7f}' <= c && c <= '\u{9f}')
}

pub open spec fn is_ascii_alnum(c: char) -> bool {
    ||| ('0' <= c && c <= '9')
    ||| ('a' <= c && c <= 'z')
    ||| ('A' <= c && c <= 'Z')
}

pub fn is_ascii_alphanumeric(c: char) -> (r: bool)
    ensures
        r == is_ascii_alnum(c),
{
    ('0' <= c && c <= '9') || ('a' <= c && c <= 'z') || ('A' <= c && c <= 'Z')
}

/// `char::to_ascii_lowercase`: ASCII capitals map to small letters, all else is kept.
pub open spec fn ascii_lower_char(c: char) -> char {
    if 'A' <= c && c <= 'Z' {
        ((c as u32) + 32) as char
    } else {
        c
    }
}

pub fn to_ascii_lowercase_char(c: char) -> (r: char)
    ensures
        r == ascii_lower_char(c),
{
    if 'A' <= c && c <= 'Z' {
        let b: u8 = c as u8;
        assert(b == c as u32);
        ((b + 32) as char)
    } else {
        c
    }
}

pub open spec fn ascii_lower(s: Seq<char>) -> Seq<char> {
    s.map_values(|c: char| ascii_lower_char(c))
}

// ---------------------------------------------------------------------------
// Conversions between `str`/`String` and `Vec<char>`
// ---------------------------------------------------------------------------

/// The characters of `s`, in order.
pub fn chars_of(s: &str) -> (out: Vec<char>)
    ensures
        out@ == s@,
{
    let mut out: Vec<char> = Vec::new();
    for c in it: s.chars()
        invariant
            out@ == it.seq().take(it.index() as int),
            it.seq() == s@,
    {
        out.push(c);
    }
    out
}

/// `String::push`.
#[verifier::external_body]
fn push_char(s: &mut String, c: char)
    ensures
        final(s)@ == old(s)@.push(c),
{
    s.push(c);
}

/// A string holding exactly the characters of `chars`.
pub fn string_from(chars: &Vec<char>) -> (out: String)
    ensures
        out@ == chars@,
{
    let mut out = String::new();
    let mut i: usize = 0;
    while i < chars.len()
        invariant
            i <= chars.len(),
            out@ == chars@.take(i as int),
        decreases chars.len() - i,
    {
        push_char(&mut out, chars[i]);
        i = i + 1;
        assert(chars@.take(i as int) == chars@.take(i - 1).push(chars@[i - 1]));
    }
    assert(chars@.take(chars.len() as int) == chars@);
    out
}

/// A copy of `s`.
pub fn copy_str(s: &str) -> (out: String)
    ensures
        out@ == s@,
{
    let v = chars_of(s);
    string_from(&v)
}

/// `a` followed by `b`.
pub fn concat(a: &str, b: &str) -> (out: String)
    ensures
        out@ == a@ + b@,
{
    let mut v = chars_of(a);
    let w = chars_of(b);
    let mut i: usize = 0;
    let ghost start = v@;
    while i < w.len()
        invariant
            i <= w.len(),
            v@ == start + w@.take(i as int),
        decreases w.len() - i,
    {
        v.push(w[i]);
        i = i + 1;
        assert(w@.take(i as int) == w@.take(i - 1).push(w@[i - 1]));
    }
    assert(w@.take(w.len() as int) == w@);
    string_from(&v)
}

/// Appends the characters of `b` to `v`.
pub fn append_chars(v: &mut Vec<char>, b: &Vec<char>)
    ensures
        final(v)@ == old(v)@ + b@,
{
    let mut i: usize = 0;
    let ghost start = v@;
    while i < b.len()
        invariant
            i <= b.len(),
            v@ == start + b@.take(i as int),
        decreases b.len() - i,
    {
        v.push(b[i]);
        i = i + 1;
        assert(b@.take(i as int) == b@.take(i - 1).push(b@[i - 1]));
    }
    assert(b@.take(b.len() as int) == b@);
}

/// Whether two strings hold the same characters.
pub fn str_eq(a: &str, b: &str) -> (r: bool)
    ensures
        r == (a@ == b@),
{
    let x = chars_of(a);
    let y = chars_of(b);
    seq_eq(&x, &y)
}

pub fn seq_eq(x: &Vec<char>, y: &Vec<char>) -> (r: bool)
    ensures
        r == (x@ == y@),
{
    if x.len() != y.len() {
        return false;
    }
    let mut i: usize = 0;
    while i < x.len()
        invariant
            i <= x.len(),
            x.len() == y.len(),
            forall|j: int| 0 <= j < i ==> x@[j] == y@[j],
        decreases x.len() - i,
    {
        if x[i] != y[i] {
            return false;
        }
        i = i + 1;
    }
    assert(x@ =~= y@);
    true
}

// ---------------------------------------------------------------------------
// Lowercasing
// ---------------------------------------------------------------------------

/// The result of `str::to_lowercase` on a string with the characters `s`
/// (Unicode full lowercase mapping, including the final-sigma rule).
pub uninterp spec fn unicode_lowercase(s: Seq<char>) -> Seq<char>;

/// `str::to_lowercase`: its result is named by `unicode_lowercase`.
#[verifier::external_body]
pub(crate) fn to_lowercase(s: &str) -> (r: String)
    ensures
        r@ == unicode_lowercase(s@),
{
    s.to_lowercase()
}

pub fn ascii_lowercase(v: &Vec<char>) -> (out: Vec<char>)
    ensures
        out@ == ascii_lower(v@),
{
    let mut out: Vec<char> = Vec::new();
    let mut i: usize = 0;
    while i < v.len()
        invariant
            i <= v.len(),
            out@ == ascii_lower(v@.take(i as int)),
        decreases v.len() - i,
    {
        out.push(to_ascii_lowercase_char(v[i]));
        i = i + 1;
        assert(ascii_lower(v@.take(i as int)) =~= ascii_lower(v@.take(i - 1)).push(
            ascii_lower_char(v@[i - 1]),
        ));
    }
    assert(v@.take(v.len() as int) == v@);
    out
}

// ---------------------------------------------------------------------------
// Trimming
// ---------------------------------------------------------------------------

/// Sets of characters that trimming removes.
#[derive(Clone, Copy, Debug, PartialEq, Eq, Structural)]
pub enum TrimClass {
    /// `char::is_whitespace`, as `str::trim` uses.
    Whitespace,
    /// Whitespace and the punctuation `- | [ ] ( )` that wraps release metadata.
    MetadataPunct,
}

pub open spec fn in_class(c: char, class: TrimClass) -> bool {
    match class {
        TrimClass::Whitespace => is_ws(c),
        TrimClass::MetadataPunct => is_ws(c) || c == '-' || c == '|' || c == '[' || c == ']'
            || c == '(' || c == ')',
    }
}

pub fn in_class_exec(c: char, class: TrimClass) -> (r: bool)
    ensures
        r == in_class(c, class),
{
    match class {
        TrimClass::Whitespace => is_whitespace(c),
        TrimClass::MetadataPunct => is_whitespace(c) || c == '-' || c == '|' || c == '[' || c
            == ']' || c == '(' || c == ')',
    }
}

pub open spec fn trim_start_by(s: Seq<char>, class: TrimClass) -> Seq<char>
    decreases s.len(),
{
    if s.len() > 0 && in_class(s[0], class) {
        trim_start_by(s.drop_first(), class)
    } else {
        s
    }
}

pub open spec fn trim_end_by(s: Seq<char>, class: TrimClass) -> Seq<char>
    decreases s.len(),
{
    if s.len() > 0 && in_class(s.last(), class) {
        trim_end_by(s.drop_last(), class)
    } else {
        s
    }
}

/// `str::trim_matches` with the characters of `class`.
pub open spec fn trim_by(s: Seq<char>, class: TrimClass) -> Seq<char> {
    trim_end_by(trim_start_by(s, class), class)
}

/// `str::trim`: leading and trailing whitespace removed.
pub open spec fn trim(s: Seq<char>) -> Seq<char> {
    trim_by(s, TrimClass::Whitespace)
}

/// The trimmed text is empty exactly when every character is whitespace.
pub proof fn lemma_trim_empty_iff_all_ws(s: Seq<char>)
    ensures
        (trim(s).len() == 0) <==> (forall|i: int| 0 <= i < s.len() ==> is_ws(#[trigger] s[i])),
    decreases s.len(),
{
    let class = TrimClass::Whitespace;
    lemma_trim_start_shape(s, class);
    let t = trim_start_by(s, class);
    lemma_trim_end_shape(t, class);
    if s.len() > 0 && is_ws(s[0]) {
        lemma_trim_empty_iff_all_ws(s.drop_first());
        assert(trim(s) == trim(s.drop_first()));
        if forall|i: int| 0 <= i < s.drop_first().len() ==> is_ws(#[trigger] s.drop_first()[i]) {
            assert forall|i: int| 0 <= i < s.len() implies is_ws(#[trigger] s[i]) by {
                if i > 0 {
                    assert(s[i] == s.drop_first()[i - 1]);
                }
            }
        }
        if forall|i: int| 0 <= i < s.len() ==> is_ws(#[trigger] s[i]) {
            assert forall|i: int| 0 <= i < s.drop_first().len() implies is_ws(
                #[trigger] s.drop_first()[i],
            ) by {
                assert(s.drop_first()[i] == s[i + 1]);
            }
        }
    } else if s.len() > 0 {
        assert(t == s);
        lemma_trim_end_keeps_first(s, class);
    }
}

pub proof fn lemma_trim_start_shape(s: Seq<char>, class: TrimClass)
    ensures
        trim_start_by(s, class).len() <= s.len(),
        trim_start_by(s, class) == s.subrange(
            s.len() - trim_start_by(s, class).len(),
            s.len() as int,
        ),
        trim_start_by(s, class).len() > 0 ==> !in_class(trim_start_by(s, class)[0], class),
    decreases s.len(),
{
    if s.len() > 0 && in_class(s[0], class) {
        lemma_trim_start_shape(s.drop_first(), class);
        assert(s.drop_first().subrange(
            s.drop_first().len() - trim_start_by(s, class).len(),
            s.drop_first().len() as int,
        ) =~= s.subrange(s.len() - trim_start_by(s, class).len(), s.len() as int));
    } else {
        assert(s.subrange(0, s.len() as int) =~= s);
    }
}

pub proof fn lemma_trim_end_shape(s: Seq<char>, class: TrimClass)
    ensures
        trim_end_by(s, class).len() <= s.len(),
        trim_end_by(s, class) == s.subrange(0, trim_end_by(s, class).len() as int),
        trim_end_by(s, class).len() > 0 ==> !in_class(trim_end_by(s, class).last(), class),
    decreases s.len(),
{
    if s.len() > 0 && in_class(s.last(), class) {
        lemma_trim_end_shape(s.drop_last(), class);
        assert(s.drop_last().subrange(0, trim_end_by(s, class).len() as int) =~= s.subrange(
            0,
            trim_end_by(s, class).len() as int,
        ));
    } else {
        assert(s.subrange(0, s.len() as int) =~= s);
    }
}

/// Trimming twice is trimming once.
pub proof fn lemma_trim_idempotent(s: Seq<char>)
    ensures
        trim(trim(s)) == trim(s),
{
    let class = TrimClass::Whitespace;
    let x = trim_start_by(s, class);
    lemma_trim_start_shape(s, class);
    lemma_trim_end_shape(x, class);
    let y = trim_end_by(x, class);
    if y.len() > 0 {
        assert(y[0] == x[0]);
        assert(trim_start_by(y, class) == y);
        assert(trim_end_by(y, class) == y);
    } else {
        assert(trim_start_by(y, class) == y);
    }
}

proof fn lemma_trim_end_keeps_first(s: Seq<char>, class: TrimClass)
    requires
        s.len() > 0,
        !in_class(s[0], class),
    ensures
        trim_end_by(s, class).len() > 0,
    decreases s.len(),
{
    if in_class(s.last(), class) {
        assert(s.len() > 1);
        lemma_trim_end_keeps_first(s.drop_last(), class);
    }
}

/// Index of the first character outside `class` (or the length).
pub(crate) fn trim_start_index(v: &Vec<char>, class: TrimClass) -> (lo: usize)
    ensures
        lo <= v.len(),
        trim_start_by(v@, class) == v@.subrange(lo as int, v.len() as int),
{
    let mut lo: usize = 0;
    assert(v@.subrange(0, v.len() as int) =~= v@);
    while lo < v.len() && in_class_exec(v[lo], class)
        invariant
            lo <= v.len(),
            trim_start_by(v@, class) == trim_start_by(v@.subrange(lo as int, v.len() as int), class),
        decreases v.len() - lo,
    {
        assert(v@.subrange(lo as int, v.len() as int).drop_first() =~= v@.subrange(
            lo + 1,
            v.len() as int,
        ));
        lo = lo + 1;
    }
    lo
}

/// `str::trim_matches` on characters, removing the characters of `class`.
pub fn trim_chars_by(v: &Vec<char>, class: TrimClass) -> (out: Vec<char>)
    ensures
        out@ == trim_by(v@, class),
{
    let lo = trim_start_index(v, class);
    let mut hi: usize = v.len();
    let ghost t = v@.subrange(lo as int, v.len() as int);
    assert(t.subrange(0, t.len() as int) =~= t);
    while hi > lo && in_class_exec(v[hi - 1], class)
        invariant
            lo <= hi <= v.len(),
            t == v@.subrange(lo as int, v.len() as int),
            trim_end_by(t, class) == trim_end_by(v@.subrange(lo as int, hi as int), class),
        decreases hi,
    {
        assert(v@.subrange(lo as int, hi as int).drop_last() =~= v@.subrange(
            lo as int,
            hi - 1,
        ));
        hi = hi - 1;
    }
    slice_chars(v, lo, hi)
}

/// `str::trim` on characters.
pub fn trim_chars(v: &Vec<char>) -> (out: Vec<char>)
    ensures
        out@ == trim(v@),
{
    trim_chars_by(v, TrimClass::Whitespace)
}

/// `str::trim` on a string.
pub fn trim_str(s: &str) -> (out: String)
    ensures
        out@ == trim(s@),
{
    let v = chars_of(s);
    let t = trim_chars(&v);
    string_from(&t)
}

/// Whether the trimmed text is empty (`s.trim().is_empty()`).
pub fn is_blank(s: &str) -> (r: bool)
    ensures
        r == (trim(s@).len() == 0),
{
    let v = chars_of(s);
    let t = trim_chars(&v);
    t.len() == 0
}

// ---------------------------------------------------------------------------
// Searching
// ---------------------------------------------------------------------------

/// `needle` occurs in `hay` starting at index `i`.
pub open spec fn occurs_at(hay: Seq<char>, needle: Seq<char>, i: int) -> bool {
    0 <= i && i + needle.len() <= hay.len() && hay.subrange(i, i + needle.len()) == needle
}

/// First index at or after `start` where `needle` occurs (`str::find` from `start`).
pub open spec fn find_from(hay: Seq<char>, needle: Seq<char>, start: int) -> Option<int>
    decreases hay.len() + 1 - start,
{
    if start < 0 || start + needle.len() > hay.len() {
        None
    } else if occurs_at(hay, needle, start) {
        Some(start)
    } else {
        find_from(hay, needle, start + 1)
    }
}

/// `str::find`.
pub open spec fn find(hay: Seq<char>, needle: Seq<char>) -> Option<int> {
    find_from(hay, needle, 0)
}

/// `str::contains`.
pub open spec fn contains(hay: Seq<char>, needle: Seq<char>) -> bool {
    find(hay, needle) is Some
}

pub open spec fn starts_with(s: Seq<char>, prefix: Seq<char>) -> bool {
    prefix.len() <= s.len() && s.subrange(0, prefix.len() as int) == prefix
}

pub open spec fn ends_with(s: Seq<char>, suffix: Seq<char>) -> bool {
    suffix.len() <= s.len() && s.subrange(s.len() - suffix.len(), s.len() as int) == suffix
}

/// A found index is an occurrence, and no earlier occurrence exists.
pub proof fn lemma_find_from_spec(hay: Seq<char>, needle: Seq<char>, start: int)
    requires
        0 <= start,
    ensures
        find_from(hay, needle, start) matches Some(i) ==> start <= i && occurs_at(hay, needle, i)
            && forall|j: int| start <= j < i ==> !occurs_at(hay, needle, j),
        find_from(hay, needle, start) is None ==> forall|j: int|
            start <= j ==> !occurs_at(hay, needle, j),
    decreases hay.len() + 1 - start,
{
    if start + needle.len() > hay.len() {
    } else if occurs_at(hay, needle, start) {
    } else {
        lemma_find_from_spec(hay, needle, start + 1);
    }
}

/// Whether `needle` occurs in `hay` at index `i`.
pub fn occurs_at_exec(hay: &Vec<char>, needle: &Vec<char>, i: usize) -> (r: bool)
    ensures
        r == occurs_at(hay@, needle@, i as int),
{
    if needle.len() > hay.len() || i > hay.len() - needle.len() {
        return false;
    }
    let mut k: usize = 0;
    while k < needle.len()
        invariant
            k <= needle.len(),
            i + needle.len() <= hay.len(),
            forall|j: int| 0 <= j < k ==> hay@[i + j] == needle@[j],
        decreases needle.len() - k,
    {
        if hay[i + k] != needle[k] {
            assert(hay@.subrange(i as int, i + needle.len())[k as int] != needle@[k as int]);
            return false;
        }
        k = k + 1;
    }
    assert(hay@.subrange(i as int, i + needle.len()) =~= needle@);
    true
}

/// `str::find` on characters.
pub fn find_chars(hay: &Vec<char>, needle: &Vec<char>) -> (r: Option<usize>)
    ensures
        r matches Some(i) ==> find(hay@, needle@) == Some(i as int) && occurs_at(
            hay@,
            needle@,
            i as int,
        ),
        r is None ==> find(hay@, needle@) is None,
{
    if needle.len() > hay.len() {
        return None;
    }
    let last = hay.len() - needle.len();
    let mut i: usize = 0;
    loop
        invariant
            last == hay.len() - needle.len(),
            i <= last,
            find(hay@, needle@) == find_from(hay@, needle@, i as int),
        decreases last - i,
    {
        if occurs_at_exec(hay, needle, i) {
            return Some(i);
        }
        if i == last {
            assert(find_from(hay@, needle@, i + 1) is None);
            return None;
        }
        i = i + 1;
    }
}

/// `str::contains` on characters.
pub fn contains_chars(hay: &Vec<char>, needle: &Vec<char>) -> (r: bool)
    ensures
        r == contains(hay@, needle@),
{
    find_chars(hay, needle).is_some()
}

/// `str::contains` on strings.
pub fn str_contains(hay: &str, needle: &str) -> (r: bool)
    ensures
        r == contains(hay@, needle@),
{
    let h = chars_of(hay);
    let n = chars_of(needle);
    contains_chars(&h, &n)
}

pub fn starts_with_chars(s: &Vec<char>, prefix: &Vec<char>) -> (r: bool)
    ensures
        r == starts_with(s@, prefix@),
{
    occurs_at_exec(s, prefix, 0)
}

pub fn ends_with_chars(s: &Vec<char>, suffix: &Vec<char>) -> (r: bool)
    ensures
        r == ends_with(s@, suffix@),
{
    if suffix.len() > s.len() {
        return false;
    }
    occurs_at_exec(s, suffix, s.len() - suffix.len())
}

/// `str::ends_with` on strings.
pub fn str_ends_with(s: &str, suffix: &str) -> (r: bool)
    ensures
        r == ends_with(s@, suffix@),
{
    let a = chars_of(s);
    let b = chars_of(suffix);
    ends_with_chars(&a, &b)
}

/// `str::starts_with` on strings.
pub fn str_starts_with(s: &str, prefix: &str) -> (r: bool)
    ensures
        r == starts_with(s@, prefix@),
{
    let a = chars_of(s);
    let b = chars_of(prefix);
    starts_with_chars(&a, &b)
}

/// The characters `v[from..to]`.
pub fn slice_chars(v: &Vec<char>, from: usize, to: usize) -> (out: Vec<char>)
    requires
        from <= to <= v.len(),
    ensures
        out@ == v@.subrange(from as int, to as int),
{
    let mut out: Vec<char> = Vec::new();
    let mut i: usize = from;
    while i < to
        invariant
            from <= i <= to,
            to <= v.len(),
            out@ == v@.subrange(from as int, i as int),
        decreases to - i,
    {
        out.push(v[i]);
        i = i + 1;
        assert(out@ =~= v@.subrange(from as int, i as int));
    }
    out
}

} // verus!

verus! {

/// The character view of an optional string.
pub open spec fn opt_view(o: Option<String>) -> Option<Seq<char>> {
    match o {
        Some(s) => Some(s@),
        None => None,
    }
}

/// The character views of a list of strings.
pub open spec fn views(v: Seq<String>) -> Seq<Seq<char>> {
    v.map_values(|s: String| s@)
}

/// A copy of an optional string.
pub fn copy_opt(o: &Option<String>) -> (r: Option<String>)
    ensures
        opt_view(r) == opt_view(*o),
{
    match o {
        Some(s) => Some(copy_str(s.as_str())),
        None => None,
    }
}

/// A copy of a list of strings.
pub fn copy_strings(v: &Vec<String>) -> (r: Vec<String>)
    ensures
        views(r@) == views(v@),
{
    let mut r: Vec<String> = Vec::new();
    let mut i: usize = 0;
    while i < v.len()
        invariant
            i <= v.len(),
            views(r@) == views(v@.take(i as int)),
        decreases v.len() - i,
    {
        r.push(copy_str(v[i].as_str()));
        i = i + 1;
        assert(views(v@.take(i as int)) =~= views(v@.take(i - 1)).push(v@[i - 1]@));
        assert(views(r@) =~= views(v@.take(i as int)));
    }
    assert(v@.take(v.len() as int) == v@);
    r
}

} // verus!

verus! {

// ---------------------------------------------------------------------------
// Splitting, joining and replacing
// ---------------------------------------------------------------------------

/// State of splitting on `sep` after reading `s`: finished pieces and the
/// piece in progress.
pub open spec fn split_state(s: Seq<char>, sep: char) -> (Seq<Seq<char>>, Seq<char>)
    decreases s.len(),
{
    if s.len() == 0 {
        (Seq::empty(), Seq::empty())
    } else {
        let prev = split_state(s.drop_last(), sep);
        if s.last() == sep {
            (prev.0.push(prev.1), Seq::empty())
        } else {
            (prev.0, prev.1.push(s.last()))
        }
    }
}

/// `str::split(sep)`: the pieces between separators, empty ones included.
pub open spec fn split(s: Seq<char>, sep: char) -> Seq<Seq<char>> {
    split_state(s, sep).0.push(split_state(s, sep).1)
}

/// `str::split` on characters.
pub fn split_chars(v: &Vec<char>, sep: char) -> (r: Vec<Vec<char>>)
    ensures
        r@.map_values(|p: Vec<char>| p@) == split(v@, sep),
{
    let mut done: Vec<Vec<char>> = Vec::new();
    let mut cur: Vec<char> = Vec::new();
    let mut i: usize = 0;
    while i < v.len()
        invariant
            i <= v.len(),
            done@.map_values(|p: Vec<char>| p@) == split_state(v@.take(i as int), sep).0,
            cur@ == split_state(v@.take(i as int), sep).1,
        decreases v.len() - i,
    {
        assert(v@.take(i + 1).drop_last() =~= v@.take(i as int));
        if v[i] == sep {
            let ghost old_done = done@;
            let piece = cur;
            cur = Vec::new();
            done.push(piece);
            assert(done@.map_values(|p: Vec<char>| p@) =~= old_done.map_values(
                |p: Vec<char>| p@,
            ).push(piece@));
        } else {
            cur.push(v[i]);
        }
        i = i + 1;
    }
    assert(v@.take(v.len() as int) =~= v@);
    let ghost old_done = done@;
    let last = cur;
    done.push(last);
    assert(done@.map_values(|p: Vec<char>| p@) =~= old_done.map_values(|p: Vec<char>| p@).push(
        last@,
    ));
    done
}

/// State of `split_whitespace` after reading `s`.
pub open spec fn word_state(s: Seq<char>) -> (Seq<Seq<char>>, Seq<char>)
    decreases s.len(),
{
    if s.len() == 0 {
        (Seq::empty(), Seq::empty())
    } else {
        let prev = word_state(s.drop_last());
        if is_ws(s.last()) {
            if prev.1.len() > 0 {
                (prev.0.push(prev.1), Seq::empty())
            } else {
                prev
            }
        } else {
            (prev.0, prev.1.push(s.last()))
        }
    }
}

/// `str::split_whitespace`: the maximal runs of non-whitespace characters.
pub open spec fn words(s: Seq<char>) -> Seq<Seq<char>> {
    let st = word_state(s);
    if st.1.len() > 0 {
        st.0.push(st.1)
    } else {
        st.0
    }
}

/// The pieces joined with `sep` between neighbours.
pub open spec fn join(pieces: Seq<Seq<char>>, sep: Seq<char>) -> Seq<char>
    decreases pieces.len(),
{
    if pieces.len() == 0 {
        Seq::empty()
    } else if pieces.len() == 1 {
        pieces[0]
    } else {
        join(pieces.drop_last(), sep) + sep + pieces.last()
    }
}

/// `split_whitespace().collect::<Vec<_>>().join(" ")`: runs of whitespace
/// collapsed to one space, none at either end.
pub fn collapse_whitespace(v: &Vec<char>) -> (r: Vec<char>)
    ensures
        r@ == join(words(v@), " "@),
{
    // words so far, joined
    let mut out: Vec<char> = Vec::new();
    let mut has_words = false;
    let mut cur: Vec<char> = Vec::new();
    let mut i: usize = 0;
    proof {
        reveal_strlit(" ");
    }
    while i < v.len()
        invariant
            i <= v.len(),
            out@ == join(word_state(v@.take(i as int)).0, " "@),
            has_words == (word_state(v@.take(i as int)).0.len() > 0),
            cur@ == word_state(v@.take(i as int)).1,
            " "@ == seq![' '],
        decreases v.len() - i,
    {
        assert(v@.take(i + 1).drop_last() =~= v@.take(i as int));
        let ghost done = word_state(v@.take(i as int)).0;
        if is_whitespace(v[i]) {
            if cur.len() > 0 {
                if has_words {
                    out.push(' ');
                }
                append_chars(&mut out, &cur);
                proof {
                    if done.len() > 0 {
                        assert(done.push(cur@).drop_last() =~= done);
                        assert(join(done.push(cur@), " "@) =~= join(done, " "@) + " "@ + cur@);
                    } else {
                        assert(join(done.push(cur@), " "@) =~= cur@);
                    }
                }
                cur = Vec::new();
                has_words = true;
            }
        } else {
            cur.push(v[i]);
        }
        i = i + 1;
    }
    assert(v@.take(v.len() as int) =~= v@);
    let ghost done = word_state(v@).0;
    if cur.len() > 0 {
        if has_words {
            out.push(' ');
        }
        append_chars(&mut out, &cur);
        proof {
            if done.len() > 0 {
                assert(done.push(cur@).drop_last() =~= done);
                assert(join(done.push(cur@), " "@) =~= join(done, " "@) + " "@ + cur@);
            } else {
                assert(join(done.push(cur@), " "@) =~= cur@);
            }
        }
    }
    out
}

/// `str::replace(pat, rep)`: every non-overlapping occurrence of `pat`, from
/// the left, replaced by `rep`.
pub open spec fn replace_all(s: Seq<char>, pat: Seq<char>, rep: Seq<char>) -> Seq<char>
    decreases s.len(),
{
    if pat.len() == 0 {
        s
    } else {
        match find(s, pat) {
            Some(i) => if 0 <= i && i + pat.len() <= s.len() {
                s.take(i) + rep + replace_all(s.skip(i + pat.len()), pat, rep)
            } else {
                s
            },
            None => s,
        }
    }
}

/// `str::replace` on characters, for a non-empty pattern.
pub fn replace_chars(v: &Vec<char>, pat: &Vec<char>, rep: &Vec<char>) -> (r: Vec<char>)
    requires
        pat.len() > 0,
    ensures
        r@ == replace_all(v@, pat@, rep@),
{
    let mut out: Vec<char> = Vec::new();
    let mut rest: Vec<char> = slice_chars(v, 0, v.len());
    assert(v@.subrange(0, v.len() as int) =~= v@);
    loop
        invariant
            pat.len() > 0,
            out@ + replace_all(rest@, pat@, rep@) == replace_all(v@, pat@, rep@),
        decreases rest.len(),
    {
        match find_chars(&rest, pat) {
            Some(i) => {
                let head = slice_chars(&rest, 0, i);
                let tail = slice_chars(&rest, i + pat.len(), rest.len());
                assert(head@ =~= rest@.take(i as int));
                assert(tail@ =~= rest@.skip(i + pat.len()));
                let ghost before = out@;
                append_chars(&mut out, &head);
                append_chars(&mut out, rep);
                assert(out@ + replace_all(tail@, pat@, rep@) =~= before + replace_all(
                    rest@,
                    pat@,
                    rep@,
                ));
                rest = tail;
            },
            None => {
                let ghost before = out@;
                append_chars(&mut out, &rest);
                assert(out@ =~= before + replace_all(rest@, pat@, rep@));
                return out;
            },
        }
    }
}

/// Index of the last occurrence of `c`, if any.
pub open spec fn last_index_of(s: Seq<char>, c: char) -> Option<int>
    decreases s.len(),
{
    if s.len() == 0 {
        None
    } else if s.last() == c {
        Some(s.len() - 1)
    } else {
        last_index_of(s.drop_last(), c)
    }
}

pub fn last_index_of_exec(v: &Vec<char>, c: char) -> (r: Option<usize>)
    ensures
        match r {
            Some(i) => last_index_of(v@, c) == Some(i as int) && i < v.len(),
            None => last_index_of(v@, c) is None,
        },
{
    let mut n: usize = v.len();
    assert(v@.take(n as int) =~= v@);
    while n > 0
        invariant
            n <= v.len(),
            last_index_of(v@, c) == last_index_of(v@.take(n as int), c),
        decreases n,
    {
        assert(v@.take(n as int).last() == v@[n - 1]);
        if v[n - 1] == c {
            return Some(n - 1);
        }
        assert(v@.take(n as int).drop_last() =~= v@.take(n - 1));
        n = n - 1;
    }
    None
}

// ---------------------------------------------------------------------------
// Stripping repeated affixes
// ---------------------------------------------------------------------------

/// `str::trim_end_matches(c)`: every trailing `c` removed.
pub open spec fn trim_end_matches(s: Seq<char>, c: char) -> Seq<char>
    decreases s.len(),
{
    if s.len() > 0 && s.last() == c {
        trim_end_matches(s.drop_last(), c)
    } else {
        s
    }
}

/// `str::trim_start_matches(pat)`: every leading copy of `pat` removed.
pub open spec fn trim_start_matches(s: Seq<char>, pat: Seq<char>) -> Seq<char>
    decreases s.len(),
{
    if pat.len() > 0 && starts_with(s, pat) {
        trim_start_matches(s.skip(pat.len() as int), pat)
    } else {
        s
    }
}

pub fn trim_end_matches_str(s: &str, c: char) -> (r: String)
    ensures
        r@ == trim_end_matches(s@, c),
{
    let v = chars_of(s);
    let mut n: usize = v.len();
    assert(v@.take(n as int) =~= v@);
    while n > 0 && v[n - 1] == c
        invariant
            n <= v.len(),
            trim_end_matches(v@, c) == trim_end_matches(v@.take(n as int), c),
        decreases n,
    {
        assert(v@.take(n as int).drop_last() =~= v@.take(n - 1));
        n = n - 1;
    }
    let out = slice_chars(&v, 0, n);
    assert(out@ =~= v@.take(n as int));
    string_from(&out)
}

pub fn trim_start_matches_str(s: &str, pat: &str) -> (r: String)
    ensures
        r@ == trim_start_matches(s@, pat@),
{
    let v = chars_of(s);
    let p = chars_of(pat);
    if p.len() == 0 {
        return string_from(&v);
    }
    let mut i: usize = 0;
    assert(v@.skip(0) =~= v@);
    while p.len() <= v.len() - i && starts_with_at(&v, &p, i)
        invariant
            i <= v.len(),
            p@ == pat@,
            v@ == s@,
            p.len() > 0,
            trim_start_matches(v@, p@) == trim_start_matches(v@.skip(i as int), p@),
        decreases v.len() - i,
    {
        assert(v@.skip(i as int).skip(p.len() as int) =~= v@.skip(i + p.len()));
        i = i + p.len();
    }
    proof {
        if i + p.len() <= v.len() {
            assert(v@.skip(i as int).subrange(0, p.len() as int) =~= v@.subrange(
                i as int,
                i + p.len(),
            ));
        }
    }
    let out = slice_chars(&v, i, v.len());
    assert(out@ =~= v@.skip(i as int));
    string_from(&out)
}

/// `v[i..]` begins with `p`.
fn starts_with_at(v: &Vec<char>, p: &Vec<char>, i: usize) -> (r: bool)
    requires
        i + p.len() <= v.len(),
    ensures
        r == starts_with(v@.skip(i as int), p@),
{
    let mut k: usize = 0;
    while k < p.len()
        invariant
            k <= p.len(),
            i + p.len() <= v.len(),
            forall|j: int| 0 <= j < k ==> v@[i + j] == p@[j],
        decreases p.len() - k,
    {
        if v[i + k] != p[k] {
            assert(v@.skip(i as int).subrange(0, p.len() as int)[k as int] != p@[k as int]);
            return false;
        }
        k = k + 1;
    }
    assert(v@.skip(i as int).subrange(0, p.len() as int) =~= p@);
    true
}

// ---------------------------------------------------------------------------
// UTF-8 size
// ---------------------------------------------------------------------------

/// Bytes a character takes in UTF-8.
pub open spec fn utf8_len(c: char) -> nat {
    if (c as u32) < 0x80 {
        1
    } else if (c as u32) < 0x800 {
        2
    } else if (c as u32) < 0x10000 {
        3
    } else {
        4
    }
}

/// Bytes a string takes in UTF-8 (`str::len`).
pub open spec fn utf8_size(s: Seq<char>) -> nat
    decreases s.len(),
{
    if s.len() == 0 {
        0
    } else {
        utf8_size(s.drop_last()) + utf8_len(s.last())
    }
}

pub fn char_utf8_len(c: char) -> (r: usize)
    ensures
        r == utf8_len(c),
{
    let u = c as u32;
    if u < 0x80 {
        1
    } else if u < 0x800 {
        2
    } else if u < 0x10000 {
        3
    } else {
        4
    }
}

/// How many characters of `s` make up exactly `n` bytes, if a character
/// boundary falls there.
pub open spec fn chars_in_bytes(s: Seq<char>, n: int) -> Option<int>
    decreases s.len(),
{
    if n == 0 {
        Some(0)
    } else if n < 0 || s.len() == 0 {
        None
    } else {
        match chars_in_bytes(s.drop_first(), n - utf8_len(s[0])) {
            Some(k) => Some(k + 1),
            None => None,
        }
    }
}

/// One more character adds its own size.
pub proof fn lemma_utf8_size_take_step(s: Seq<char>, i: int)
    requires
        0 <= i < s.len(),
    ensures
        utf8_size(s.take(i + 1)) == utf8_size(s.take(i)) + utf8_len(s[i]),
{
    assert(s.take(i + 1).drop_last() =~= s.take(i));
    assert(s.take(i + 1).last() == s[i]);
}

/// A character takes one to four bytes.
pub proof fn lemma_utf8_size_bounds(s: Seq<char>)
    ensures
        s.len() <= utf8_size(s) <= 4 * s.len(),
    decreases s.len(),
{
    if s.len() > 0 {
        lemma_utf8_size_bounds(s.drop_last());
    }
}

/// The size of joined texts is the sum of their sizes.
pub proof fn lemma_utf8_size_split(a: Seq<char>, b: Seq<char>)
    ensures
        utf8_size(a + b) == utf8_size(a) + utf8_size(b),
    decreases b.len(),
{
    if b.len() == 0 {
        assert(a + b =~= a);
    } else {
        lemma_utf8_size_split(a, b.drop_last());
        assert((a + b).drop_last() =~= a + b.drop_last());
        assert((a + b).last() == b.last());
    }
}

/// Bytes taken by the first `upto` characters.
pub fn utf8_prefix_size(v: &Vec<char>, upto: usize) -> (r: u128)
    requires
        upto <= v.len(),
    ensures
        r == utf8_size(v@.take(upto as int)),
        r <= 4 * upto,
{
    let mut bytes: u128 = 0;
    let mut i: usize = 0;
    assert(v@.take(0) =~= Seq::<char>::empty());
    while i < upto
        invariant
            i <= upto <= v.len(),
            bytes == utf8_size(v@.take(i as int)),
            bytes <= 4 * i,
        decreases upto - i,
    {
        proof {
            lemma_utf8_size_take_step(v@, i as int);
        }
        bytes = bytes + char_utf8_len(v[i]) as u128;
        i = i + 1;
    }
    bytes
}

/// The number of characters that take exactly `n` bytes, if a character
/// boundary falls there.
pub fn chars_in_bytes_exec(v: &Vec<char>, n: u128) -> (r: Option<usize>)
    requires
        n < 0x1_0000_0000_0000_0000_0000_0000_0000,
    ensures
        match r {
            Some(k) => chars_in_bytes(v@, n as int) == Some(k as int) && k <= v.len(),
            None => chars_in_bytes(v@, n as int) is None,
        },
{
    let mut bytes: u128 = 0;
    let mut i: usize = 0;
    assert(v@.skip(0) =~= v@);
    while i < v.len() && bytes < n
        invariant
            i <= v.len(),
            bytes <= n + 4,
            n < 0x1_0000_0000_0000_0000_0000_0000_0000,
            chars_in_bytes(v@, n as int) == match chars_in_bytes(v@.skip(i as int), n - bytes) {
                Some(k) => Some(k + i),
                None => None,
            },
        decreases v.len() - i,
    {
        proof {
            assert(v@.skip(i as int).drop_first() =~= v@.skip(i + 1));
            assert(v@.skip(i as int)[0] == v@[i as int]);
        }
        bytes = bytes + char_utf8_len(v[i]) as u128;
        i = i + 1;
    }
    if bytes == n {
        Some(i)
    } else {
        proof {
            if i == v.len() {
                assert(v@.skip(i as int) =~= Seq::<char>::empty());
            }
        }
        None
    }
}

// ---------------------------------------------------------------------------
// Facts about splitting, trimming and finding
// ---------------------------------------------------------------------------

pub proof fn lemma_split_state_no_sep(a: Seq<char>, sep: char)
    requires
        forall|i: int| 0 <= i < a.len() ==> #[trigger] a[i] != sep,
    ensures
        split_state(a, sep) == (Seq::<Seq<char>>::empty(), a),
    decreases a.len(),
{
    if a.len() > 0 {
        assert forall|i: int| 0 <= i < a.drop_last().len() implies #[trigger] a.drop_last()[i]
            != sep by {
            assert(a.drop_last()[i] == a[i]);
        }
        lemma_split_state_no_sep(a.drop_last(), sep);
        assert(a.last() != sep);
        assert(a.drop_last().push(a.last()) =~= a);
    }
}

/// The finished pieces of a prefix stay the first pieces of the whole.
pub proof fn lemma_split_state_grows(s: Seq<char>, i: int, sep: char)
    requires
        0 <= i <= s.len(),
    ensures
        split_state(s.take(i), sep).0.len() <= split_state(s, sep).0.len(),
        forall|k: int|
            0 <= k < split_state(s.take(i), sep).0.len() ==> #[trigger] split_state(s, sep).0[k]
                == split_state(s.take(i), sep).0[k],
    decreases s.len() - i,
{
    if i == s.len() {
        assert(s.take(i) =~= s);
    } else {
        lemma_split_state_grows(s, i + 1, sep);
        assert(s.take(i + 1).drop_last() =~= s.take(i));
    }
}

/// A piece without separators followed by a separator is the first piece.
pub proof fn lemma_split_first_piece(a: Seq<char>, b: Seq<char>, sep: char)
    requires
        forall|i: int| 0 <= i < a.len() ==> #[trigger] a[i] != sep,
        b.len() > 0,
        b[0] == sep,
    ensures
        split(a + b, sep).len() > 1,
        split(a + b, sep)[0] == a,
{
    let s = a + b;
    lemma_split_state_no_sep(a, sep);
    assert(s.take(a.len() as int) =~= a);
    assert(s.take(a.len() as int + 1).drop_last() =~= a);
    assert(s.take(a.len() as int + 1).last() == sep);
    assert(split_state(s.take(a.len() as int + 1), sep).0 =~= seq![a]);
    lemma_split_state_grows(s, a.len() as int + 1, sep);
}

/// Text that neither starts nor ends with whitespace is its own trim.
pub proof fn lemma_trim_unchanged(s: Seq<char>)
    requires
        s.len() > 0,
        !is_ws(s[0]),
        !is_ws(s.last()),
    ensures
        trim(s) == s,
{
    assert(trim_start_by(s, TrimClass::Whitespace) == s);
    assert(trim_end_by(s, TrimClass::Whitespace) == s);
}

/// The first occurrence of a character is found.
pub proof fn lemma_find_first_char(s: Seq<char>, c: char, k: int)
    requires
        0 <= k < s.len(),
        s[k] == c,
        forall|j: int| 0 <= j < k ==> s[j] != c,
    ensures
        find(s, seq![c]) == Some(k),
{
    lemma_find_char_from(s, c, k, 0);
}

proof fn lemma_find_char_from(s: Seq<char>, c: char, k: int, start: int)
    requires
        0 <= start <= k < s.len(),
        s[k] == c,
        forall|j: int| 0 <= j < k ==> s[j] != c,
    ensures
        find_from(s, seq![c], start) == Some(k),
    decreases k - start,
{
    if start == k {
        assert(s.subrange(k, k + 1) =~= seq![c]);
    } else {
        assert(s.subrange(start, start + 1)[0] == s[start]);
        assert(!occurs_at(s, seq![c], start));
        lemma_find_char_from(s, c, k, start + 1);
    }
}

/// A prefix of a prefix is a prefix.
pub proof fn lemma_starts_with_trans(a: Seq<char>, b: Seq<char>, c: Seq<char>)
    requires
        starts_with(a, b),
        starts_with(b, c),
    ensures
        starts_with(a, c),
{
    assert forall|i: int| 0 <= i < c.len() implies #[trigger] a.subrange(0, c.len() as int)[i]
        == c[i] by {
        assert(a.subrange(0, b.len() as int)[i] == b[i]);
        assert(b.subrange(0, c.len() as int)[i] == c[i]);
    }
    assert(a.subrange(0, c.len() as int) =~= c);
}

// ---------------------------------------------------------------------------
// Words and single-spaced text
// ---------------------------------------------------------------------------

/// Each piece is non-empty and holds no whitespace, as the words of a text are.
pub open spec fn plain_words(ps: Seq<Seq<char>>) -> bool {
    &&& forall|k: int| 0 <= k < ps.len() ==> (#[trigger] ps[k]).len() > 0
    &&& forall|k: int, i: int|
        0 <= k < ps.len() && 0 <= i < ps[k].len() ==> !is_ws(#[trigger] ps[k][i])
}

/// Text whose only whitespace is single `' '` between non-whitespace
/// characters: none at either end, none doubled.
pub open spec fn single_spaced(s: Seq<char>) -> bool {
    &&& forall|i: int| 0 <= i < s.len() && is_ws(#[trigger] s[i]) ==> s[i] == ' '
    &&& s.len() > 0 ==> !is_ws(s[0]) && !is_ws(s.last())
    &&& forall|i: int, j: int|
        #![trigger s[i], s[j]]
        0 <= i && j == i + 1 && j < s.len() ==> !(is_ws(s[i]) && is_ws(s[j]))
}

proof fn lemma_word_state_within(s: Seq<char>, p: spec_fn(char) -> bool)
    requires
        forall|i: int| 0 <= i < s.len() ==> p(#[trigger] s[i]),
    ensures
        forall|k: int, i: int|
            0 <= k < word_state(s).0.len() && 0 <= i < word_state(s).0[k].len() ==> p(
                #[trigger] word_state(s).0[k][i],
            ),
        forall|i: int| 0 <= i < word_state(s).1.len() ==> p(#[trigger] word_state(s).1[i]),
    decreases s.len(),
{
    if s.len() > 0 {
        assert forall|i: int| 0 <= i < s.drop_last().len() implies p(#[trigger] s.drop_last()[i]) by {
            assert(s.drop_last()[i] == s[i]);
        }
        lemma_word_state_within(s.drop_last(), p);
        assert(s.last() == s[s.len() - 1]);
        let prev = word_state(s.drop_last());
        let st = word_state(s);
        assert forall|k: int, i: int|
            0 <= k < st.0.len() && 0 <= i < st.0[k].len() implies p(#[trigger] st.0[k][i]) by {
            if k < prev.0.len() {
                assert(st.0[k] == prev.0[k]);
            } else {
                assert(st.0[k] == prev.1);
            }
        }
        assert forall|i: int| 0 <= i < st.1.len() implies p(#[trigger] st.1[i]) by {
            if !is_ws(s.last()) {
                if i < prev.1.len() {
                    assert(st.1[i] == prev.1[i]);
                } else {
                    assert(st.1[i] == s.last());
                }
            }
        }
    }
}

/// Every character of every word satisfies what every character of the
/// text satisfies.
pub proof fn lemma_words_within(s: Seq<char>, p: spec_fn(char) -> bool)
    requires
        forall|i: int| 0 <= i < s.len() ==> p(#[trigger] s[i]),
    ensures
        forall|k: int, i: int|
            0 <= k < words(s).len() && 0 <= i < words(s)[k].len() ==> p(#[trigger] words(s)[k][i]),
{
    lemma_word_state_within(s, p);
    let st = word_state(s);
    let w = words(s);
    assert forall|k: int, i: int| 0 <= k < w.len() && 0 <= i < w[k].len() implies p(
        #[trigger] w[k][i],
    ) by {
        if k < st.0.len() {
            assert(w[k] == st.0[k]);
        } else {
            assert(w[k] == st.1);
        }
    }
}

/// Joining pieces whose characters satisfy `p` by a separator whose
/// characters satisfy `p` gives text whose characters satisfy `p`.
pub proof fn lemma_join_within(pieces: Seq<Seq<char>>, sep: Seq<char>, p: spec_fn(char) -> bool)
    requires
        forall|k: int, i: int|
            0 <= k < pieces.len() && 0 <= i < pieces[k].len() ==> p(#[trigger] pieces[k][i]),
        forall|i: int| 0 <= i < sep.len() ==> p(#[trigger] sep[i]),
    ensures
        forall|i: int| 0 <= i < join(pieces, sep).len() ==> p(#[trigger] join(pieces, sep)[i]),
    decreases pieces.len(),
{
    if pieces.len() > 1 {
        assert forall|k: int, i: int|
            0 <= k < pieces.drop_last().len() && 0 <= i < pieces.drop_last()[k].len() implies p(
            #[trigger] pieces.drop_last()[k][i],
        ) by {
            assert(pieces.drop_last()[k] == pieces[k]);
        }
        lemma_join_within(pieces.drop_last(), sep, p);
        let j = join(pieces.drop_last(), sep);
        let r = j + sep + pieces.last();
        assert forall|i: int| 0 <= i < r.len() implies p(#[trigger] r[i]) by {
            if i < j.len() {
            } else if i < j.len() + sep.len() {
                assert(r[i] == sep[i - j.len()]);
            } else {
                assert(r[i] == pieces[pieces.len() - 1][i - j.len() - sep.len()]);
            }
        }
    } else if pieces.len() == 1 {
        assert forall|i: int| 0 <= i < pieces[0].len() implies p(#[trigger] pieces[0][i]) by {}
    }
}

proof fn lemma_word_state_plain(s: Seq<char>)
    ensures
        forall|k: int| 0 <= k < word_state(s).0.len() ==> (#[trigger] word_state(s).0[k]).len() > 0,
        forall|k: int, i: int|
            0 <= k < word_state(s).0.len() && 0 <= i < word_state(s).0[k].len() ==> !is_ws(
                #[trigger] word_state(s).0[k][i],
            ),
        forall|i: int| 0 <= i < word_state(s).1.len() ==> !is_ws(#[trigger] word_state(s).1[i]),
    decreases s.len(),
{
    if s.len() > 0 {
        lemma_word_state_plain(s.drop_last());
        let prev = word_state(s.drop_last());
        let st = word_state(s);
        assert forall|k: int| 0 <= k < st.0.len() implies (#[trigger] st.0[k]).len() > 0 by {
            if k < prev.0.len() {
                assert(st.0[k] == prev.0[k]);
            } else {
                assert(st.0[k] == prev.1);
            }
        }
        assert forall|k: int, i: int|
            0 <= k < st.0.len() && 0 <= i < st.0[k].len() implies !is_ws(#[trigger] st.0[k][i]) by {
            if k < prev.0.len() {
                assert(st.0[k] == prev.0[k]);
            } else {
                assert(st.0[k] == prev.1);
            }
        }
        assert forall|i: int| 0 <= i < st.1.len() implies !is_ws(#[trigger] st.1[i]) by {
            if !is_ws(s.last()) {
                if i < prev.1.len() {
                    assert(st.1[i] == prev.1[i]);
                } else {
                    assert(st.1[i] == s.last());
                }
            }
        }
    }
}

/// The words of any text are non-empty and free of whitespace.
pub proof fn lemma_words_plain(s: Seq<char>)
    ensures
        plain_words(words(s)),
{
    lemma_word_state_plain(s);
    let st = word_state(s);
    let w = words(s);
    assert forall|k: int| 0 <= k < w.len() implies (#[trigger] w[k]).len() > 0 by {
        if k < st.0.len() {
            assert(w[k] == st.0[k]);
        }
    }
    assert forall|k: int, i: int| 0 <= k < w.len() && 0 <= i < w[k].len() implies !is_ws(
        #[trigger] w[k][i],
    ) by {
        if k < st.0.len() {
            assert(w[k] == st.0[k]);
        } else {
            assert(w[k] == st.1);
        }
    }
}

/// Reading a run of non-whitespace extends the current word.
proof fn lemma_word_state_extend(s: Seq<char>, w: Seq<char>)
    requires
        forall|i: int| 0 <= i < w.len() ==> !is_ws(#[trigger] w[i]),
    ensures
        word_state(s + w).0 == word_state(s).0,
        word_state(s + w).1 == word_state(s).1 + w,
    decreases w.len(),
{
    if w.len() == 0 {
        assert(s + w =~= s);
        assert(word_state(s).1 + w =~= word_state(s).1);
    } else {
        let w2 = w.drop_last();
        assert forall|i: int| 0 <= i < w2.len() implies !is_ws(#[trigger] w2[i]) by {
            assert(w2[i] == w[i]);
        }
        lemma_word_state_extend(s, w2);
        assert((s + w).drop_last() =~= s + w2);
        assert((s + w).last() == w[w.len() - 1]);
        assert((word_state(s).1 + w2).push(w[w.len() - 1]) =~= word_state(s).1 + w);
    }
}

proof fn lemma_word_state_join(ps: Seq<Seq<char>>)
    requires
        ps.len() > 0,
        plain_words(ps),
    ensures
        word_state(join(ps, " "@)).0 == ps.drop_last(),
        word_state(join(ps, " "@)).1 == ps.last(),
    decreases ps.len(),
{
    reveal_strlit(" ");
    if ps.len() == 1 {
        let e = Seq::<char>::empty();
        assert(ps[0].len() > 0);
        assert forall|i: int| 0 <= i < ps[0].len() implies !is_ws(#[trigger] ps[0][i]) by {}
        lemma_word_state_extend(e, ps[0]);
        assert(e + ps[0] =~= ps[0]);
        assert(word_state(e).1 + ps[0] =~= ps[0]);
        assert(ps.drop_last() =~= Seq::<Seq<char>>::empty());
    } else {
        let pre = ps.drop_last();
        assert forall|k: int| 0 <= k < pre.len() implies (#[trigger] pre[k]).len() > 0 by {
            assert(pre[k] == ps[k]);
        }
        assert forall|k: int, i: int| 0 <= k < pre.len() && 0 <= i < pre[k].len() implies !is_ws(
            #[trigger] pre[k][i],
        ) by {
            assert(pre[k] == ps[k]);
        }
        lemma_word_state_join(pre);
        let t = join(pre, " "@) + " "@;
        assert(t.drop_last() =~= join(pre, " "@));
        assert(t.last() == ' ');
        assert(pre.last() == ps[ps.len() - 2]);
        assert(pre.last().len() > 0);
        assert(pre.drop_last().push(pre.last()) =~= pre);
        let w = ps.last();
        assert(w == ps[ps.len() - 1]);
        assert forall|i: int| 0 <= i < w.len() implies !is_ws(#[trigger] w[i]) by {
            assert(w[i] == ps[ps.len() - 1][i]);
        }
        lemma_word_state_extend(t, w);
        assert(Seq::<char>::empty() + w =~= w);
    }
}

/// Words joined by single spaces split back into the same words.
pub proof fn lemma_words_of_join(ps: Seq<Seq<char>>)
    requires
        plain_words(ps),
    ensures
        words(join(ps, " "@)) == ps,
{
    if ps.len() == 0 {
        assert(join(ps, " "@) =~= Seq::<char>::empty());
    } else {
        lemma_word_state_join(ps);
        assert(ps.last() == ps[ps.len() - 1]);
        assert(ps.drop_last().push(ps.last()) =~= ps);
    }
}

/// Words joined by single spaces are single-spaced text, non-empty when
/// there is a word.
pub proof fn lemma_join_single_spaced(ps: Seq<Seq<char>>)
    requires
        plain_words(ps),
    ensures
        single_spaced(join(ps, " "@)),
        ps.len() > 0 ==> join(ps, " "@).len() > 0,
    decreases ps.len(),
{
    reveal_strlit(" ");
    if ps.len() == 1 {
        let j = join(ps, " "@);
        assert(j == ps[0]);
        assert(ps[0].len() > 0);
        assert forall|i: int| 0 <= i < j.len() implies !is_ws(#[trigger] j[i]) by {
            assert(j[i] == ps[0][i]);
        }
        assert(!is_ws(j[j.len() - 1]));
    } else if ps.len() > 1 {
        let pre = ps.drop_last();
        assert forall|k: int| 0 <= k < pre.len() implies (#[trigger] pre[k]).len() > 0 by {
            assert(pre[k] == ps[k]);
        }
        assert forall|k: int, i: int| 0 <= k < pre.len() && 0 <= i < pre[k].len() implies !is_ws(
            #[trigger] pre[k][i],
        ) by {
            assert(pre[k] == ps[k]);
        }
        lemma_join_single_spaced(pre);
        let a = join(pre, " "@);
        let w = ps.last();
        assert(w == ps[ps.len() - 1]);
        assert(w.len() > 0);
        assert forall|i: int| 0 <= i < w.len() implies !is_ws(#[trigger] w[i]) by {
            assert(w[i] == ps[ps.len() - 1][i]);
        }
        let j = a + " "@ + w;
        assert(j == join(ps, " "@));
        let n = a.len() as int;
        assert(n > 0);
        assert forall|i: int| 0 <= i < j.len() && is_ws(#[trigger] j[i]) implies j[i] == ' ' by {
            if i < n {
                assert(j[i] == a[i]);
            } else if i > n {
                assert(j[i] == w[i - n - 1]);
            }
        }
        assert(j[0] == a[0]);
        assert(j.last() == w[w.len() - 1]);
        assert forall|i: int, k: int|
            #![trigger j[i], j[k]]
            0 <= i && k == i + 1 && k < j.len() implies !(is_ws(j[i]) && is_ws(j[k])) by {
            if k < n {
                assert(j[i] == a[i]);
                assert(j[k] == a[k]);
            } else if k == n {
                assert(j[i] == a[n - 1]);
            } else {
                assert(j[k] == w[k - n - 1]);
            }
        }
    }
}

} // verus!
