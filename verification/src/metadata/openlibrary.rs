//! Open Library: where works and authors are looked up, and how its answers
//! become works.
use vstd::prelude::*;

use crate::domain::catalog::{ResolvedWork, WorkRecord, WorkSearch};
use crate::numbers::{decimal, i64_to_string};
use crate::text::{
    ascii_lower_char, chars_of, concat, copy_str, is_ascii_alnum, is_ascii_alphanumeric, is_blank,
    opt_view, seq_eq, string_from, to_ascii_lowercase_char, trim, trim_end_matches,
    trim_end_matches_str, trim_start_matches, trim_start_matches_str, trim_str,
};

verus! {

/// The user agent sent to Open Library.
pub const USER_AGENT: &'static str = "book-router/0.1";

/// Where Open Library requests go.
#[derive(Clone, Debug, PartialEq, Eq)]
pub struct OpenLibraryClient {
    pub base_url: String,
}

/// The base URL without trailing slashes.
pub open spec fn base_of(base_url: Seq<char>) -> Seq<char> {
    trim_end_matches(base_url, '/')
}

impl OpenLibraryClient {
    pub fn new(base_url: &str) -> (r: Self)
        ensures
            r.base_url@ == base_url@,
    {
        OpenLibraryClient { base_url: copy_str(base_url) }
    }

    /// The search endpoint.
    pub fn search_url(&self) -> (r: String)
        ensures
            r@ == base_of(self.base_url@) + "/search.json"@,
    {
        let b = trim_end_matches_str(self.base_url.as_str(), '/');
        concat(b.as_str(), "/search.json")
    }

    /// The endpoint of one work.
    pub fn work_url(&self, external_id: &str) -> (r: String)
        ensures
            r@ == base_of(self.base_url@) + "/works/"@ + external_id@ + ".json"@,
    {
        let b = trim_end_matches_str(self.base_url.as_str(), '/');
        let a = concat(b.as_str(), "/works/");
        let c = concat(a.as_str(), external_id);
        concat(c.as_str(), ".json")
    }

    /// The endpoint of an author, from the author's key (`/authors/…`).
    pub fn author_url(&self, author_key: &str) -> (r: String)
        ensures
            r@ == base_of(self.base_url@) + author_key@ + ".json"@,
    {
        let b = trim_end_matches_str(self.base_url.as_str(), '/');
        let a = concat(b.as_str(), author_key);
        concat(a.as_str(), ".json")
    }
}

/// The query of a search: title, author and the number of results.
pub fn search_params(title: &str, author: &str, limit: &str) -> (r: Vec<(String, String)>)
    ensures
        r@.map_values(|p: (String, String)| (p.0@, p.1@)) == seq![
            ("title"@, title@),
            ("author"@, author@),
            ("limit"@, limit@),
        ],
{
    let mut out: Vec<(String, String)> = Vec::new();
    out.push((copy_str("title"), copy_str(title)));
    out.push((copy_str("author"), copy_str(author)));
    out.push((copy_str("limit"), copy_str(limit)));
    assert(out@.map_values(|p: (String, String)| (p.0@, p.1@)) =~= seq![
        ("title"@, title@),
        ("author"@, author@),
        ("limit"@, limit@),
    ]);
    out
}

// ---------------------------------------------------------------------------
// Answers
// ---------------------------------------------------------------------------

/// One result of a search.
#[derive(Clone, Debug, PartialEq, Eq)]
pub struct SearchDoc {
    pub key: String,
    pub title: String,
    pub author_name: Vec<String>,
}

/// A work as Open Library describes it: its key, title and the keys of its
/// authors (an entry may name none).
#[derive(Clone, Debug, PartialEq, Eq)]
pub struct WorkResponse {
    pub key: String,
    pub title: String,
    pub authors: Vec<Option<String>>,
}

/// Text for matching: its ASCII letters and digits, lowercased.
pub open spec fn normalize_text_spec(s: Seq<char>) -> Seq<char>
    decreases s.len(),
{
    if s.len() == 0 {
        Seq::empty()
    } else {
        let prev = normalize_text_spec(s.drop_last());
        if is_ascii_alnum(s.last()) {
            prev.push(ascii_lower_char(s.last()))
        } else {
            prev
        }
    }
}

pub fn normalize_text(value: &str) -> (r: String)
    ensures
        r@ == normalize_text_spec(value@),
{
    let v = chars_of(value);
    let mut out: Vec<char> = Vec::new();
    let mut i: usize = 0;
    while i < v.len()
        invariant
            i <= v.len(),
            v@ == value@,
            out@ == normalize_text_spec(v@.take(i as int)),
        decreases v.len() - i,
    {
        assert(v@.take(i + 1).drop_last() =~= v@.take(i as int));
        assert(v@.take(i + 1).last() == v@[i as int]);
        if is_ascii_alphanumeric(v[i]) {
            out.push(to_ascii_lowercase_char(v[i]));
        }
        i = i + 1;
    }
    assert(v@.take(v.len() as int) =~= v@);
    string_from(&out)
}

/// A work key without its `/works/` prefixes.
pub fn normalize_work_key(value: &str) -> (r: String)
    ensures
        r@ == trim_start_matches(value@, "/works/"@),
{
    trim_start_matches_str(value, "/works/")
}

pub open spec fn unknown_author_text() -> Seq<char> {
    "Unknown author"@
}

/// The placeholder for a work without a known author.
pub fn unknown_author() -> (r: String)
    ensures
        r@ == unknown_author_text(),
{
    copy_str("Unknown author")
}

/// An author's name trimmed; the placeholder when it is missing or blank.
pub open spec fn author_name_spec(value: Option<Seq<char>>) -> Seq<char> {
    match value {
        Some(v) => if trim(v).len() == 0 {
            unknown_author_text()
        } else {
            trim(v)
        },
        None => unknown_author_text(),
    }
}

pub fn normalize_author_name(value: Option<&str>) -> (r: String)
    ensures
        r@ == author_name_spec(
            match value {
                Some(v) => Some(v@),
                None => None,
            },
        ),
{
    match value {
        Some(v) => {
            if is_blank(v) {
                unknown_author()
            } else {
                trim_str(v)
            }
        },
        None => unknown_author(),
    }
}

/// A work with only its identity known.
pub open spec fn bare_work(w: WorkRecord, external_id: Seq<char>, title: Seq<char>, author: Seq<char>) -> bool {
    &&& w.external_id@ == external_id
    &&& w.title@ == title
    &&& w.primary_author@ == author
    &&& w.first_publish_year is None
    &&& w.description is None
    &&& w.cover_id is None
    &&& w.subjects@.len() == 0
    &&& w.edition_count is None
}

/// The work a search result names: its key without prefix, its title, and
/// its first author.
pub open spec fn doc_work(w: WorkRecord, doc: SearchDoc) -> bool {
    bare_work(
        w,
        trim_start_matches(doc.key@, "/works/"@),
        doc.title@,
        author_name_spec(
            if doc.author_name@.len() > 0 {
                Some(doc.author_name@[0]@)
            } else {
                None
            },
        ),
    )
}

pub fn work_from_doc(doc: &SearchDoc) -> (r: WorkRecord)
    ensures
        doc_work(r, *doc),
{
    let first = if doc.author_name.len() > 0 {
        Some(doc.author_name[0].as_str())
    } else {
        None
    };
    WorkRecord {
        external_id: normalize_work_key(doc.key.as_str()),
        title: copy_str(doc.title.as_str()),
        primary_author: normalize_author_name(first),
        first_publish_year: None,
        description: None,
        cover_id: None,
        subjects: Vec::new(),
        edition_count: None,
    }
}

/// The works of the search results, in order.
pub fn search_works_from_docs(docs: &Vec<SearchDoc>) -> (r: WorkSearch)
    ensures
        r.works@.len() == docs@.len(),
        forall|i: int| 0 <= i < docs@.len() ==> doc_work(#[trigger] r.works@[i], docs@[i]),
{
    let mut works: Vec<WorkRecord> = Vec::new();
    let mut i: usize = 0;
    while i < docs.len()
        invariant
            i <= docs.len(),
            works@.len() == i,
            forall|j: int| 0 <= j < i ==> doc_work(#[trigger] works@[j], docs@[j]),
        decreases docs.len() - i,
    {
        works.push(work_from_doc(&docs[i]));
        i = i + 1;
    }
    WorkSearch { works }
}

/// A search result matches the wanted title and author: the same text for
/// matching, and (unless no author is wanted) one of its authors the same.
pub open spec fn doc_matches(doc: SearchDoc, title: Seq<char>, author: Seq<char>) -> bool {
    normalize_text_spec(doc.title@) == normalize_text_spec(title) && (normalize_text_spec(
        author,
    ).len() == 0 || exists|k: int|
        0 <= k < doc.author_name@.len() && normalize_text_spec(#[trigger] doc.author_name@[k]@)
            == normalize_text_spec(author))
}

/// Index of the first matching result.
pub open spec fn first_match(docs: Seq<SearchDoc>, title: Seq<char>, author: Seq<char>) -> Option<
    int,
>
    decreases docs.len(),
{
    if docs.len() == 0 {
        None
    } else {
        match first_match(docs.drop_last(), title, author) {
            Some(i) => Some(i),
            None => if doc_matches(docs.last(), title, author) {
                Some(docs.len() - 1)
            } else {
                None
            },
        }
    }
}

fn doc_matches_exec(doc: &SearchDoc, title: &String, author: &String) -> (r: bool)
    ensures
        r == doc_matches(*doc, title@, author@),
{
    let want_title = normalize_text(title.as_str());
    let want_author = normalize_text(author.as_str());
    let got_title = normalize_text(doc.title.as_str());
    if !seq_eq(&chars_of(got_title.as_str()), &chars_of(want_title.as_str())) {
        return false;
    }
    if chars_of(want_author.as_str()).len() == 0 {
        return true;
    }
    let mut k: usize = 0;
    while k < doc.author_name.len()
        invariant
            k <= doc.author_name.len(),
            want_author@ == normalize_text_spec(author@),
            normalize_text_spec(doc.title@) == normalize_text_spec(title@),
            forall|j: int|
                0 <= j < k ==> normalize_text_spec(#[trigger] doc.author_name@[j]@)
                    != normalize_text_spec(author@),
        decreases doc.author_name.len() - k,
    {
        let n = normalize_text(doc.author_name[k].as_str());
        if seq_eq(&chars_of(n.as_str()), &chars_of(want_author.as_str())) {
            assert(normalize_text_spec(doc.author_name@[k as int]@) == normalize_text_spec(author@));
            return true;
        }
        k = k + 1;
    }
    false
}

proof fn lemma_first_match_prefix(docs: Seq<SearchDoc>, title: Seq<char>, author: Seq<char>, n: int, k: int)
    requires
        0 <= n <= docs.len(),
        first_match(docs.take(n), title, author) == Some(k),
    ensures
        first_match(docs, title, author) == Some(k),
    decreases docs.len() - n,
{
    if n == docs.len() {
        assert(docs.take(n) =~= docs);
    } else {
        assert(docs.take(n + 1).drop_last() =~= docs.take(n));
        lemma_first_match_prefix(docs, title, author, n + 1, k);
    }
}

/// The work of the first search result that matches the wanted title and
/// author.
pub fn resolve_work_from_docs(docs: &Vec<SearchDoc>, title: &str, author: &str) -> (r: Result<
    ResolvedWork,
    String,
>)
    ensures
        match r {
            Ok(resolved) => first_match(docs@, title@, author@) matches Some(i) && doc_work(
                resolved.work,
                docs@[i],
            ),
            Err(e) => first_match(docs@, title@, author@) is None && e@ == "no work match"@,
        },
{
    let t = copy_str(title);
    let a = copy_str(author);
    let mut i: usize = 0;
    while i < docs.len()
        invariant
            i <= docs.len(),
            t@ == title@,
            a@ == author@,
            first_match(docs@.take(i as int), title@, author@) is None,
        decreases docs.len() - i,
    {
        assert(docs@.take(i + 1).drop_last() =~= docs@.take(i as int));
        assert(docs@.take(i + 1).last() == docs@[i as int]);
        if doc_matches_exec(&docs[i], &t, &a) {
            proof {
                lemma_first_match_prefix(docs@, title@, author@, i + 1, i as int);
            }
            return Ok(ResolvedWork { work: work_from_doc(&docs[i]) });
        }
        i = i + 1;
    }
    assert(docs@.take(docs.len() as int) =~= docs@);
    Err(copy_str("no work match"))
}

/// The key of the first author entry that names one, or nothing.
pub open spec fn first_author_key_spec(authors: Seq<Option<String>>) -> Seq<char>
    decreases authors.len(),
{
    if authors.len() == 0 {
        Seq::empty()
    } else {
        match authors[0] {
            Some(k) => k@,
            None => first_author_key_spec(authors.drop_first()),
        }
    }
}

impl WorkResponse {
    /// The work's id: its key without `/works/` prefixes.
    pub fn external_id(&self) -> (r: String)
        ensures
            r@ == trim_start_matches(self.key@, "/works/"@),
    {
        trim_start_matches_str(self.key.as_str(), "/works/")
    }

    /// The key of its first named author, empty when none is named.
    pub fn first_author_key(&self) -> (r: String)
        ensures
            r@ == first_author_key_spec(self.authors@),
    {
        let mut i: usize = 0;
        assert(self.authors@.skip(0) =~= self.authors@);
        while i < self.authors.len()
            invariant
                i <= self.authors.len(),
                first_author_key_spec(self.authors@) == first_author_key_spec(
                    self.authors@.skip(i as int),
                ),
            decreases self.authors.len() - i,
        {
            assert(self.authors@.skip(i as int).drop_first() =~= self.authors@.skip(i + 1));
            assert(self.authors@.skip(i as int)[0] == self.authors@[i as int]);
            match &self.authors[i] {
                Some(k) => {
                    return copy_str(k.as_str());
                },
                None => {},
            }
            i = i + 1;
        }
        assert(self.authors@.skip(i as int) =~= Seq::<Option<String>>::empty());
        String::new()
    }
}

/// The work a work answer describes. When it names an author, `author_name`
/// is the name fetched for that author; otherwise the author is unknown.
pub fn work_from_response(response: &WorkResponse, author_name: Option<&str>) -> (r: ResolvedWork)
    ensures
        bare_work(
            r.work,
            trim_start_matches(response.key@, "/works/"@),
            response.title@,
            if first_author_key_spec(response.authors@).len() == 0 {
                unknown_author_text()
            } else {
                author_name_spec(
                    match author_name {
                        Some(n) => Some(n@),
                        None => None,
                    },
                )
            },
        ),
{
    let key = response.first_author_key();
    let primary_author = if chars_of(key.as_str()).len() == 0 {
        unknown_author()
    } else {
        normalize_author_name(author_name)
    };
    ResolvedWork {
        work: WorkRecord {
            external_id: response.external_id(),
            title: copy_str(response.title.as_str()),
            primary_author,
            first_publish_year: None,
            description: None,
            cover_id: None,
            subjects: Vec::new(),
            edition_count: None,
        },
    }
}

// ---------------------------------------------------------------------------
// Covers
// ---------------------------------------------------------------------------

/// The size of a cover image.
#[derive(Clone, Copy, Debug, PartialEq, Eq, Structural)]
pub enum CoverSize {
    Small,
    Medium,
    Large,
}

pub open spec fn cover_size_text(size: CoverSize) -> Seq<char> {
    match size {
        CoverSize::Small => "S"@,
        CoverSize::Medium => "M"@,
        CoverSize::Large => "L"@,
    }
}

/// The size asked for by the `size` query value: `S` or `L` (either case),
/// else the medium size.
pub open spec fn cover_size_from_query(value: Option<Seq<char>>) -> CoverSize {
    match value {
        Some(v) => if v == "S"@ || v == "s"@ {
            CoverSize::Small
        } else if v == "L"@ || v == "l"@ {
            CoverSize::Large
        } else {
            CoverSize::Medium
        },
        None => CoverSize::Medium,
    }
}

impl CoverSize {
    pub fn from_query_value(value: Option<&str>) -> (r: Self)
        ensures
            r == cover_size_from_query(
                match value {
                    Some(v) => Some(v@),
                    None => None,
                },
            ),
    {
        match value {
            Some(v) => {
                if crate::text::str_eq(v, "S") || crate::text::str_eq(v, "s") {
                    CoverSize::Small
                } else if crate::text::str_eq(v, "L") || crate::text::str_eq(v, "l") {
                    CoverSize::Large
                } else {
                    CoverSize::Medium
                }
            },
            None => CoverSize::Medium,
        }
    }

    pub fn as_str(&self) -> (r: &'static str)
        ensures
            r@ == cover_size_text(*self),
    {
        match self {
            CoverSize::Small => "S",
            CoverSize::Medium => "M",
            CoverSize::Large => "L",
        }
    }
}

/// The image of a cover: `<cover base>/b/id/<id>-<size>.jpg`.
pub fn cover_url(cover_base_url: &str, cover_id: i64, size: CoverSize) -> (r: String)
    ensures
        r@ == base_of(cover_base_url@) + "/b/id/"@ + decimal(cover_id as int) + "-"@
            + cover_size_text(size) + ".jpg"@,
{
    let b = trim_end_matches_str(cover_base_url, '/');
    let a = concat(b.as_str(), "/b/id/");
    let id = i64_to_string(cover_id);
    let c = concat(a.as_str(), id.as_str());
    let d = concat(c.as_str(), "-");
    let e = concat(d.as_str(), size.as_str());
    concat(e.as_str(), ".jpg")
}

} // verus!
