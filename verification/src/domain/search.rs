use vstd::prelude::*;

use crate::text::{
    ascii_lower, ascii_lower_char, ascii_lowercase, chars_of, contains, copy_str, find,
    find_chars, is_ascii_alnum, occurs_at, is_ascii_alphanumeric, lemma_find_from_spec, opt_view,
    slice_chars, str_contains, str_eq, string_from, to_ascii_lowercase_char, to_lowercase,
    trim, trim_by, trim_chars, trim_chars_by, unicode_lowercase, views, TrimClass, chars_in_bytes,
    chars_in_bytes_exec, utf8_prefix_size, utf8_size,
};

verus! {

/// A release offered by an indexer for a request.
#[derive(Clone, Debug, PartialEq, Eq)]
pub struct ReleaseCandidate {
    pub external_id: String,
    pub source: String,
    pub title: String,
    pub protocol: String,
    pub size_bytes: i64,
    pub indexer: String,
    pub download_url: Option<String>,
    pub narrator: Option<String>,
    pub graphic_audio: bool,
    pub detected_language: Option<String>,
}

/// A release candidate as plain values.
pub struct CandidateView {
    pub external_id: Seq<char>,
    pub source: Seq<char>,
    pub title: Seq<char>,
    pub protocol: Seq<char>,
    pub size_bytes: i64,
    pub indexer: Seq<char>,
    pub download_url: Option<Seq<char>>,
    pub narrator: Option<Seq<char>>,
    pub graphic_audio: bool,
    pub detected_language: Option<Seq<char>>,
}

impl View for ReleaseCandidate {
    type V = CandidateView;

    open spec fn view(&self) -> CandidateView {
        CandidateView {
            external_id: self.external_id@,
            source: self.source@,
            title: self.title@,
            protocol: self.protocol@,
            size_bytes: self.size_bytes,
            indexer: self.indexer@,
            download_url: opt_view(self.download_url),
            narrator: opt_view(self.narrator),
            graphic_audio: self.graphic_audio,
            detected_language: opt_view(self.detected_language),
        }
    }
}

/// The candidate titled `title` with what its title tells filled in.
pub open spec fn parsed_candidate(
    external_id: Seq<char>,
    source: Seq<char>,
    title: Seq<char>,
    protocol: Seq<char>,
    size_bytes: i64,
    indexer: Seq<char>,
    download_url: Option<Seq<char>>,
) -> CandidateView {
    CandidateView {
        external_id,
        source,
        title,
        protocol,
        size_bytes,
        indexer,
        download_url,
        narrator: parse_narrator_spec(title),
        graphic_audio: is_graphic_audio_spec(title),
        detected_language: detect_language_spec(title),
    }
}

impl ReleaseCandidate {
    /// A torrent candidate with the given title and fixed test identity.
    pub fn for_tests(title: &str) -> (r: Self)
        ensures
            r.title@ == title@,
            r.external_id@ == "candidate-1"@,
            r.source@ == "test"@,
            r.protocol@ == "torrent"@,
            r.size_bytes == 0,
            r.indexer@ == "test-indexer"@,
            opt_view(r.download_url) == Some(
                "magnet:?xt=urn:btih:0123456789abcdef0123456789abcdef01234567&dn=test"@,
            ),
            opt_view(r.narrator) == parse_narrator_spec(title@),
            r.graphic_audio == is_graphic_audio_spec(title@),
            opt_view(r.detected_language) == detect_language_spec(title@),
    {
        ReleaseCandidate {
            external_id: copy_str("candidate-1"),
            source: copy_str("test"),
            title: copy_str(title),
            protocol: copy_str("torrent"),
            size_bytes: 0,
            indexer: copy_str("test-indexer"),
            download_url: Some(
                copy_str("magnet:?xt=urn:btih:0123456789abcdef0123456789abcdef01234567&dn=test"),
            ),
            narrator: None,
            graphic_audio: false,
            detected_language: None,
        }.with_parsed_metadata()
    }

    /// The same candidate with narrator, graphic-audio flag and language read
    /// from its title.
    pub fn with_parsed_metadata(self) -> (r: Self)
        ensures
            r.external_id == self.external_id,
            r.source == self.source,
            r.title == self.title,
            r.protocol == self.protocol,
            r.size_bytes == self.size_bytes,
            r.indexer == self.indexer,
            r.download_url == self.download_url,
            opt_view(r.narrator) == parse_narrator_spec(self.title@),
            r.graphic_audio == is_graphic_audio_spec(self.title@),
            opt_view(r.detected_language) == detect_language_spec(self.title@),
    {
        let parsed = ParsedTitleMetadata::from_title(self.title.as_str());
        ReleaseCandidate {
            narrator: parsed.narrator,
            graphic_audio: parsed.graphic_audio,
            detected_language: parsed.detected_language,
            ..self
        }
    }
}

/// The score of a candidate, in ten-thousandths (10000 is a score of 1.0),
/// with the reasons that made it up.
#[derive(Clone, Debug, PartialEq)]
pub struct ScoredCandidate {
    pub score: i64,
    pub explanation: Vec<String>,
    pub auto_acquire: bool,
}

#[derive(Clone, Debug, PartialEq)]
pub struct ReviewQueueEntry {
    pub id: i64,
    pub request_id: String,
    pub candidate: ReleaseCandidate,
    pub score: i64,
    pub explanation: Vec<String>,
    pub created_at: String,
}

/// What a release title tells about narrator, dramatisation and language.
#[derive(Clone, Debug, Default, PartialEq, Eq)]
pub struct ParsedTitleMetadata {
    pub narrator: Option<String>,
    pub graphic_audio: bool,
    pub detected_language: Option<String>,
}

impl ParsedTitleMetadata {
    pub fn from_title(title: &str) -> (r: Self)
        ensures
            opt_view(r.narrator) == parse_narrator_spec(title@),
            r.graphic_audio == is_graphic_audio_spec(title@),
            opt_view(r.detected_language) == detect_language_spec(title@),
    {
        ParsedTitleMetadata {
            narrator: parse_narrator(title),
            graphic_audio: is_graphic_audio(title),
            detected_language: detect_language(title),
        }
    }
}

// ---------------------------------------------------------------------------
// Narrator
// ---------------------------------------------------------------------------

/// The prefix of `s` before the first occurrence of `sep` (all of `s` if none).
pub open spec fn cut_at(s: Seq<char>, sep: Seq<char>) -> Seq<char> {
    match find(s, sep) {
        Some(i) => s.take(i),
        None => s,
    }
}

/// A metadata segment cut at the first separator and stripped of wrapping
/// whitespace and punctuation.
pub open spec fn truncate_segment_spec(value: Seq<char>) -> Seq<char> {
    let a = trim(value);
    let b = cut_at(a, " - "@);
    let c = cut_at(b, " | "@);
    let d = cut_at(c, " ["@);
    let e = cut_at(d, " ("@);
    let f = cut_at(e, " / "@);
    trim_by(f, TrimClass::MetadataPunct)
}

/// The narrator named after `marker`: the marker is looked for in the
/// lowercased title (`str::to_lowercase`), and the title is read from the
/// byte offset at which the marker ends there. When that offset is not a
/// character boundary of the title (where slicing the title panics), this
/// marker names no narrator.
pub open spec fn narrator_after(title: Seq<char>, marker: Seq<char>) -> Option<Seq<char>> {
    let lower = unicode_lowercase(title);
    match find(lower, marker) {
        Some(start) => match chars_in_bytes(title, (utf8_size(lower.take(start)) + utf8_size(marker)) as int) {
            Some(k) => {
                let n = truncate_segment_spec(title.skip(k));
                if n.len() > 0 {
                    Some(n)
                } else {
                    None
                }
            },
            None => None,
        },
        None => None,
    }
}

/// The narrator of a release title: the segment after "narrated by ", or else
/// after "read by ".
pub open spec fn parse_narrator_spec(title: Seq<char>) -> Option<Seq<char>> {
    match narrator_after(title, "narrated by "@) {
        Some(n) => Some(n),
        None => narrator_after(title, "read by "@),
    }
}

fn cut_at_exec(s: Vec<char>, sep: &str) -> (r: Vec<char>)
    ensures
        r@ == cut_at(s@, sep@),
{
    let sep_chars = chars_of(sep);
    match find_chars(&s, &sep_chars) {
        Some(i) => slice_chars(&s, 0, i),
        None => s,
    }
}

fn truncate_metadata_segment(value: &Vec<char>) -> (r: Vec<char>)
    ensures
        r@ == truncate_segment_spec(value@),
{
    let a = trim_chars(value);
    let b = cut_at_exec(a, " - ");
    let c = cut_at_exec(b, " | ");
    let d = cut_at_exec(c, " [");
    let e = cut_at_exec(d, " (");
    let f = cut_at_exec(e, " / ");
    trim_chars_by(&f, TrimClass::MetadataPunct)
}

fn narrator_after_exec(title: &Vec<char>, lower: &Vec<char>, marker: &str) -> (r: Option<String>)
    requires
        lower@ == unicode_lowercase(title@),
    ensures
        opt_view(r) == narrator_after(title@, marker@),
{
    let m = chars_of(marker);
    match find_chars(lower, &m) {
        Some(start) => {
            assert(occurs_at(lower@, m@, start as int));
            let before = utf8_prefix_size(lower, start);
            let marker_bytes = utf8_prefix_size(&m, m.len());
            proof {
                assert(m@.take(m.len() as int) =~= m@);
            }
            match chars_in_bytes_exec(title, before + marker_bytes) {
                Some(k) => {
                    let suffix = slice_chars(title, k, title.len());
                    assert(suffix@ =~= title@.skip(k as int));
                    let n = truncate_metadata_segment(&suffix);
                    if n.len() > 0 {
                        Some(string_from(&n))
                    } else {
                        None
                    }
                },
                None => None,
            }
        },
        None => None,
    }
}

fn parse_narrator(title: &str) -> (r: Option<String>)
    ensures
        opt_view(r) == parse_narrator_spec(title@),
{
    let t = chars_of(title);
    let lowered = to_lowercase(title);
    let lower = chars_of(lowered.as_str());
    match narrator_after_exec(&t, &lower, "narrated by ") {
        Some(n) => Some(n),
        None => narrator_after_exec(&t, &lower, "read by "),
    }
}

// ---------------------------------------------------------------------------
// Graphic audio
// ---------------------------------------------------------------------------

/// The lowercased title advertises a dramatised (graphic audio) production.
pub open spec fn is_graphic_audio_spec(title: Seq<char>) -> bool {
    let l = unicode_lowercase(title);
    ||| contains(l, "graphic audio"@)
    ||| contains(l, "graphicaudio"@)
    ||| contains(l, "dramatized adaptation"@)
    ||| contains(l, "dramatised adaptation"@)
}

fn is_graphic_audio(title: &str) -> (r: bool)
    ensures
        r == is_graphic_audio_spec(title@),
{
    let lowercase = to_lowercase(title);
    let l = lowercase.as_str();
    str_contains(l, "graphic audio") || str_contains(l, "graphicaudio") || str_contains(
        l,
        "dramatized adaptation",
    ) || str_contains(l, "dramatised adaptation")
}

// ---------------------------------------------------------------------------
// Language
// ---------------------------------------------------------------------------

/// Splitting state after reading `s`: finished tokens and the token in progress.
pub open spec fn token_state(s: Seq<char>) -> (Seq<Seq<char>>, Seq<char>)
    decreases s.len(),
{
    if s.len() == 0 {
        (Seq::empty(), Seq::empty())
    } else {
        let prev = token_state(s.drop_last());
        let c = s.last();
        if is_ascii_alnum(c) {
            (prev.0, prev.1.push(ascii_lower_char(c)))
        } else if prev.1.len() > 0 {
            (prev.0.push(prev.1), Seq::empty())
        } else {
            prev
        }
    }
}

/// The maximal runs of ASCII letters and digits in `s`, lowercased.
pub open spec fn tokens(s: Seq<char>) -> Seq<Seq<char>> {
    let st = token_state(s);
    if st.1.len() > 0 {
        st.0.push(st.1)
    } else {
        st.0
    }
}

/// The language code a token names, if any.
pub open spec fn canonical_lang(token: Seq<char>) -> Option<Seq<char>> {
    if token == "en"@ || token == "eng"@ || token == "english"@ {
        Some("en"@)
    } else if token == "es"@ || token == "spa"@ || token == "spanish"@ {
        Some("es"@)
    } else {
        None
    }
}

/// The language named by the first token that names one.
pub open spec fn first_language(toks: Seq<Seq<char>>) -> Option<Seq<char>>
    decreases toks.len(),
{
    if toks.len() == 0 {
        None
    } else {
        match canonical_lang(toks[0]) {
            Some(l) => Some(l),
            None => first_language(toks.drop_first()),
        }
    }
}

pub open spec fn detect_language_spec(title: Seq<char>) -> Option<Seq<char>> {
    first_language(tokens(title))
}

fn tokenize(value: &str) -> (r: Vec<String>)
    ensures
        views(r@) == tokens(value@),
{
    let v = chars_of(value);
    let mut done: Vec<String> = Vec::new();
    let mut cur: Vec<char> = Vec::new();
    let mut i: usize = 0;
    while i < v.len()
        invariant
            i <= v.len(),
            views(done@) == token_state(v@.take(i as int)).0,
            cur@ == token_state(v@.take(i as int)).1,
        decreases v.len() - i,
    {
        let c = v[i];
        assert(v@.take(i + 1).drop_last() =~= v@.take(i as int));
        if is_ascii_alphanumeric(c) {
            cur.push(to_ascii_lowercase_char(c));
        } else if cur.len() > 0 {
            let ghost old_done = done@;
            done.push(string_from(&cur));
            assert(views(done@) =~= views(old_done).push(cur@));
            cur = Vec::new();
        }
        i = i + 1;
    }
    assert(v@.take(v.len() as int) =~= v@);
    if cur.len() > 0 {
        let ghost old_done = done@;
        done.push(string_from(&cur));
        assert(views(done@) =~= views(old_done).push(cur@));
    }
    done
}

fn canonical_language_token(token: &str) -> (r: Option<&'static str>)
    ensures
        r matches Some(s) ==> canonical_lang(token@) == Some(s@),
        r is None ==> canonical_lang(token@) is None,
{
    if str_eq(token, "en") || str_eq(token, "eng") || str_eq(token, "english") {
        Some("en")
    } else if str_eq(token, "es") || str_eq(token, "spa") || str_eq(token, "spanish") {
        Some("es")
    } else {
        None
    }
}

fn detect_language(title: &str) -> (r: Option<String>)
    ensures
        opt_view(r) == detect_language_spec(title@),
{
    let toks = tokenize(title);
    let mut i: usize = 0;
    assert(views(toks@).skip(0) =~= views(toks@));
    while i < toks.len()
        invariant
            i <= toks.len(),
            detect_language_spec(title@) == first_language(views(toks@).skip(i as int)),
        decreases toks.len() - i,
    {
        assert(views(toks@).skip(i as int)[0] == toks@[i as int]@);
        assert(views(toks@).skip(i as int).drop_first() =~= views(toks@).skip(i + 1));
        match canonical_language_token(toks[i].as_str()) {
            Some(code) => {
                return Some(copy_str(code));
            },
            None => {},
        }
        i = i + 1;
    }
    None
}

/// A title is taken for graphic audio exactly when its lowercase form names
/// "graphic audio" (with or without the space) or a "dramatized" /
/// "dramatised" adaptation.
pub proof fn lemma_graphic_audio_markers(title: Seq<char>)
    ensures
        is_graphic_audio_spec(title) <==> (contains(unicode_lowercase(title), "graphic audio"@)
            || contains(unicode_lowercase(title), "graphicaudio"@) || contains(
            unicode_lowercase(title),
            "dramatized adaptation"@,
        ) || contains(unicode_lowercase(title), "dramatised adaptation"@)),
{
}

} // verus!
