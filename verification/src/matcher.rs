//! Scoring of release candidates against a request.
//!
//! Scores are fixed-point numbers in ten-thousandths: 10000 stands for 1.0.
use vstd::prelude::*;

use crate::domain::{
    requests::{MediaType, RequestRecord},
    search::{ReleaseCandidate, ScoredCandidate},
};
use crate::text::{
    ascii_lower_char, chars_of, contains, copy_str, is_ascii_alnum, is_ascii_alphanumeric,
    str_contains, to_ascii_lowercase_char, to_lowercase, unicode_lowercase, views,
};

verus! {

/// Points for a title match (0.50).
pub const TITLE_POINTS: i64 = 5000;

/// Points for an author match (0.25).
pub const AUTHOR_POINTS: i64 = 2500;

/// Points for a matching file format (0.20).
pub const FORMAT_POINTS: i64 = 2000;

/// Penalty when graphic audio is wanted but not advertised (0.30).
pub const GRAPHIC_AUDIO_PENALTY: i64 = 3000;

/// Score from which a candidate is acquired without review (0.90).
pub const AUTO_ACQUIRE_SCORE: i64 = 9000;

/// ASCII letters and digits of `s`, lowercased; everything else dropped.
pub open spec fn normalize_spec(s: Seq<char>) -> Seq<char>
    decreases s.len(),
{
    if s.len() == 0 {
        Seq::empty()
    } else {
        let rest = normalize_spec(s.drop_last());
        let c = ascii_lower_char(s.last());
        if is_ascii_alnum(c) {
            rest.push(c)
        } else {
            rest
        }
    }
}

pub open spec fn title_matches(request: RequestRecord, candidate: ReleaseCandidate) -> bool {
    contains(normalize_spec(candidate.title@), normalize_spec(request.title@))
}

pub open spec fn author_matches(request: RequestRecord, candidate: ReleaseCandidate) -> bool {
    contains(unicode_lowercase(candidate.title@), unicode_lowercase(request.author@))
}

pub open spec fn ebook_format_matches(request: RequestRecord, candidate: ReleaseCandidate) -> bool {
    let t = unicode_lowercase(candidate.title@);
    request.media_type == MediaType::Ebook && (contains(t, "epub"@) || contains(t, "pdf"@)
        || contains(t, "azw3"@))
}

pub open spec fn audio_format_matches(request: RequestRecord, candidate: ReleaseCandidate) -> bool {
    let t = unicode_lowercase(candidate.title@);
    request.media_type == MediaType::Audiobook && (contains(t, "m4b"@) || contains(t, "mp3"@)
        || contains(t, "audiobook"@))
}

pub open spec fn graphic_audio_missing(request: RequestRecord, candidate: ReleaseCandidate) -> bool {
    request.manifestation.graphic_audio && !contains(
        unicode_lowercase(candidate.title@),
        "graphicaudio"@,
    )
}

/// The score of `candidate` for `request`, in ten-thousandths.
pub open spec fn score_spec(request: RequestRecord, candidate: ReleaseCandidate) -> int {
    (if title_matches(request, candidate) {
        TITLE_POINTS as int
    } else {
        0
    }) + (if author_matches(request, candidate) {
        AUTHOR_POINTS as int
    } else {
        0
    }) + (if ebook_format_matches(request, candidate) {
        FORMAT_POINTS as int
    } else {
        0
    }) + (if audio_format_matches(request, candidate) {
        FORMAT_POINTS as int
    } else {
        0
    }) - (if graphic_audio_missing(request, candidate) {
        GRAPHIC_AUDIO_PENALTY as int
    } else {
        0
    })
}

pub open spec fn push_if(s: Seq<Seq<char>>, cond: bool, line: Seq<char>) -> Seq<Seq<char>> {
    if cond {
        s.push(line)
    } else {
        s
    }
}

/// The reasons given for the score, in the order they are checked.
pub open spec fn explanation_spec(request: RequestRecord, candidate: ReleaseCandidate) -> Seq<
    Seq<char>,
> {
    let e0 = push_if(Seq::empty(), title_matches(request, candidate), "title matched"@);
    let e1 = push_if(e0, author_matches(request, candidate), "author matched"@);
    let e2 = push_if(e1, ebook_format_matches(request, candidate), "ebook format matched"@);
    let e3 = push_if(e2, audio_format_matches(request, candidate), "audio format matched"@);
    push_if(
        e3,
        graphic_audio_missing(request, candidate),
        "graphic audio requested but candidate does not advertise it"@,
    )
}

pub fn score_candidate(request: &RequestRecord, candidate: &ReleaseCandidate) -> (r:
    ScoredCandidate)
    ensures
        r.score == score_spec(*request, *candidate),
        views(r.explanation@) == explanation_spec(*request, *candidate),
        r.auto_acquire == (r.score >= AUTO_ACQUIRE_SCORE),
{
    let mut score: i64 = 0;
    let mut explanation: Vec<String> = Vec::new();
    let candidate_title = to_lowercase(candidate.title.as_str());
    let ct = candidate_title.as_str();
    let normalized_candidate = normalize(candidate.title.as_str());
    let normalized_request_title = normalize(request.title.as_str());
    let title_hit = crate::text::contains_chars(&normalized_candidate, &normalized_request_title);
    if title_hit {
        score = score + TITLE_POINTS;
        explanation.push(copy_str("title matched"));
    }
    let ghost e0 = views(explanation@);
    let author_lower = to_lowercase(request.author.as_str());
    if str_contains(ct, author_lower.as_str()) {
        score = score + AUTHOR_POINTS;
        explanation.push(copy_str("author matched"));
    }
    assert(views(explanation@) =~= push_if(
        e0,
        author_matches(*request, *candidate),
        "author matched"@,
    ));
    let ghost e1 = views(explanation@);
    let is_ebook = match request.media_type {
        MediaType::Ebook => true,
        MediaType::Audiobook => false,
    };
    if is_ebook && (str_contains(ct, "epub") || str_contains(ct, "pdf") || str_contains(
        ct,
        "azw3",
    )) {
        score = score + FORMAT_POINTS;
        explanation.push(copy_str("ebook format matched"));
    }
    assert(views(explanation@) =~= push_if(
        e1,
        ebook_format_matches(*request, *candidate),
        "ebook format matched"@,
    ));
    let ghost e2 = views(explanation@);
    if !is_ebook && (str_contains(ct, "m4b") || str_contains(ct, "mp3") || str_contains(
        ct,
        "audiobook",
    )) {
        score = score + FORMAT_POINTS;
        explanation.push(copy_str("audio format matched"));
    }
    assert(views(explanation@) =~= push_if(
        e2,
        audio_format_matches(*request, *candidate),
        "audio format matched"@,
    ));
    let ghost e3 = views(explanation@);
    if request.manifestation.graphic_audio && !str_contains(ct, "graphicaudio") {
        score = score - GRAPHIC_AUDIO_PENALTY;
        explanation.push(copy_str("graphic audio requested but candidate does not advertise it"));
    }
    assert(views(explanation@) =~= push_if(
        e3,
        graphic_audio_missing(*request, *candidate),
        "graphic audio requested but candidate does not advertise it"@,
    ));
    ScoredCandidate { score, explanation, auto_acquire: score >= AUTO_ACQUIRE_SCORE }
}

/// ASCII letters and digits of `value`, lowercased.
pub fn normalize(value: &str) -> (r: Vec<char>)
    ensures
        r@ == normalize_spec(value@),
{
    let v = chars_of(value);
    let mut out: Vec<char> = Vec::new();
    let mut i: usize = 0;
    while i < v.len()
        invariant
            i <= v.len(),
            out@ == normalize_spec(v@.take(i as int)),
        decreases v.len() - i,
    {
        assert(v@.take(i + 1).drop_last() =~= v@.take(i as int));
        let c = to_ascii_lowercase_char(v[i]);
        if is_ascii_alphanumeric(c) {
            out.push(c);
        }
        i = i + 1;
    }
    assert(v@.take(v.len() as int) =~= v@);
    out
}

/// Scores lie between the penalty alone and every bonus at once, and only a
/// candidate that matches title, author and format without a penalty is
/// acquired automatically.
pub proof fn lemma_score_bounds(request: RequestRecord, candidate: ReleaseCandidate)
    ensures
        -GRAPHIC_AUDIO_PENALTY <= score_spec(request, candidate) <= TITLE_POINTS + AUTHOR_POINTS
            + FORMAT_POINTS,
        score_spec(request, candidate) >= AUTO_ACQUIRE_SCORE <==> (title_matches(
            request,
            candidate,
        ) && author_matches(request, candidate) && (ebook_format_matches(request, candidate)
            || audio_format_matches(request, candidate)) && !graphic_audio_missing(
            request,
            candidate,
        )),
{
}

proof fn lemma_push_if_contains(s: Seq<Seq<char>>, cond: bool, line: Seq<char>, x: Seq<char>)
    ensures
        push_if(s, cond, line).contains(x) <==> (s.contains(x) || (cond && line == x)),
{
    if cond {
        let t = s.push(line);
        if s.contains(x) {
            let k = choose|k: int| 0 <= k < s.len() && s[k] == x;
            assert(t[k] == x);
        }
        if t.contains(x) && !(line == x) {
            let k = choose|k: int| 0 <= k < t.len() && t[k] == x;
            assert(k < s.len());
            assert(s[k] == x);
        }
        if line == x {
            assert(t[s.len() as int] == x);
        }
    }
}

/// Why a candidate scores what it scores. Each reason is given exactly when
/// its condition holds on the lowercased candidate title: the request title
/// (ASCII letters and digits only) occurs in it; the request author occurs
/// in it; for an ebook request it names `epub`, `pdf` or `azw3`; for an
/// audiobook request it names `m4b`, `mp3` or `audiobook`; graphic audio is
/// wanted and `graphicaudio` is absent. The score is then 0.50, 0.25, 0.20,
/// 0.20 for the first four reasons given, less 0.30 for the last.
pub proof fn lemma_score_reasons(request: RequestRecord, candidate: ReleaseCandidate)
    ensures
        explanation_spec(request, candidate).contains("title matched"@) <==> contains(
            normalize_spec(candidate.title@),
            normalize_spec(request.title@),
        ),
        explanation_spec(request, candidate).contains("author matched"@) <==> contains(
            unicode_lowercase(candidate.title@),
            unicode_lowercase(request.author@),
        ),
        explanation_spec(request, candidate).contains("ebook format matched"@) <==> (
        request.media_type == MediaType::Ebook && (contains(
            unicode_lowercase(candidate.title@),
            "epub"@,
        ) || contains(unicode_lowercase(candidate.title@), "pdf"@) || contains(
            unicode_lowercase(candidate.title@),
            "azw3"@,
        ))),
        explanation_spec(request, candidate).contains("audio format matched"@) <==> (
        request.media_type == MediaType::Audiobook && (contains(
            unicode_lowercase(candidate.title@),
            "m4b"@,
        ) || contains(unicode_lowercase(candidate.title@), "mp3"@) || contains(
            unicode_lowercase(candidate.title@),
            "audiobook"@,
        ))),
        explanation_spec(request, candidate).contains(
            "graphic audio requested but candidate does not advertise it"@,
        ) <==> (request.manifestation.graphic_audio && !contains(
            unicode_lowercase(candidate.title@),
            "graphicaudio"@,
        )),
        score_spec(request, candidate) == (if explanation_spec(request, candidate).contains(
            "title matched"@,
        ) {
            5000int
        } else {
            0
        }) + (if explanation_spec(request, candidate).contains("author matched"@) {
            2500int
        } else {
            0
        }) + (if explanation_spec(request, candidate).contains("ebook format matched"@) {
            2000int
        } else {
            0
        }) + (if explanation_spec(request, candidate).contains("audio format matched"@) {
            2000int
        } else {
            0
        }) - (if explanation_spec(request, candidate).contains(
            "graphic audio requested but candidate does not advertise it"@,
        ) {
            3000int
        } else {
            0
        }),
{
    let l0 = "title matched"@;
    let l1 = "author matched"@;
    let l2 = "ebook format matched"@;
    let l3 = "audio format matched"@;
    let l4 = "graphic audio requested but candidate does not advertise it"@;
    reveal_strlit("title matched");
    reveal_strlit("author matched");
    reveal_strlit("ebook format matched");
    reveal_strlit("audio format matched");
    reveal_strlit("graphic audio requested but candidate does not advertise it");
    assert(l0.len() != l1.len() && l0.len() != l2.len() && l0.len() != l4.len());
    assert(l1.len() != l2.len() && l1.len() != l4.len() && l2.len() != l4.len());
    assert(l2[0] != l3[0]);
    assert(l0 != l3 && l1 != l3 && l3 != l4);
    let c0 = title_matches(request, candidate);
    let c1 = author_matches(request, candidate);
    let c2 = ebook_format_matches(request, candidate);
    let c3 = audio_format_matches(request, candidate);
    let c4 = graphic_audio_missing(request, candidate);
    let e0 = push_if(Seq::empty(), c0, l0);
    let e1 = push_if(e0, c1, l1);
    let e2 = push_if(e1, c2, l2);
    let e3 = push_if(e2, c3, l3);
    let e4 = push_if(e3, c4, l4);
    assert(e4 == explanation_spec(request, candidate));
    let lines = seq![l0, l1, l2, l3, l4];
    assert forall|k: int| 0 <= k < 5 implies (e4.contains(#[trigger] lines[k]) <==> (if k == 0 {
        c0
    } else if k == 1 {
        c1
    } else if k == 2 {
        c2
    } else if k == 3 {
        c3
    } else {
        c4
    })) by {
        let x = lines[k];
        lemma_push_if_contains(Seq::empty(), c0, l0, x);
        lemma_push_if_contains(e0, c1, l1, x);
        lemma_push_if_contains(e1, c2, l2, x);
        lemma_push_if_contains(e2, c3, l3, x);
        lemma_push_if_contains(e3, c4, l4, x);
    }
    assert(lines[0] == l0 && lines[1] == l1 && lines[2] == l2 && lines[3] == l3 && lines[4] == l4);
}

} // verus!
