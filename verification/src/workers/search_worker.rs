//! Decisions of the search worker: the query sent to indexers, which
//! candidates qualify and in what order, and what happens to a request after
//! a search.  The searches themselves and the dispatch are I/O done by the
//! caller.
use vstd::prelude::*;

use crate::domain::{
    requests::{MediaType, RequestRecord},
    search::{canonical_lang, ReleaseCandidate, ScoredCandidate},
    settings::PersistedRuntimeSettings,
};
use crate::db::requests::state_after_search;
use crate::matcher::{explanation_spec, score_candidate, score_spec, AUTO_ACQUIRE_SCORE};
use crate::text::{
    append_chars, ascii_lower, ascii_lowercase, chars_of, concat, contains, contains_chars, copy_str,
    opt_view, seq_eq, str_contains, str_eq, string_from, to_lowercase, trim, trim_chars,
    unicode_lowercase, views,
};

verus! {

/// Bonus for a candidate in the preferred language (0.05).
pub const LANGUAGE_POINTS: i64 = 500;

/// How many qualified candidates a review queue holds at most.
pub const REVIEW_QUEUE_LIMIT: usize = 10;

pub struct SearchWorker;

// ---------------------------------------------------------------------------
// Query
// ---------------------------------------------------------------------------

/// Trimmed title and author, the blank ones left out, separated by a space.
pub open spec fn query_spec(title: Seq<char>, author: Seq<char>) -> Seq<char> {
    let t = trim(title);
    let a = trim(author);
    if t.len() > 0 && a.len() > 0 {
        t + " "@ + a
    } else if t.len() > 0 {
        t
    } else {
        a
    }
}

/// The indexer query for a request: title and author only (no language,
/// format or narrator).
pub fn build_query(request: &RequestRecord) -> (r: String)
    ensures
        r@ == query_spec(request.title@, request.author@),
{
    let t = trim_chars(&chars_of(request.title.as_str()));
    let a = trim_chars(&chars_of(request.author.as_str()));
    if t.len() > 0 && a.len() > 0 {
        let mut out = t;
        let space = chars_of(" ");
        append_chars(&mut out, &space);
        append_chars(&mut out, &a);
        string_from(&out)
    } else if t.len() > 0 {
        string_from(&t)
    } else {
        string_from(&a)
    }
}

/// The search type Prowlarr expects for a media type.
pub fn search_media_type(media_type: MediaType) -> (r: &'static str)
    ensures
        r@ == match media_type {
            MediaType::Ebook => "book"@,
            MediaType::Audiobook => "audio"@,
        },
{
    match media_type {
        MediaType::Ebook => "book",
        MediaType::Audiobook => "audio",
    }
}

/// A synced indexer takes part in a search when no indexers are selected, or
/// when its Prowlarr id is one of the selected ones.
pub open spec fn indexer_selected_spec(selected: Seq<i32>, prowlarr_indexer_id: Option<i64>) -> bool {
    selected.len() == 0 || match prowlarr_indexer_id {
        Some(id) => exists|j: int| 0 <= j < selected.len() && selected[j] as int == id as int,
        None => false,
    }
}

pub fn indexer_is_selected(selected: &Vec<i32>, prowlarr_indexer_id: Option<i64>) -> (r: bool)
    ensures
        r == indexer_selected_spec(selected@, prowlarr_indexer_id),
{
    if selected.len() == 0 {
        return true;
    }
    let id = match prowlarr_indexer_id {
        Some(id) => id,
        None => {
            return false;
        },
    };
    let mut i: usize = 0;
    while i < selected.len()
        invariant
            i <= selected.len(),
            selected.len() > 0,
            prowlarr_indexer_id == Some(id),
            forall|j: int| 0 <= j < i ==> selected@[j] as int != id as int,
        decreases selected.len() - i,
    {
        if selected[i] as i64 == id {
            assert(selected@[i as int] as int == id as int);
            return true;
        }
        i = i + 1;
    }
    false
}

// ---------------------------------------------------------------------------
// Filters
// ---------------------------------------------------------------------------

/// The lowercased title contains one of the non-empty blocked terms.
pub open spec fn blocked_spec(title: Seq<char>, blocked_terms: Seq<Seq<char>>) -> bool {
    exists|i: int|
        0 <= i < blocked_terms.len() && blocked_terms[i].len() > 0 && contains(
            unicode_lowercase(title),
            #[trigger] blocked_terms[i],
        )
}

pub fn contains_blocked_term(candidate: &ReleaseCandidate, blocked_terms: &[String]) -> (r: bool)
    ensures
        r == blocked_spec(candidate.title@, views(blocked_terms@)),
{
    let title = to_lowercase(candidate.title.as_str());
    let mut i: usize = 0;
    while i < blocked_terms.len()
        invariant
            i <= blocked_terms.len(),
            title@ == unicode_lowercase(candidate.title@),
            forall|j: int|
                0 <= j < i ==> !(views(blocked_terms@)[j].len() > 0 && contains(
                    unicode_lowercase(candidate.title@),
                    #[trigger] views(blocked_terms@)[j],
                )),
        decreases blocked_terms.len() - i,
    {
        let term = blocked_terms[i].as_str();
        assert(views(blocked_terms@)[i as int] == term@);
        if !term.is_empty() && str_contains(title.as_str(), term) {
            return true;
        }
        i = i + 1;
    }
    false
}

/// A candidate passes the language filter when no language is preferred, when
/// its language is unknown, or when it is the preferred one.
pub open spec fn language_ok(detected: Option<Seq<char>>, preferred: Option<Seq<char>>) -> bool {
    match preferred {
        None => true,
        Some(p) => match detected {
            None => true,
            Some(d) => d == p,
        },
    }
}

pub fn language_matches(candidate: &ReleaseCandidate, preferred_language: Option<&str>) -> (r:
    bool)
    ensures
        r == language_ok(
            opt_view(candidate.detected_language),
            match preferred_language {
                Some(p) => Some(p@),
                None => None,
            },
        ),
{
    let preferred = match preferred_language {
        Some(p) => p,
        None => {
            return true;
        },
    };
    match &candidate.detected_language {
        None => true,
        Some(d) => str_eq(d.as_str(), preferred),
    }
}

/// Language codes for "en"/"eng"/"english" and "es"/"spa"/"spanish"; other
/// non-blank text is kept (trimmed, ASCII-lowercased).
pub open spec fn language_preference_spec(value: Seq<char>) -> Option<Seq<char>> {
    let t = ascii_lower(trim(value));
    match canonical_lang(t) {
        Some(code) => Some(code),
        None => if t.len() == 0 {
            None
        } else {
            Some(t)
        },
    }
}

pub fn normalize_language_preference(value: &str) -> (r: Option<String>)
    ensures
        opt_view(r) == language_preference_spec(value@),
{
    let t = ascii_lowercase(&trim_chars(&chars_of(value)));
    let s = string_from(&t);
    let v = s.as_str();
    if str_eq(v, "en") || str_eq(v, "eng") || str_eq(v, "english") {
        Some(copy_str("en"))
    } else if str_eq(v, "es") || str_eq(v, "spa") || str_eq(v, "spanish") {
        Some(copy_str("es"))
    } else if t.len() == 0 {
        None
    } else {
        Some(s)
    }
}

// ---------------------------------------------------------------------------
// Deduplication
// ---------------------------------------------------------------------------

/// Candidates are the same release when `source::external_id` agree.
pub open spec fn dedupe_key(c: ReleaseCandidate) -> Seq<char> {
    c.source@ + "::"@ + c.external_id@
}

/// The candidates with every later repeat of a key dropped.
pub open spec fn dedupe_spec(s: Seq<ReleaseCandidate>) -> Seq<ReleaseCandidate>
    decreases s.len(),
{
    if s.len() == 0 {
        Seq::empty()
    } else {
        let prev = dedupe_spec(s.drop_last());
        if exists|j: int| 0 <= j < s.len() - 1 && dedupe_key(#[trigger] s[j]) == dedupe_key(s.last()) {
            prev
        } else {
            prev.push(s.last())
        }
    }
}

fn candidate_key(c: &ReleaseCandidate) -> (r: Vec<char>)
    ensures
        r@ == dedupe_key(*c),
{
    let mut k = chars_of(c.source.as_str());
    append_chars(&mut k, &chars_of("::"));
    append_chars(&mut k, &chars_of(c.external_id.as_str()));
    k
}

pub fn dedupe_candidates(candidates: Vec<ReleaseCandidate>) -> (r: Vec<ReleaseCandidate>)
    ensures
        r@ == dedupe_spec(candidates@),
{
    let ghost all = candidates@;
    assert(all.len() == candidates.len());
    let mut rest = candidates;
    let mut seen: Vec<Vec<char>> = Vec::new();
    let mut unique: Vec<ReleaseCandidate> = Vec::new();
    let mut n: usize = 0;
    while rest.len() > 0
        invariant
            n + rest@.len() == all.len(),
            rest@ == all.skip(n as int),
            all.len() <= usize::MAX,
            unique@ == dedupe_spec(all.take(n as int)),
            seen@.len() == n,
            forall|j: int| 0 <= j < n ==> #[trigger] seen@[j]@ == dedupe_key(all[j]),
        decreases rest.len(),
    {
        let c = rest.remove(0);
        assert(c == all[n as int]);
        assert(all.take(n + 1).drop_last() =~= all.take(n as int));
        assert(all.take(n + 1).last() == all[n as int]);
        let key = candidate_key(&c);
        let mut found = false;
        let mut j: usize = 0;
        while j < seen.len()
            invariant
                j <= seen.len(),
                seen@.len() == n,
                n < all.len(),
                key@ == dedupe_key(all[n as int]),
                forall|k: int| 0 <= k < n ==> #[trigger] seen@[k]@ == dedupe_key(all[k]),
                found == exists|k: int|
                    0 <= k < j && dedupe_key(#[trigger] all[k]) == dedupe_key(all[n as int]),
            decreases seen.len() - j,
        {
            if seq_eq(&seen[j], &key) {
                found = true;
            }
            j = j + 1;
        }
        proof {
            let t = all.take(n + 1);
            assert forall|k: int| 0 <= k < t.len() - 1 implies #[trigger] t[k] == all[k] by {}
            if found {
                let k = choose|k: int|
                    0 <= k < n && dedupe_key(#[trigger] all[k]) == dedupe_key(all[n as int]);
                assert(t[k] == all[k]);
            }
        }
        if !found {
            unique.push(c);
        }
        seen.push(key);
        assert(rest@ =~= all.skip(n + 1));
        n = n + 1;
    }
    assert(all.take(all.len() as int) =~= all);
    unique
}

/// Candidates whose external id was rejected before are left out.
pub open spec fn not_rejected(s: Seq<ReleaseCandidate>, rejected: Seq<Seq<char>>) -> Seq<
    ReleaseCandidate,
>
    decreases s.len(),
{
    if s.len() == 0 {
        Seq::empty()
    } else {
        let prev = not_rejected(s.drop_last(), rejected);
        if rejected.contains(s.last().external_id@) {
            prev
        } else {
            prev.push(s.last())
        }
    }
}

pub fn retain_unrejected(candidates: Vec<ReleaseCandidate>, rejected: &Vec<String>) -> (r: Vec<
    ReleaseCandidate,
>)
    ensures
        r@ == not_rejected(candidates@, views(rejected@)),
{
    let ghost all = candidates@;
    assert(all.len() == candidates.len());
    let mut rest = candidates;
    let mut kept: Vec<ReleaseCandidate> = Vec::new();
    let mut n: usize = 0;
    while rest.len() > 0
        invariant
            n + rest@.len() == all.len(),
            rest@ == all.skip(n as int),
            all.len() <= usize::MAX,
            kept@ == not_rejected(all.take(n as int), views(rejected@)),
        decreases rest.len(),
    {
        let c = rest.remove(0);
        assert(all.take(n + 1).drop_last() =~= all.take(n as int));
        assert(all.take(n + 1).last() == all[n as int]);
        let mut hit = false;
        let mut j: usize = 0;
        while j < rejected.len()
            invariant
                j <= rejected.len(),
                hit == exists|k: int| 0 <= k < j && #[trigger] rejected@[k]@ == c.external_id@,
            decreases rejected.len() - j,
        {
            if str_eq(rejected[j].as_str(), c.external_id.as_str()) {
                hit = true;
            }
            j = j + 1;
        }
        proof {
            if hit {
                let k = choose|k: int| 0 <= k < rejected@.len() && #[trigger] rejected@[k]@
                    == c.external_id@;
                assert(views(rejected@)[k] == c.external_id@);
            }
            if views(rejected@).contains(c.external_id@) {
                let k = choose|k: int| 0 <= k < views(rejected@).len() && views(rejected@)[k]
                    == c.external_id@;
                assert(rejected@[k]@ == c.external_id@);
            }
        }
        if !hit {
            kept.push(c);
        }
        assert(rest@ =~= all.skip(n + 1));
        n = n + 1;
    }
    assert(all.take(all.len() as int) =~= all);
    kept
}

// ---------------------------------------------------------------------------
// Qualification and ranking
// ---------------------------------------------------------------------------

/// The language preference in force: the request's own when it has one,
/// else the configured one; normalized.
pub open spec fn effective_language(request: RequestRecord, settings: PersistedRuntimeSettings) -> Option<
    Seq<char>,
> {
    match request.preferred_language {
        Some(p) => language_preference_spec(p@),
        None => match settings.acquisition.preferred_language {
            Some(p) => language_preference_spec(p@),
            None => None,
        },
    }
}

pub open spec fn language_bonus(detected: Option<Seq<char>>, preferred: Option<Seq<char>>) -> bool {
    preferred is Some && detected == preferred
}

/// A candidate's final score: the matcher's score plus the language bonus.
pub open spec fn final_score(
    request: RequestRecord,
    preferred: Option<Seq<char>>,
    c: ReleaseCandidate,
) -> int {
    score_spec(request, c) + if language_bonus(opt_view(c.detected_language), preferred) {
        LANGUAGE_POINTS as int
    } else {
        0
    }
}

/// The full score record of a qualified candidate.
pub open spec fn scored_as(
    sc: ScoredCandidate,
    request: RequestRecord,
    preferred: Option<Seq<char>>,
    c: ReleaseCandidate,
) -> bool {
    &&& sc.score == final_score(request, preferred, c)
    &&& views(sc.explanation@) == if language_bonus(opt_view(c.detected_language), preferred) {
        explanation_spec(request, c).push("preferred language matched"@)
    } else {
        explanation_spec(request, c)
    }
    &&& sc.auto_acquire == (score_spec(request, c) >= AUTO_ACQUIRE_SCORE)
}

/// A candidate qualifies when it has no blocked term, passes the language
/// filter and reaches the minimum score.
pub open spec fn qualifies(
    request: RequestRecord,
    settings: PersistedRuntimeSettings,
    blocked: Seq<Seq<char>>,
    c: ReleaseCandidate,
) -> bool {
    let preferred = effective_language(request, settings);
    &&& !blocked_spec(c.title@, blocked)
    &&& language_ok(opt_view(c.detected_language), preferred)
    &&& final_score(request, preferred, c) >= settings.acquisition.minimum_score
}

pub open spec fn qualified_candidates(
    request: RequestRecord,
    settings: PersistedRuntimeSettings,
    blocked: Seq<Seq<char>>,
    s: Seq<ReleaseCandidate>,
) -> Seq<ReleaseCandidate>
    decreases s.len(),
{
    if s.len() == 0 {
        Seq::empty()
    } else {
        let prev = qualified_candidates(request, settings, blocked, s.drop_last());
        if qualifies(request, settings, blocked, s.last()) {
            prev.push(s.last())
        } else {
            prev
        }
    }
}

/// `x` inserted into a list ranked by descending `key`, after every element
/// whose key is at least as high (a stable insertion).
pub open spec fn insert_ranked(
    sorted: Seq<ReleaseCandidate>,
    x: ReleaseCandidate,
    key: spec_fn(ReleaseCandidate) -> int,
) -> Seq<ReleaseCandidate>
    decreases sorted.len(),
{
    if sorted.len() == 0 {
        seq![x]
    } else if key(sorted.last()) >= key(x) {
        sorted.push(x)
    } else {
        insert_ranked(sorted.drop_last(), x, key).push(sorted.last())
    }
}

/// A stable sort by descending `key`.
pub open spec fn rank(s: Seq<ReleaseCandidate>, key: spec_fn(ReleaseCandidate) -> int) -> Seq<
    ReleaseCandidate,
>
    decreases s.len(),
{
    if s.len() == 0 {
        Seq::empty()
    } else {
        insert_ranked(rank(s.drop_last(), key), s.last(), key)
    }
}

/// Ranking key of candidates: their final score.
pub open spec fn score_key(request: RequestRecord, preferred: Option<Seq<char>>) -> spec_fn(
    ReleaseCandidate,
) -> int {
    |c: ReleaseCandidate| final_score(request, preferred, c)
}

/// The blocked terms as compared: lowercased.
pub open spec fn lowered_terms(terms: Seq<String>) -> Seq<Seq<char>> {
    terms.map_values(|t: String| unicode_lowercase(t@))
}

/// What qualification yields: the qualifying candidates ranked by final
/// score, each with its score record.
pub open spec fn qualification_result(
    request: RequestRecord,
    settings: PersistedRuntimeSettings,
    candidates: Seq<ReleaseCandidate>,
    r: Seq<(ReleaseCandidate, ScoredCandidate)>,
) -> bool {
    let preferred = effective_language(request, settings);
    let blocked = lowered_terms(settings.acquisition.blocked_terms@);
    &&& r.map_values(|p: (ReleaseCandidate, ScoredCandidate)| p.0) == rank(
        qualified_candidates(request, settings, blocked, candidates),
        score_key(request, preferred),
    )
    &&& forall|i: int| 0 <= i < r.len() ==> scored_as(#[trigger] r[i].1, request, preferred, r[i].0)
}

proof fn lemma_insert_ranked_at(
    sorted: Seq<ReleaseCandidate>,
    x: ReleaseCandidate,
    key: spec_fn(ReleaseCandidate) -> int,
    j: int,
)
    requires
        0 <= j <= sorted.len(),
        j == 0 || key(sorted[j - 1]) >= key(x),
        forall|k: int| j <= k < sorted.len() ==> key(#[trigger] sorted[k]) < key(x),
    ensures
        insert_ranked(sorted, x, key) == sorted.take(j).push(x) + sorted.skip(j),
    decreases sorted.len(),
{
    if sorted.len() == 0 {
        assert(sorted.take(j).push(x) + sorted.skip(j) =~= seq![x]);
    } else if key(sorted.last()) >= key(x) {
        assert(j == sorted.len());
        assert(sorted.take(j).push(x) + sorted.skip(j) =~= sorted.push(x));
    } else {
        let d = sorted.drop_last();
        assert forall|k: int| j <= k < d.len() implies key(#[trigger] d[k]) < key(x) by {
            assert(d[k] == sorted[k]);
        }
        lemma_insert_ranked_at(d, x, key, j);
        assert(d.take(j).push(x) + d.skip(j) + seq![sorted.last()] =~= sorted.take(j).push(x)
            + sorted.skip(j));
    }
}

impl SearchWorker {
    /// Filters, scores and ranks candidates for a request.
    pub fn qualify_candidates(
        request: &RequestRecord,
        settings: &PersistedRuntimeSettings,
        candidates: Vec<ReleaseCandidate>,
    ) -> (r: Vec<(ReleaseCandidate, ScoredCandidate)>)
        ensures
            qualification_result(*request, *settings, candidates@, r@),
    {
        let ghost all = candidates@;
        assert(all.len() == candidates.len());
        let ghost preferred = effective_language(*request, *settings);
        let preferred_language: Option<String> = match &request.preferred_language {
            Some(p) => normalize_language_preference(p.as_str()),
            None => match &settings.acquisition.preferred_language {
                Some(p) => normalize_language_preference(p.as_str()),
                None => None,
            },
        };
        let mut blocked_terms: Vec<String> = Vec::new();
        let mut b: usize = 0;
        while b < settings.acquisition.blocked_terms.len()
            invariant
                b <= settings.acquisition.blocked_terms.len(),
                views(blocked_terms@) == lowered_terms(
                    settings.acquisition.blocked_terms@.take(b as int),
                ),
            decreases settings.acquisition.blocked_terms.len() - b,
        {
            let ghost terms = settings.acquisition.blocked_terms@;
            let ghost before = views(blocked_terms@);
            let lowered = to_lowercase(settings.acquisition.blocked_terms[b].as_str());
            assert(lowered@ == unicode_lowercase(terms[b as int]@));
            blocked_terms.push(lowered);
            assert(terms.take(b + 1) =~= terms.take(b as int).push(terms[b as int]));
            assert(lowered_terms(terms.take(b + 1)) =~= lowered_terms(terms.take(b as int)).push(
                unicode_lowercase(terms[b as int]@),
            ));
            assert(views(blocked_terms@) =~= before.push(lowered@));
            b = b + 1;
        }
        assert(settings.acquisition.blocked_terms@.take(b as int)
            =~= settings.acquisition.blocked_terms@);
        let ghost blocked = lowered_terms(settings.acquisition.blocked_terms@);
        let mut rest = candidates;
        let mut ranked: Vec<(ReleaseCandidate, ScoredCandidate)> = Vec::new();
        let mut n: usize = 0;
        while rest.len() > 0
            invariant
                n + rest@.len() == all.len(),
                rest@ == all.skip(n as int),
                all.len() <= usize::MAX,
                views(blocked_terms@) == blocked,
                blocked == lowered_terms(settings.acquisition.blocked_terms@),
                opt_view(preferred_language) == preferred,
                preferred == effective_language(*request, *settings),
                ranked@.map_values(|p: (ReleaseCandidate, ScoredCandidate)| p.0) == rank(
                    qualified_candidates(*request, *settings, blocked, all.take(n as int)),
                    score_key(*request, preferred),
                ),
                forall|i: int|
                    0 <= i < ranked@.len() ==> scored_as(
                        #[trigger] ranked@[i].1,
                        *request,
                        preferred,
                        ranked@[i].0,
                    ),
            decreases rest.len(),
        {
            let c = rest.remove(0);
            assert(c == all[n as int]);
            assert(all.take(n + 1).drop_last() =~= all.take(n as int));
            assert(all.take(n + 1).last() == all[n as int]);
            assert(rest@ =~= all.skip(n + 1));
            let pref_str: Option<&str> = match &preferred_language {
                Some(p) => Some(p.as_str()),
                None => None,
            };
            let keep = !contains_blocked_term(&c, blocked_terms.as_slice()) && language_matches(
                &c,
                pref_str,
            );
            let ghost q_prev = qualified_candidates(*request, *settings, blocked, all.take(n as int));
            assert(qualified_candidates(*request, *settings, blocked, all.take(n + 1)) == if qualifies(
                *request,
                *settings,
                blocked,
                c,
            ) {
                q_prev.push(c)
            } else {
                q_prev
            });
            assert(q_prev.push(c).drop_last() =~= q_prev);
            if keep {
                let mut scored = score_candidate(request, &c);
                let bonus = match (&preferred_language, &c.detected_language) {
                    (Some(p), Some(d)) => str_eq(p.as_str(), d.as_str()),
                    _ => false,
                };
                let ghost base_expl = views(scored.explanation@);
                if bonus {
                    scored.score = scored.score + LANGUAGE_POINTS;
                    scored.explanation.push(copy_str("preferred language matched"));
                    assert(views(scored.explanation@) =~= base_expl.push(
                        "preferred language matched"@,
                    ));
                }
                assert(scored_as(scored, *request, preferred, c));
                assert(qualifies(*request, *settings, blocked, c) == (scored.score
                    >= settings.acquisition.minimum_score));
                if scored.score >= settings.acquisition.minimum_score {
                    // stable insertion by descending score
                    let ghost before = ranked@.map_values(
                        |p: (ReleaseCandidate, ScoredCandidate)| p.0,
                    );
                    let mut j: usize = ranked.len();
                    while j > 0 && ranked[j - 1].1.score < scored.score
                        invariant
                            j <= ranked@.len(),
                            before == ranked@.map_values(
                                |p: (ReleaseCandidate, ScoredCandidate)| p.0,
                            ),
                            forall|i: int|
                                0 <= i < ranked@.len() ==> scored_as(
                                    #[trigger] ranked@[i].1,
                                    *request,
                                    preferred,
                                    ranked@[i].0,
                                ),
                            scored.score == final_score(*request, preferred, c),
                            forall|k: int| j <= k < before.len() ==> final_score(*request, preferred, #[trigger] before[k]) < final_score(*request, preferred, c),
                        decreases j,
                    {
                        assert(before[j - 1] == ranked@[j - 1].0);
                        assert(scored_as(ranked@[j - 1].1, *request, preferred, ranked@[j - 1].0));
                        assert(final_score(*request, preferred, before[j - 1]) < final_score(*request, preferred, c));
                        j = j - 1;
                    }
                    proof {
                        if j > 0 {
                            assert(before[j - 1] == ranked@[j - 1].0);
                        }
                        lemma_insert_ranked_at(before, c, score_key(*request, preferred), j as int);
                    }
                    ranked.insert(j, (c, scored));
                    assert(ranked@.map_values(|p: (ReleaseCandidate, ScoredCandidate)| p.0)
                        =~= before.take(j as int).push(c) + before.skip(j as int));
                }
            }
            n = n + 1;
        }
        assert(all.take(all.len() as int) =~= all);
        ranked
    }
}

// ---------------------------------------------------------------------------
// Outcome of a search
// ---------------------------------------------------------------------------

/// What the search worker does with the candidates it found for a request.
pub struct SearchDecision {
    /// How many candidates the search returned (after deduplication).
    pub candidates_seen: usize,
    /// The qualified candidates, best first.
    pub qualified: Vec<(ReleaseCandidate, ScoredCandidate)>,
    /// Whether the best candidate should be sent to the download client
    /// before falling back to the review queue.
    pub try_auto_acquire: bool,
}

/// The best candidate may be dispatched without review: it scores for
/// automatic acquisition, the request needs no approval, the candidate has a
/// download link and qBittorrent is enabled.
pub open spec fn auto_acquire_allowed(
    request: RequestRecord,
    settings: PersistedRuntimeSettings,
    qualified: Seq<(ReleaseCandidate, ScoredCandidate)>,
) -> bool {
    qualified.len() > 0 && qualified[0].1.auto_acquire && !request.requires_admin_approval
        && qualified[0].0.download_url is Some && settings.download_clients.qbittorrent.enabled
}

impl SearchWorker {
    /// Decides what follows a search: rejected candidates are dropped, the
    /// rest qualified and ranked, and automatic acquisition is attempted only
    /// when it is allowed.
    pub fn decide(
        request: &RequestRecord,
        settings: &PersistedRuntimeSettings,
        candidates: Vec<ReleaseCandidate>,
        rejected: &Vec<String>,
    ) -> (r: SearchDecision)
        ensures
            r.candidates_seen == candidates@.len(),
            qualification_result(
                *request,
                *settings,
                not_rejected(candidates@, views(rejected@)),
                r.qualified@,
            ),
            r.try_auto_acquire == auto_acquire_allowed(*request, *settings, r.qualified@),
    {
        let candidates_seen = candidates.len();
        let kept = retain_unrejected(candidates, rejected);
        let qualified = Self::qualify_candidates(request, settings, kept);
        let try_auto_acquire = qualified.len() > 0 && qualified[0].1.auto_acquire
            && !request.requires_admin_approval && qualified[0].0.download_url.is_some()
            && settings.download_clients.qbittorrent.enabled;
        SearchDecision { candidates_seen, qualified, try_auto_acquire }
    }
}

/// How many candidates go to the review queue: the qualified ones, at most
/// ten.
pub fn review_queue_size(qualified: usize) -> (r: usize)
    ensures
        r == if qualified < REVIEW_QUEUE_LIMIT {
            qualified
        } else {
            REVIEW_QUEUE_LIMIT
        },
{
    if qualified < REVIEW_QUEUE_LIMIT {
        qualified
    } else {
        REVIEW_QUEUE_LIMIT
    }
}

// ---------------------------------------------------------------------------
// After the search
// ---------------------------------------------------------------------------

/// How a search ends for the request.
#[derive(Clone, Copy, Debug, PartialEq, Eq)]
pub enum SearchCompletion {
    /// The search is recorded with an outcome (`auto_acquire` or
    /// `no_match`), the numbers of candidates seen and qualified, and the
    /// best score.
    Completed {
        outcome: &'static str,
        candidates_seen: usize,
        qualified_candidates: usize,
        top_score: Option<i64>,
    },
    /// The best candidates wait for review: how many were queued and the
    /// best score.
    ReviewQueued { queued: usize, top_score: Option<i64> },
}

/// A search that found nothing.
pub fn no_candidates_completion() -> (r: SearchCompletion)
    ensures
        r matches SearchCompletion::Completed { outcome, candidates_seen, qualified_candidates, top_score }
            && outcome@ == "no_match"@ && candidates_seen == 0 && qualified_candidates == 0
            && top_score is None,
{
    SearchCompletion::Completed {
        outcome: "no_match",
        candidates_seen: 0,
        qualified_candidates: 0,
        top_score: None,
    }
}

/// The best score among the qualified candidates (they are ranked best
/// first).
pub open spec fn top_score_spec(qualified: Seq<(ReleaseCandidate, ScoredCandidate)>) -> Option<i64> {
    if qualified.len() > 0 {
        Some(qualified[0].1.score)
    } else {
        None
    }
}

/// How a search with candidates ends. When the best candidate was handed to
/// the download client (`dispatched`, tried only when `try_auto_acquire`),
/// the search completes as `auto_acquire`; else, with nothing qualified, as
/// `no_match`; else the best ten wait for review.
pub open spec fn completion_spec(
    decision: SearchDecision,
    dispatched: bool,
    r: SearchCompletion,
) -> bool {
    if decision.try_auto_acquire && dispatched {
        r == SearchCompletion::Completed {
            outcome: r->outcome,
            candidates_seen: decision.candidates_seen,
            qualified_candidates: decision.qualified@.len() as usize,
            top_score: top_score_spec(decision.qualified@),
        } && r->outcome@ == "auto_acquire"@
    } else if decision.qualified@.len() == 0 {
        r == SearchCompletion::Completed {
            outcome: r->outcome,
            candidates_seen: decision.candidates_seen,
            qualified_candidates: 0,
            top_score: None,
        } && r->outcome@ == "no_match"@
    } else {
        r == SearchCompletion::ReviewQueued {
            queued: if decision.qualified@.len() < REVIEW_QUEUE_LIMIT {
                decision.qualified@.len() as usize
            } else {
                REVIEW_QUEUE_LIMIT
            },
            top_score: top_score_spec(decision.qualified@),
        }
    }
}

/// The end of a search with candidates. `dispatched` says whether the best
/// candidate was handed to the download client.
pub fn search_completion(decision: &SearchDecision, dispatched: bool) -> (r: SearchCompletion)
    ensures
        completion_spec(*decision, dispatched, r),
{
    let top_score = if decision.qualified.len() > 0 {
        Some(decision.qualified[0].1.score)
    } else {
        None
    };
    if decision.try_auto_acquire && dispatched {
        return SearchCompletion::Completed {
            outcome: "auto_acquire",
            candidates_seen: decision.candidates_seen,
            qualified_candidates: decision.qualified.len(),
            top_score,
        };
    }
    if decision.qualified.len() == 0 {
        return SearchCompletion::Completed {
            outcome: "no_match",
            candidates_seen: decision.candidates_seen,
            qualified_candidates: 0,
            top_score: None,
        };
    }
    SearchCompletion::ReviewQueued {
        queued: review_queue_size(decision.qualified.len()),
        top_score,
    }
}

/// The state a request is left in when its search ends as `c`.
pub open spec fn completion_state(c: SearchCompletion) -> Seq<char> {
    match c {
        SearchCompletion::Completed { outcome, .. } => state_after_search(outcome@),
        SearchCompletion::ReviewQueued { .. } => "review"@,
    }
}

/// The candidates put in the review queue when the search ends as `c`: the
/// first `queued` qualified ones, or none.
pub open spec fn review_queue_of(
    qualified: Seq<(ReleaseCandidate, ScoredCandidate)>,
    c: SearchCompletion,
) -> Seq<(ReleaseCandidate, ScoredCandidate)> {
    match c {
        SearchCompletion::Completed { .. } => Seq::empty(),
        SearchCompletion::ReviewQueued { queued, .. } => qualified.take(queued as int),
    }
}

/// Outcome of a search run: the request ends `queued` (dispatched), `review`
/// or `no_match`; it ends in review exactly when its review queue is not
/// empty; the queue holds at most ten candidates, the best qualified ones
/// ranked best first, none of them rejected before and none under the
/// minimum score.
pub proof fn lemma_search_outcome(
    request: RequestRecord,
    settings: PersistedRuntimeSettings,
    candidates: Seq<ReleaseCandidate>,
    rejected: Seq<Seq<char>>,
    decision: SearchDecision,
    dispatched: bool,
    c: SearchCompletion,
)
    requires
        qualification_result(
            request,
            settings,
            not_rejected(candidates, rejected),
            decision.qualified@,
        ),
        decision.try_auto_acquire == auto_acquire_allowed(request, settings, decision.qualified@),
        completion_spec(decision, dispatched, c),
    ensures
        completion_state(c) == "queued"@ || completion_state(c) == "review"@ || completion_state(c)
            == "no_match"@,
        (completion_state(c) == "queued"@) <==> (decision.try_auto_acquire && dispatched),
        (completion_state(c) == "review"@) <==> review_queue_of(decision.qualified@, c).len() > 0,
        review_queue_of(decision.qualified@, c).len() <= REVIEW_QUEUE_LIMIT,
        review_queue_of(decision.qualified@, c) == decision.qualified@.take(
            review_queue_of(decision.qualified@, c).len() as int,
        ),
        forall|i: int, j: int|
            0 <= i < j < review_queue_of(decision.qualified@, c).len() ==> #[trigger] review_queue_of(
                decision.qualified@,
                c,
            )[i].1.score >= #[trigger] review_queue_of(decision.qualified@, c)[j].1.score,
        forall|i: int|
            0 <= i < review_queue_of(decision.qualified@, c).len() ==> !rejected.contains(
                #[trigger] review_queue_of(decision.qualified@, c)[i].0.external_id@,
            ) && review_queue_of(decision.qualified@, c)[i].1.score
                >= settings.acquisition.minimum_score,
{
    reveal_strlit("auto_acquire");
    reveal_strlit("no_match");
    reveal_strlit("queued");
    reveal_strlit("review");
    assert("no_match"@.len() != "auto_acquire"@.len());
    assert("no_match"@[0] != "queued"@[0] && "no_match"@[0] != "review"@[0]);
    assert("queued"@[0] != "review"@[0]);
    let q = decision.qualified@;
    let rq = review_queue_of(q, c);
    lemma_qualified_ranked_best_first(request, settings, not_rejected(candidates, rejected), q);
    lemma_rejected_never_requalified(request, settings, candidates, rejected, q);
    if !(decision.try_auto_acquire && dispatched) && q.len() > 0 {
        assert(rq == q.take(rq.len() as int));
        assert forall|i: int| 0 <= i < rq.len() implies rq[i] == #[trigger] q[i] by {}
        assert forall|i: int, j: int| 0 <= i < j < rq.len() implies #[trigger] rq[i].1.score
            >= #[trigger] rq[j].1.score by {
            assert(rq[i] == q[i] && rq[j] == q[j]);
        }
        assert forall|i: int| 0 <= i < rq.len() implies !rejected.contains(
            #[trigger] rq[i].0.external_id@,
        ) && rq[i].1.score >= settings.acquisition.minimum_score by {
            assert(rq[i] == q[i]);
        }
    } else {
        assert(rq =~= q.take(0));
    }
}

/// The indexer name given to results of a directly searched indexer.
pub fn indexer_label(id: i64) -> (r: String)
    ensures
        r@ == "indexer-"@ + crate::numbers::decimal(id as int),
{
    let n = crate::numbers::i64_to_string(id);
    concat("indexer-", n.as_str())
}

/// Results of a directly searched indexer, each named after the indexer.
pub fn label_direct_results(candidates: Vec<ReleaseCandidate>, id: i64) -> (r: Vec<ReleaseCandidate>)
    ensures
        r@.len() == candidates@.len(),
        forall|i: int|
            0 <= i < r@.len() ==> (#[trigger] r@[i]).indexer@ == "indexer-"@
                + crate::numbers::decimal(id as int) && r@[i] == (ReleaseCandidate {
                indexer: r@[i].indexer,
                ..candidates@[i]
            }),
{
    let ghost orig = candidates@;
    let mut rest = candidates;
    let mut out: Vec<ReleaseCandidate> = Vec::new();
    while rest.len() > 0
        invariant
            out@.len() + rest@.len() == orig.len(),
            rest@ == orig.skip(out@.len() as int),
            forall|i: int|
                0 <= i < out@.len() ==> (#[trigger] out@[i]).indexer@ == "indexer-"@
                    + crate::numbers::decimal(id as int) && out@[i] == (ReleaseCandidate {
                    indexer: out@[i].indexer,
                    ..orig[i]
                }),
        decreases rest.len(),
    {
        let ghost k = out@.len();
        assert(rest@[0] == orig[k as int]);
        let c = rest.remove(0);
        let labelled = ReleaseCandidate { indexer: indexer_label(id), ..c };
        out.push(labelled);
        assert(rest@ =~= orig.skip(out@.len() as int));
    }
    out
}

// ---------------------------------------------------------------------------
// Laws
// ---------------------------------------------------------------------------

proof fn lemma_insert_ranked_bound(
    sorted: Seq<ReleaseCandidate>,
    x: ReleaseCandidate,
    key: spec_fn(ReleaseCandidate) -> int,
    b: int,
)
    requires
        forall|k: int| 0 <= k < sorted.len() ==> key(#[trigger] sorted[k]) >= b,
        key(x) >= b,
    ensures
        insert_ranked(sorted, x, key).len() == sorted.len() + 1,
        forall|k: int|
            0 <= k < insert_ranked(sorted, x, key).len() ==> key(
                #[trigger] insert_ranked(sorted, x, key)[k],
            ) >= b,
    decreases sorted.len(),
{
    if sorted.len() > 0 && key(sorted.last()) < key(x) {
        let d = sorted.drop_last();
        assert forall|k: int| 0 <= k < d.len() implies key(#[trigger] d[k]) >= b by {
            assert(d[k] == sorted[k]);
        }
        lemma_insert_ranked_bound(d, x, key, b);
        let r = insert_ranked(sorted, x, key);
        assert forall|k: int| 0 <= k < r.len() implies key(#[trigger] r[k]) >= b by {
            if k < r.len() - 1 {
                assert(r[k] == insert_ranked(d, x, key)[k]);
            }
        }
    }
}

/// Ranked lists are ordered by descending key.
pub open spec fn ranked_desc(s: Seq<ReleaseCandidate>, key: spec_fn(ReleaseCandidate) -> int) -> bool {
    forall|i: int, j: int| 0 <= i < j < s.len() ==> key(#[trigger] s[i]) >= key(#[trigger] s[j])
}

proof fn lemma_insert_ranked_sorted(
    sorted: Seq<ReleaseCandidate>,
    x: ReleaseCandidate,
    key: spec_fn(ReleaseCandidate) -> int,
)
    requires
        ranked_desc(sorted, key),
    ensures
        ranked_desc(insert_ranked(sorted, x, key), key),
        insert_ranked(sorted, x, key).to_multiset() == sorted.to_multiset().insert(x),
    decreases sorted.len(),
{
    broadcast use vstd::seq_lib::group_to_multiset_ensures;

    if sorted.len() == 0 {
        assert(seq![x] =~= Seq::<ReleaseCandidate>::empty().push(x));
    } else if key(sorted.last()) >= key(x) {
        let r = sorted.push(x);
        assert forall|i: int, j: int| 0 <= i < j < r.len() implies key(#[trigger] r[i]) >= key(
            #[trigger] r[j],
        ) by {
            if j == r.len() - 1 {
                assert(r[i] == sorted[i]);
                if i < sorted.len() - 1 {
                    assert(key(sorted[i]) >= key(sorted[sorted.len() - 1]));
                }
            } else {
                assert(r[i] == sorted[i] && r[j] == sorted[j]);
            }
        }
    } else {
        let d = sorted.drop_last();
        let last = sorted.last();
        assert(ranked_desc(d, key)) by {
            assert forall|i: int, j: int| 0 <= i < j < d.len() implies key(#[trigger] d[i]) >= key(
                #[trigger] d[j],
            ) by {
                assert(d[i] == sorted[i] && d[j] == sorted[j]);
            }
        }
        lemma_insert_ranked_sorted(d, x, key);
        assert forall|k: int| 0 <= k < d.len() implies key(#[trigger] d[k]) >= key(last) by {
            assert(d[k] == sorted[k]);
            assert(key(sorted[k]) >= key(sorted[sorted.len() - 1]));
        }
        lemma_insert_ranked_bound(d, x, key, key(last));
        let m = insert_ranked(d, x, key);
        let r = m.push(last);
        assert forall|i: int, j: int| 0 <= i < j < r.len() implies key(#[trigger] r[i]) >= key(
            #[trigger] r[j],
        ) by {
            if j == r.len() - 1 {
                assert(r[i] == m[i]);
            } else {
                assert(r[i] == m[i] && r[j] == m[j]);
            }
        }
        assert(sorted =~= d.push(last));
    }
}

/// Ranking orders by descending key and keeps every candidate.
pub proof fn lemma_rank_sorted(s: Seq<ReleaseCandidate>, key: spec_fn(ReleaseCandidate) -> int)
    ensures
        ranked_desc(rank(s, key), key),
        rank(s, key).to_multiset() == s.to_multiset(),
    decreases s.len(),
{
    broadcast use vstd::seq_lib::group_to_multiset_ensures;

    if s.len() > 0 {
        lemma_rank_sorted(s.drop_last(), key);
        lemma_insert_ranked_sorted(rank(s.drop_last(), key), s.last(), key);
        assert(s =~= s.drop_last().push(s.last()));
    }
}

proof fn lemma_qualified_all_qualify(
    request: RequestRecord,
    settings: PersistedRuntimeSettings,
    blocked: Seq<Seq<char>>,
    s: Seq<ReleaseCandidate>,
)
    ensures
        forall|c: ReleaseCandidate|
            qualified_candidates(request, settings, blocked, s).to_multiset().contains(c) ==> qualifies(
                request,
                settings,
                blocked,
                c,
            ),
    decreases s.len(),
{
    broadcast use vstd::seq_lib::group_to_multiset_ensures;

    if s.len() > 0 {
        lemma_qualified_all_qualify(request, settings, blocked, s.drop_last());
    }
}

/// The qualified candidates come best first, and each of them passed the
/// filters and reached the minimum score.
pub proof fn lemma_qualified_ranked_best_first(
    request: RequestRecord,
    settings: PersistedRuntimeSettings,
    candidates: Seq<ReleaseCandidate>,
    r: Seq<(ReleaseCandidate, ScoredCandidate)>,
)
    requires
        qualification_result(request, settings, candidates, r),
    ensures
        forall|i: int, j: int| 0 <= i < j < r.len() ==> #[trigger] r[i].1.score >= #[trigger] r[j].1.score,
        forall|i: int|
            0 <= i < r.len() ==> qualifies(
                request,
                settings,
                lowered_terms(settings.acquisition.blocked_terms@),
                #[trigger] r[i].0,
            ) && r[i].1.score >= settings.acquisition.minimum_score,
{
    broadcast use vstd::seq_lib::group_to_multiset_ensures;

    let preferred = effective_language(request, settings);
    let blocked = lowered_terms(settings.acquisition.blocked_terms@);
    let key = score_key(request, preferred);
    let q = qualified_candidates(request, settings, blocked, candidates);
    let firsts = r.map_values(|p: (ReleaseCandidate, ScoredCandidate)| p.0);
    lemma_rank_sorted(q, key);
    lemma_qualified_all_qualify(request, settings, blocked, candidates);
    assert forall|i: int, j: int| 0 <= i < j < r.len() implies #[trigger] r[i].1.score
        >= #[trigger] r[j].1.score by {
        assert(firsts[i] == r[i].0 && firsts[j] == r[j].0);
        assert(scored_as(r[i].1, request, preferred, r[i].0));
        assert(scored_as(r[j].1, request, preferred, r[j].0));
        assert(key(firsts[i]) >= key(firsts[j]));
    }
    assert forall|i: int| 0 <= i < r.len() implies qualifies(
        request,
        settings,
        blocked,
        #[trigger] r[i].0,
    ) && r[i].1.score >= settings.acquisition.minimum_score by {
        assert(firsts[i] == r[i].0);
        assert(rank(q, key).to_multiset().contains(firsts[i]));
        assert(scored_as(r[i].1, request, preferred, r[i].0));
    }
}

/// The language bonus: a qualified candidate whose detected language is the
/// preferred language in force scores exactly 0.05 more than the matcher
/// gives it, and every other exactly what the matcher gives it; a candidate
/// with a higher score is ranked ahead, so of two candidates the matcher
/// scores alike, the one in the preferred language comes first.
pub proof fn lemma_language_bonus_ranks_ahead(
    request: RequestRecord,
    settings: PersistedRuntimeSettings,
    candidates: Seq<ReleaseCandidate>,
    r: Seq<(ReleaseCandidate, ScoredCandidate)>,
)
    requires
        qualification_result(request, settings, candidates, r),
    ensures
        forall|i: int|
            0 <= i < r.len() ==> #[trigger] r[i].1.score == score_spec(request, r[i].0) + (if (
            effective_language(request, settings) is Some && opt_view(r[i].0.detected_language)
                == effective_language(request, settings)) {
                500int
            } else {
                0int
            }),
        forall|i: int, j: int|
            0 <= i < r.len() && 0 <= j < r.len() && #[trigger] r[i].1.score > #[trigger] r[j].1.score
                ==> i < j,
        forall|i: int, j: int|
            0 <= i < r.len() && 0 <= j < r.len() && score_spec(request, #[trigger] r[i].0)
                == score_spec(request, #[trigger] r[j].0) && effective_language(request, settings)
                is Some && opt_view(r[i].0.detected_language) == effective_language(request, settings)
                && opt_view(r[j].0.detected_language) != effective_language(request, settings)
                ==> i < j,
{
    let preferred = effective_language(request, settings);
    lemma_qualified_ranked_best_first(request, settings, candidates, r);
    assert forall|i: int| 0 <= i < r.len() implies #[trigger] r[i].1.score == score_spec(
        request,
        r[i].0,
    ) + (if (preferred is Some && opt_view(r[i].0.detected_language) == preferred) {
        500int
    } else {
        0int
    }) by {
        assert(scored_as(r[i].1, request, preferred, r[i].0));
    }
    assert forall|i: int, j: int|
        0 <= i < r.len() && 0 <= j < r.len() && #[trigger] r[i].1.score > #[trigger] r[j].1.score
            implies i < j by {
        if j < i {
            assert(r[j].1.score >= r[i].1.score);
        }
    }
    assert forall|i: int, j: int|
        0 <= i < r.len() && 0 <= j < r.len() && score_spec(request, #[trigger] r[i].0)
            == score_spec(request, #[trigger] r[j].0) && preferred is Some && opt_view(
            r[i].0.detected_language,
        ) == preferred && opt_view(r[j].0.detected_language) != preferred implies i < j by {
        assert(scored_as(r[i].1, request, preferred, r[i].0));
        assert(scored_as(r[j].1, request, preferred, r[j].0));
        assert(r[i].1.score > r[j].1.score);
        if j < i {
            assert(r[j].1.score >= r[i].1.score);
        }
    }
}

proof fn lemma_qualified_from(
    request: RequestRecord,
    settings: PersistedRuntimeSettings,
    blocked: Seq<Seq<char>>,
    s: Seq<ReleaseCandidate>,
)
    ensures
        forall|c: ReleaseCandidate|
            qualified_candidates(request, settings, blocked, s).to_multiset().contains(c)
                ==> s.contains(c),
    decreases s.len(),
{
    broadcast use vstd::seq_lib::group_to_multiset_ensures;

    if s.len() > 0 {
        let d = s.drop_last();
        lemma_qualified_from(request, settings, blocked, d);
        assert forall|c: ReleaseCandidate|
            qualified_candidates(request, settings, blocked, s).to_multiset().contains(
                c,
            ) implies s.contains(c) by {
            if c != s.last() {
                assert(qualified_candidates(request, settings, blocked, d).to_multiset().contains(c));
                assert(d.contains(c));
                let j = choose|j: int| 0 <= j < d.len() && d[j] == c;
                assert(s[j] == d[j]);
            } else {
                assert(s[s.len() - 1] == c);
            }
        }
    }
}

proof fn lemma_not_rejected_kept(s: Seq<ReleaseCandidate>, rejected: Seq<Seq<char>>)
    ensures
        forall|c: ReleaseCandidate|
            not_rejected(s, rejected).contains(c) ==> !rejected.contains(c.external_id@),
    decreases s.len(),
{
    if s.len() > 0 {
        let d = s.drop_last();
        lemma_not_rejected_kept(d, rejected);
        let prev = not_rejected(d, rejected);
        assert forall|c: ReleaseCandidate| not_rejected(s, rejected).contains(c) implies !rejected.contains(
            c.external_id@,
        ) by {
            let n = not_rejected(s, rejected);
            let k = choose|k: int| 0 <= k < n.len() && n[k] == c;
            if rejected.contains(s.last().external_id@) {
                assert(n == prev);
                assert(prev.contains(c));
            } else {
                assert(n == prev.push(s.last()));
                if k < prev.len() {
                    assert(prev[k] == n[k]);
                    assert(prev.contains(c));
                } else {
                    assert(c == s.last());
                }
            }
        }
    }
}

/// A candidate whose release was rejected for a request is never qualified
/// for it again: it is neither queued for review nor acquired.
pub proof fn lemma_rejected_never_requalified(
    request: RequestRecord,
    settings: PersistedRuntimeSettings,
    candidates: Seq<ReleaseCandidate>,
    rejected: Seq<Seq<char>>,
    r: Seq<(ReleaseCandidate, ScoredCandidate)>,
)
    requires
        qualification_result(request, settings, not_rejected(candidates, rejected), r),
    ensures
        forall|i: int| 0 <= i < r.len() ==> !rejected.contains(#[trigger] r[i].0.external_id@),
{
    broadcast use vstd::seq_lib::group_to_multiset_ensures;

    let preferred = effective_language(request, settings);
    let blocked = lowered_terms(settings.acquisition.blocked_terms@);
    let key = score_key(request, preferred);
    let kept = not_rejected(candidates, rejected);
    let q = qualified_candidates(request, settings, blocked, kept);
    let firsts = r.map_values(|p: (ReleaseCandidate, ScoredCandidate)| p.0);
    lemma_rank_sorted(q, key);
    lemma_qualified_from(request, settings, blocked, kept);
    lemma_not_rejected_kept(candidates, rejected);
    assert forall|i: int| 0 <= i < r.len() implies !rejected.contains(
        #[trigger] r[i].0.external_id@,
    ) by {
        assert(firsts[i] == r[i].0);
        assert(rank(q, key).to_multiset().contains(firsts[i]));
        assert(kept.contains(r[i].0));
    }
}

proof fn lemma_dedupe_from(s: Seq<ReleaseCandidate>)
    ensures
        forall|k: int|
            0 <= k < dedupe_spec(s).len() ==> exists|j: int|
                0 <= j < s.len() && #[trigger] dedupe_spec(s)[k] == s[j],
    decreases s.len(),
{
    if s.len() > 0 {
        let d = s.drop_last();
        lemma_dedupe_from(d);
        let r = dedupe_spec(s);
        assert forall|k: int| 0 <= k < r.len() implies exists|j: int|
            0 <= j < s.len() && #[trigger] r[k] == s[j] by {
            if k < dedupe_spec(d).len() {
                assert(r[k] == dedupe_spec(d)[k]);
                let j = choose|j: int| 0 <= j < d.len() && dedupe_spec(d)[k] == d[j];
                assert(d[j] == s[j]);
            } else {
                assert(r[k] == s[s.len() - 1]);
            }
        }
    }
}

/// After deduplication no two candidates are the same release.
pub proof fn lemma_dedupe_unique(s: Seq<ReleaseCandidate>)
    ensures
        forall|i: int, j: int|
            0 <= i < j < dedupe_spec(s).len() ==> dedupe_key(#[trigger] dedupe_spec(s)[i])
                != dedupe_key(#[trigger] dedupe_spec(s)[j]),
    decreases s.len(),
{
    if s.len() > 0 {
        let d = s.drop_last();
        lemma_dedupe_unique(d);
        lemma_dedupe_from(d);
        let r = dedupe_spec(s);
        let p = dedupe_spec(d);
        assert forall|i: int, j: int| 0 <= i < j < r.len() implies dedupe_key(#[trigger] r[i])
            != dedupe_key(#[trigger] r[j]) by {
            if j < p.len() {
                assert(r[i] == p[i] && r[j] == p[j]);
            } else {
                assert(r[j] == s.last());
                assert(r[i] == p[i]);
                let k = choose|k: int| 0 <= k < d.len() && p[i] == d[k];
                assert(d[k] == s[k]);
                if dedupe_key(r[i]) == dedupe_key(r[j]) {
                    assert(dedupe_key(s[k]) == dedupe_key(s.last()));
                }
            }
        }
    }
}

} // verus!
