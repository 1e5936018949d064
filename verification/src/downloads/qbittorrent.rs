//! qBittorrent's Web API: the addresses and forms a client uses, and how the
//! torrents it lists are read.
use vstd::prelude::*;

use crate::numbers::{decimal, i64_to_string};
use crate::text::{
    chars_of, concat, copy_str, is_blank, split, split_chars, str_eq, string_from, trim,
    trim_chars, trim_end_matches, trim_end_matches_str, trim_str,
};
use crate::urls::{
    parsed_url_host, parsed_url_port, parsed_url_scheme, url_origin_parts, url_parses,
};

verus! {

/// A torrent as qBittorrent lists it. `progress` is in ten-thousandths
/// (10000 is a finished download).
#[derive(Clone, Debug, PartialEq, Eq)]
pub struct QbittorrentTorrent {
    pub hash: String,
    pub name: String,
    pub category: String,
    pub tags: String,
    pub progress: i64,
    pub state: String,
    pub content_path: String,
    pub save_path: String,
}

/// The comma-separated tags, one of which is `tag` once trimmed.
pub open spec fn has_tag_spec(tags: Seq<char>, tag: Seq<char>) -> bool {
    exists|i: int| 0 <= i < split(tags, ',').len() && trim(#[trigger] split(tags, ',')[i]) == tag
}

/// States in which qBittorrent is seeding a finished download.
pub open spec fn seeding_state(state: Seq<char>) -> bool {
    state == "pausedUP"@ || state == "stoppedUP"@ || state == "uploading"@ || state == "stalledUP"@
        || state == "queuedUP"@ || state == "forcedUP"@
}

/// The download is finished: a seeding state, or full progress in any known
/// state but the check after completion.
pub open spec fn completed_spec(t: QbittorrentTorrent) -> bool {
    seeding_state(t.state@) || (t.progress >= 10000 && t.state@.len() > 0 && t.state@
        != "checkingUP"@)
}

/// Where the payload lies: the content path, else the save path (each when
/// not blank).
pub open spec fn content_root_spec(t: QbittorrentTorrent) -> Result<Seq<char>, Seq<char>> {
    if trim(t.content_path@).len() > 0 {
        Ok(t.content_path@)
    } else if trim(t.save_path@).len() > 0 {
        Ok(t.save_path@)
    } else {
        Err("qBittorrent torrent "@ + t.hash@ + " did not include a content path"@)
    }
}

impl QbittorrentTorrent {
    pub fn has_tag(&self, tag: &str) -> (r: bool)
        ensures
            r == has_tag_spec(self.tags@, tag@),
    {
        let chars = chars_of(self.tags.as_str());
        let pieces = split_chars(&chars, ',');
        let want = chars_of(tag);
        let ghost pv = pieces@.map_values(|p: Vec<char>| p@);
        let mut i: usize = 0;
        while i < pieces.len()
            invariant
                i <= pieces.len(),
                pv == pieces@.map_values(|p: Vec<char>| p@),
                pv == split(self.tags@, ','),
                want@ == tag@,
                forall|j: int| 0 <= j < i ==> trim(#[trigger] pv[j]) != tag@,
            decreases pieces.len() - i,
        {
            let t = trim_chars(&pieces[i]);
            assert(pv[i as int] == pieces@[i as int]@);
            if crate::text::seq_eq(&t, &want) {
                return true;
            }
            i = i + 1;
        }
        false
    }

    pub fn is_completed(&self) -> (r: bool)
        ensures
            r == completed_spec(*self),
    {
        let s = self.state.as_str();
        let seeding = str_eq(s, "pausedUP") || str_eq(s, "stoppedUP") || str_eq(s, "uploading")
            || str_eq(s, "stalledUP") || str_eq(s, "queuedUP") || str_eq(s, "forcedUP");
        seeding || (self.progress >= 10000 && chars_of(s).len() > 0 && !str_eq(s, "checkingUP"))
    }

    pub fn content_root(&self) -> (r: Result<&str, String>)
        ensures
            match r {
                Ok(p) => content_root_spec(*self) == Ok::<Seq<char>, Seq<char>>(p@),
                Err(e) => content_root_spec(*self) == Err::<Seq<char>, Seq<char>>(e@),
            },
    {
        if !is_blank(self.content_path.as_str()) {
            return Ok(self.content_path.as_str());
        }
        if !is_blank(self.save_path.as_str()) {
            return Ok(self.save_path.as_str());
        }
        let a = concat("qBittorrent torrent ", self.hash.as_str());
        Err(concat(a.as_str(), " did not include a content path"))
    }
}

/// The finished torrents tagged with the request, in listed order.
pub open spec fn completed_for_tag_spec(torrents: Seq<QbittorrentTorrent>, tag: Seq<char>) -> Seq<
    QbittorrentTorrent,
> {
    torrents.filter(|t: QbittorrentTorrent| has_tag_spec(t.tags@, tag) && completed_spec(t))
}

pub fn completed_for_tag(torrents: Vec<QbittorrentTorrent>, request_id: &str) -> (r: Vec<
    QbittorrentTorrent,
>)
    ensures
        r@ == completed_for_tag_spec(torrents@, request_id@),
{
    let ghost all = torrents@;
    let n = torrents.len();
    let mut rest = torrents;
    let mut out: Vec<QbittorrentTorrent> = Vec::new();
    let mut i: usize = 0;
    while rest.len() > 0
        invariant
            i + rest@.len() == all.len(),
            n == all.len(),
            rest@ == all.skip(i as int),
            out@ == completed_for_tag_spec(all.take(i as int), request_id@),
        decreases rest.len(),
    {
        assert(all.take(i + 1).drop_last() =~= all.take(i as int));
        assert(all.take(i + 1).last() == all[i as int]);
        assert(rest@[0] == all[i as int]);
        reveal(Seq::filter);
        let t = rest.remove(0);
        if t.has_tag(request_id) && t.is_completed() {
            out.push(t);
        }
        i = i + 1;
        assert(rest@ =~= all.skip(i as int));
    }
    assert(all.take(all.len() as int) =~= all);
    out
}

/// The first finished torrent tagged with the request.
pub open spec fn first_completed_spec(torrents: Seq<QbittorrentTorrent>, tag: Seq<char>) -> Option<
    int,
>
    decreases torrents.len(),
{
    if torrents.len() == 0 {
        None
    } else if has_tag_spec(torrents[0].tags@, tag) && completed_spec(torrents[0]) {
        Some(0)
    } else {
        match first_completed_spec(torrents.drop_first(), tag) {
            Some(i) => Some(i + 1),
            None => None,
        }
    }
}

pub fn find_completed(torrents: &Vec<QbittorrentTorrent>, request_id: &str) -> (r: Option<usize>)
    ensures
        match r {
            Some(i) => first_completed_spec(torrents@, request_id@) == Some(i as int) && i
                < torrents.len(),
            None => first_completed_spec(torrents@, request_id@) is None,
        },
{
    let mut i: usize = 0;
    assert(torrents@.skip(0) =~= torrents@);
    while i < torrents.len()
        invariant
            i <= torrents.len(),
            first_completed_spec(torrents@, request_id@) == match first_completed_spec(
                torrents@.skip(i as int),
                request_id@,
            ) {
                Some(k) => Some(k + i),
                None => None,
            },
        decreases torrents.len() - i,
    {
        assert(torrents@.skip(i as int).drop_first() =~= torrents@.skip(i + 1));
        assert(torrents@.skip(i as int)[0] == torrents@[i as int]);
        if torrents[i].has_tag(request_id) && torrents[i].is_completed() {
            return Some(i);
        }
        i = i + 1;
    }
    assert(torrents@.skip(i as int) =~= Seq::<QbittorrentTorrent>::empty());
    None
}

// ---------------------------------------------------------------------------
// The client
// ---------------------------------------------------------------------------

/// Where and as whom requests go to qBittorrent, and the origin they claim.
#[derive(Clone, Debug, PartialEq, Eq)]
pub struct QbittorrentClient {
    pub base_url: String,
    pub username: String,
    pub password: String,
    pub origin: String,
}

impl QbittorrentClient {
    /// A client of the server at `base_url` (kept without trailing slashes);
    /// nothing when that URL has no origin, where no client can be built.
    pub fn new(base_url: &str, username: &str, password: &str) -> (r: Option<Self>)
        ensures
            match r {
                Some(c) => {
                    &&& c.base_url@ == trim_end_matches(base_url@, '/')
                    &&& c.username@ == username@
                    &&& c.password@ == password@
                    &&& origin_spec(trim_end_matches(base_url@, '/')) == Some(c.origin@)
                },
                None => origin_spec(trim_end_matches(base_url@, '/')) is None,
            },
    {
        let base = client_base_url(base_url);
        match origin_from_url(base.as_str()) {
            Some(origin) => Some(
                QbittorrentClient {
                    base_url: base,
                    username: copy_str(username),
                    password: copy_str(password),
                    origin,
                },
            ),
            None => None,
        }
    }

    /// An endpoint of the API.
    pub fn api_url(&self, path: &str) -> (r: String)
        ensures
            r@ == self.base_url@ + path@,
    {
        api_url(self.base_url.as_str(), path)
    }
}

/// The base URL the client keeps: without trailing slashes.
pub fn client_base_url(base_url: &str) -> (r: String)
    ensures
        r@ == trim_end_matches(base_url@, '/'),
{
    trim_end_matches_str(base_url, '/')
}

/// An endpoint under the base URL.
pub fn api_url(base_url: &str, path: &str) -> (r: String)
    ensures
        r@ == base_url@ + path@,
{
    concat(base_url, path)
}

/// The origin qBittorrent checks requests against: scheme, host and the
/// explicit port if any; nothing when the URL does not parse or has no host
/// (where the client cannot be built).
pub open spec fn origin_spec(base_url: Seq<char>) -> Option<Seq<char>> {
    if !url_parses(base_url) {
        None
    } else {
        match parsed_url_host(base_url) {
            None => None,
            Some(host) => Some(
                parsed_url_scheme(base_url) + "://"@ + host + match parsed_url_port(base_url) {
                    Some(port) => seq![':'] + decimal(port as int),
                    None => Seq::empty(),
                },
            ),
        }
    }
}

pub fn origin_from_url(base_url: &str) -> (r: Option<String>)
    ensures
        match r {
            Some(o) => origin_spec(base_url@) == Some(o@),
            None => origin_spec(base_url@) is None,
        },
{
    let parts = match url_origin_parts(base_url) {
        Some(p) => p,
        None => {
            return None;
        },
    };
    let host = match parts.host {
        Some(h) => h,
        None => {
            return None;
        },
    };
    let a = concat(parts.scheme.as_str(), "://");
    let b = concat(a.as_str(), host.as_str());
    match parts.port {
        Some(port) => {
            let c = concat(b.as_str(), ":");
            let p = i64_to_string(port as i64);
            let r = concat(c.as_str(), p.as_str());
            proof {
                reveal_strlit(":");
            }
            assert(r@ =~= parsed_url_scheme(base_url@) + "://"@ + host@ + (seq![':'] + decimal(
                port as int,
            )));
            Some(r)
        },
        None => {
            assert(b@ =~= parsed_url_scheme(base_url@) + "://"@ + host@ + Seq::<char>::empty());
            Some(b)
        },
    }
}

/// The referer sent with every request: the origin and a slash.
pub fn referer_for(origin: &str) -> (r: String)
    ensures
        r@ == origin@ + "/"@,
{
    concat(origin, "/")
}

/// The answer to a login: an empty body or `Ok.` (trimmed) is a success.
pub open spec fn login_result_spec(body: Seq<char>) -> Result<(), Seq<char>> {
    if trim(body).len() == 0 || trim(body) == "Ok."@ {
        Ok(())
    } else {
        Err("qBittorrent login failed: "@ + trim(body))
    }
}

pub fn check_login_response(body: &str) -> (r: Result<(), String>)
    ensures
        match r {
            Ok(()) => login_result_spec(body@) == Ok::<(), Seq<char>>(()),
            Err(e) => login_result_spec(body@) == Err::<(), Seq<char>>(e@),
        },
{
    let t = trim_str(body);
    if is_blank(t.as_str()) || str_eq(t.as_str(), "Ok.") {
        proof {
            crate::text::lemma_trim_idempotent(body@);
        }
        Ok(())
    } else {
        proof {
            crate::text::lemma_trim_idempotent(body@);
        }
        Err(concat("qBittorrent login failed: ", t.as_str()))
    }
}

/// The login form.
pub fn login_form(username: &str, password: &str) -> (r: Vec<(String, String)>)
    ensures
        r@.map_values(|p: (String, String)| (p.0@, p.1@)) == seq![
            ("username"@, username@),
            ("password"@, password@),
        ],
{
    let mut out: Vec<(String, String)> = Vec::new();
    out.push((copy_str("username"), copy_str(username)));
    out.push((copy_str("password"), copy_str(password)));
    assert(out@.map_values(|p: (String, String)| (p.0@, p.1@)) =~= seq![
        ("username"@, username@),
        ("password"@, password@),
    ]);
    out
}

/// The form that adds a magnet link: the link, the category, and the request
/// id as its tag.
pub fn add_magnet_form(magnet: &str, request_id: &str, category: &str) -> (r: Vec<
    (String, String),
>)
    ensures
        r@.map_values(|p: (String, String)| (p.0@, p.1@)) == seq![
            ("urls"@, magnet@),
            ("category"@, category@),
            ("tags"@, request_id@),
        ],
{
    let mut out: Vec<(String, String)> = Vec::new();
    out.push((copy_str("urls"), copy_str(magnet)));
    out.push((copy_str("category"), copy_str(category)));
    out.push((copy_str("tags"), copy_str(request_id)));
    assert(out@.map_values(|p: (String, String)| (p.0@, p.1@)) =~= seq![
        ("urls"@, magnet@),
        ("category"@, category@),
        ("tags"@, request_id@),
    ]);
    out
}

} // verus!
