//! Where imported files go.
//!
//! Paths are text with Unix rules (`/` separates components).
use vstd::prelude::*;

use crate::domain::settings::AudiobookLayoutPreset;
use crate::text::{
    append_chars, chars_of, collapse_whitespace, ends_with, ends_with_chars, is_control, is_ctrl,
    join, last_index_of, last_index_of_exec, lemma_join_single_spaced, lemma_join_within,
    lemma_trim_unchanged, lemma_words_of_join, lemma_words_plain, lemma_words_within, replace_all,
    replace_chars, seq_eq, single_spaced, slice_chars, split, split_chars, starts_with, string_from,
    trim, trim_chars, words,
};

verus! {

// ---------------------------------------------------------------------------
// Path segments
// ---------------------------------------------------------------------------

/// Characters that cannot stand in a portable file name.
pub open spec fn is_forbidden_char(c: char) -> bool {
    is_ctrl(c) || c == '<' || c == '>' || c == ':' || c == '"' || c == '/' || c == '\\' || c
        == '|' || c == '?' || c == '*'
}

pub open spec fn blank_forbidden(c: char) -> char {
    if is_forbidden_char(c) {
        ' '
    } else {
        c
    }
}

/// A name made safe as one path segment: forbidden characters become spaces,
/// runs of whitespace become one space, and the ends are trimmed.
pub open spec fn normalize_segment_spec(value: Seq<char>) -> Seq<char> {
    trim(join(words(value.map_values(|c: char| blank_forbidden(c))), " "@))
}

pub(crate) fn normalize_segment_chars(value: &Vec<char>) -> (r: Vec<char>)
    ensures
        r@ == normalize_segment_spec(value@),
{
    let mut replaced: Vec<char> = Vec::new();
    let mut i: usize = 0;
    while i < value.len()
        invariant
            i <= value.len(),
            replaced@ == value@.take(i as int).map_values(|c: char| blank_forbidden(c)),
        decreases value.len() - i,
    {
        let c = value[i];
        let forbidden = is_control(c) || c == '<' || c == '>' || c == ':' || c == '"' || c == '/'
            || c == '\\' || c == '|' || c == '?' || c == '*';
        if forbidden {
            replaced.push(' ');
        } else {
            replaced.push(c);
        }
        i = i + 1;
        assert(replaced@ =~= value@.take(i as int).map_values(|c: char| blank_forbidden(c)));
    }
    assert(value@.take(value.len() as int) =~= value@);
    let collapsed = collapse_whitespace(&replaced);
    trim_chars(&collapsed)
}

pub fn normalize_path_segment(value: &str) -> (r: String)
    ensures
        r@ == normalize_segment_spec(value@),
{
    let v = chars_of(value);
    let n = normalize_segment_chars(&v);
    string_from(&n)
}

// ---------------------------------------------------------------------------
// Paths
// ---------------------------------------------------------------------------

/// `PathBuf::push` of a segment onto a base path (Unix rules).
pub open spec fn join_path(base: Seq<char>, seg: Seq<char>) -> Seq<char> {
    if seg.len() > 0 && seg[0] == '/' {
        seg
    } else if base.len() > 0 && base.last() != '/' {
        base + seq!['/'] + seg
    } else {
        base + seg
    }
}

/// `base` joined with each segment in turn.
pub open spec fn join_all(base: Seq<char>, segs: Seq<Seq<char>>) -> Seq<char>
    decreases segs.len(),
{
    if segs.len() == 0 {
        base
    } else {
        join_path(join_all(base, segs.drop_last()), segs.last())
    }
}

pub fn join_path_exec(base: Vec<char>, seg: &Vec<char>) -> (r: Vec<char>)
    ensures
        r@ == join_path(base@, seg@),
{
    if seg.len() > 0 && seg[0] == '/' {
        slice_chars(seg, 0, seg.len())
    } else {
        let mut out = base;
        if out.len() > 0 && out[out.len() - 1] != '/' {
            out.push('/');
        }
        append_chars(&mut out, seg);
        out
    }
}

/// Path components other than empty ones and `.`.
pub open spec fn path_components(pieces: Seq<Seq<char>>) -> Seq<Seq<char>>
    decreases pieces.len(),
{
    if pieces.len() == 0 {
        Seq::empty()
    } else {
        let prev = path_components(pieces.drop_last());
        let p = pieces.last();
        if p.len() == 0 || p == seq!['.'] {
            prev
        } else {
            prev.push(p)
        }
    }
}

/// `Path::file_name`: the last component unless it is `..`.
pub open spec fn file_name_spec(path: Seq<char>) -> Option<Seq<char>> {
    let comps = path_components(split(path, '/'));
    if comps.len() == 0 || comps.last() == seq!['.', '.'] {
        None
    } else {
        Some(comps.last())
    }
}

/// `Path::extension`: the file name after its last dot, unless that dot is
/// its first character or it has none.
pub open spec fn extension_spec(path: Seq<char>) -> Option<Seq<char>> {
    match file_name_spec(path) {
        Some(f) => match last_index_of(f, '.') {
            Some(i) => if i > 0 {
                Some(f.skip(i + 1))
            } else {
                None
            },
            None => None,
        },
        None => None,
    }
}

/// The file's extension with its dot, or nothing.
pub open spec fn dotted_extension(path: Seq<char>) -> Seq<char> {
    match extension_spec(path) {
        Some(e) => seq!['.'] + e,
        None => Seq::empty(),
    }
}

pub(crate) fn file_name_exec(path: &Vec<char>) -> (r: Option<Vec<char>>)
    ensures
        match r {
            Some(f) => file_name_spec(path@) == Some(f@),
            None => file_name_spec(path@) is None,
        },
{
    let pieces = split_chars(path, '/');
    let ghost pv = pieces@.map_values(|p: Vec<char>| p@);
    let mut last: Option<Vec<char>> = None;
    let mut i: usize = 0;
    while i < pieces.len()
        invariant
            i <= pieces.len(),
            pv == pieces@.map_values(|p: Vec<char>| p@),
            match last {
                Some(l) => path_components(pv.take(i as int)).len() > 0 && path_components(
                    pv.take(i as int),
                ).last() == l@,
                None => path_components(pv.take(i as int)).len() == 0,
            },
        decreases pieces.len() - i,
    {
        assert(pv.take(i + 1).drop_last() =~= pv.take(i as int));
        assert(pv.take(i + 1).last() == pieces@[i as int]@);
        let p = &pieces[i];
        let dot = p.len() == 1 && p[0] == '.';
        if p.len() == 0 || dot {
            proof {
                if p.len() == 1 && p@[0] == '.' {
                    assert(p@ =~= seq!['.']);
                }
            }
        } else {
            proof {
                if p@ == seq!['.'] {
                    assert(p@.len() == 1);
                }
            }
            last = Some(slice_chars(p, 0, p.len()));
            assert(p@.subrange(0, p@.len() as int) =~= p@);
        }
        i = i + 1;
    }
    assert(pv.take(pieces.len() as int) =~= pv);
    match last {
        Some(l) => {
            let dotdot = l.len() == 2 && l[0] == '.' && l[1] == '.';
            proof {
                if l@ == seq!['.', '.'] {
                    assert(l@.len() == 2 && l@[0] == '.' && l@[1] == '.');
                }
                if dotdot {
                    assert(l@ =~= seq!['.', '.']);
                }
            }
            if dotdot {
                None
            } else {
                Some(l)
            }
        },
        None => None,
    }
}

/// `.` followed by the extension of `leaf_name`, or nothing when it has none.
fn dotted_extension_exec(leaf_name: &Vec<char>) -> (r: Vec<char>)
    ensures
        r@ == dotted_extension(leaf_name@),
{
    match file_name_exec(leaf_name) {
        Some(f) => match last_index_of_exec(&f, '.') {
            Some(i) => {
                if i > 0 {
                    let mut out: Vec<char> = Vec::new();
                    out.push('.');
                    let e = slice_chars(&f, i + 1, f.len());
                    assert(e@ =~= f@.skip(i + 1));
                    append_chars(&mut out, &e);
                    assert(out@ =~= seq!['.'] + f@.skip(i + 1));
                    out
                } else {
                    Vec::new()
                }
            },
            None => Vec::new(),
        },
        None => Vec::new(),
    }
}

// ---------------------------------------------------------------------------
// Ebook destinations
// ---------------------------------------------------------------------------

/// A template segment with `{author}` and `{title}` filled in, made safe.
pub open spec fn render_segment(seg: Seq<char>, author: Seq<char>, work: Seq<char>) -> Seq<char> {
    normalize_segment_spec(replace_all(replace_all(seg, "{author}"@, author), "{title}"@, work))
}

/// The non-blank template pieces rendered, empty results dropped.
pub open spec fn rendered_segments(pieces: Seq<Seq<char>>, author: Seq<char>, work: Seq<char>) -> Seq<
    Seq<char>,
>
    decreases pieces.len(),
{
    if pieces.len() == 0 {
        Seq::empty()
    } else {
        let prev = rendered_segments(pieces.drop_last(), author, work);
        let p = pieces.last();
        if trim(p).len() == 0 {
            prev
        } else {
            let r = render_segment(p, author, work);
            if r.len() == 0 {
                prev
            } else {
                prev.push(r)
            }
        }
    }
}

/// The last segment gets the extension unless it is empty or already there.
pub open spec fn with_extension(segs: Seq<Seq<char>>, ext: Seq<char>) -> Seq<Seq<char>> {
    if segs.len() > 0 && ext.len() > 0 && !ends_with(segs.last(), ext) {
        segs.update(segs.len() - 1, segs.last() + ext)
    } else {
        segs
    }
}

/// Where an ebook is moved: the rendered template under `root`, the last
/// segment carrying the source file's extension.
pub open spec fn ebook_destination(
    root: Seq<char>,
    template: Seq<char>,
    author: Seq<char>,
    work: Seq<char>,
    leaf_name: Seq<char>,
) -> Seq<char> {
    join_all(
        root,
        with_extension(
            rendered_segments(split(template, '/'), author, work),
            dotted_extension(leaf_name),
        ),
    )
}

fn render_segment_exec(seg: &Vec<char>, author: &Vec<char>, work: &Vec<char>) -> (r: Vec<char>)
    ensures
        r@ == render_segment(seg@, author@, work@),
{
    proof {
        reveal_strlit("{author}");
        reveal_strlit("{title}");
    }
    let author_pat = chars_of("{author}");
    let title_pat = chars_of("{title}");
    let a = replace_chars(seg, &author_pat, author);
    let b = replace_chars(&a, &title_pat, work);
    normalize_segment_chars(&b)
}

pub fn build_ebook_move_plan(
    root: &str,
    template: &str,
    author: &str,
    work: &str,
    leaf_name: &str,
) -> (r: String)
    ensures
        r@ == ebook_destination(root@, template@, author@, work@, leaf_name@),
{
    let t = chars_of(template);
    let a = chars_of(author);
    let w = chars_of(work);
    let pieces = split_chars(&t, '/');
    let ghost pv = pieces@.map_values(|p: Vec<char>| p@);
    let mut segs: Vec<Vec<char>> = Vec::new();
    let mut i: usize = 0;
    while i < pieces.len()
        invariant
            i <= pieces.len(),
            pv == pieces@.map_values(|p: Vec<char>| p@),
            segs@.map_values(|p: Vec<char>| p@) == rendered_segments(pv.take(i as int), a@, w@),
        decreases pieces.len() - i,
    {
        assert(pv.take(i + 1).drop_last() =~= pv.take(i as int));
        assert(pv.take(i + 1).last() == pieces@[i as int]@);
        let trimmed = trim_chars(&pieces[i]);
        if trimmed.len() > 0 {
            let r = render_segment_exec(&pieces[i], &a, &w);
            if r.len() > 0 {
                let ghost before = segs@;
                segs.push(r);
                assert(segs@.map_values(|p: Vec<char>| p@) =~= before.map_values(
                    |p: Vec<char>| p@,
                ).push(r@));
            }
        }
        i = i + 1;
    }
    assert(pv.take(pieces.len() as int) =~= pv);
    let ghost rendered = segs@.map_values(|p: Vec<char>| p@);
    let leaf = chars_of(leaf_name);
    let ext = dotted_extension_exec(&leaf);
    let n = segs.len();
    if n > 0 && ext.len() > 0 && !ends_with_chars(&segs[n - 1], &ext) {
        let mut last = segs.pop().unwrap();
        let ghost old_last = last@;
        append_chars(&mut last, &ext);
        segs.push(last);
        assert(segs@.map_values(|p: Vec<char>| p@) =~= rendered.update(
            n - 1,
            rendered.last() + ext@,
        ));
    }
    let ghost final_segs = segs@.map_values(|p: Vec<char>| p@);
    assert(final_segs == with_extension(rendered, ext@));
    let mut path = chars_of(root);
    let mut j: usize = 0;
    while j < segs.len()
        invariant
            j <= segs.len(),
            final_segs == segs@.map_values(|p: Vec<char>| p@),
            path@ == join_all(root@, final_segs.take(j as int)),
        decreases segs.len() - j,
    {
        assert(final_segs.take(j + 1).drop_last() =~= final_segs.take(j as int));
        path = join_path_exec(path, &segs[j]);
        j = j + 1;
    }
    assert(final_segs.take(segs.len() as int) =~= final_segs);
    string_from(&path)
}

// ---------------------------------------------------------------------------
// Audiobook destinations
// ---------------------------------------------------------------------------

/// The directory an audiobook is imported into.
pub open spec fn audiobook_root_spec(
    root: Seq<char>,
    preset: AudiobookLayoutPreset,
    author: Seq<char>,
    work: Seq<char>,
) -> Seq<char> {
    match preset {
        AudiobookLayoutPreset::AuthorTitle => join_path(
            join_path(root, normalize_segment_spec(author)),
            normalize_segment_spec(work),
        ),
        AudiobookLayoutPreset::Title => join_path(root, normalize_segment_spec(work)),
    }
}

pub fn build_audiobook_root(
    root: &str,
    preset: &AudiobookLayoutPreset,
    author: &str,
    work: &str,
) -> (r: String)
    ensures
        r@ == audiobook_root_spec(root@, *preset, author@, work@),
{
    let base = chars_of(root);
    let w = normalize_segment_chars(&chars_of(work));
    let path = match preset {
        AudiobookLayoutPreset::AuthorTitle => {
            let a = normalize_segment_chars(&chars_of(author));
            let p = join_path_exec(base, &a);
            join_path_exec(p, &w)
        },
        AudiobookLayoutPreset::Title => join_path_exec(base, &w),
    };
    string_from(&path)
}

// ---------------------------------------------------------------------------
// Laws
// ---------------------------------------------------------------------------

/// A made-safe segment is in normal form: it holds no forbidden character
/// (no control character and none of `< > : " / \ | ? *`), its only
/// whitespace is a single `' '` between words (none at either end, none
/// doubled), its words are those of the input once each forbidden character
/// became a space, and making it safe again changes nothing.
pub proof fn lemma_segment_normal_form(value: Seq<char>)
    ensures
        forall|i: int|
            0 <= i < normalize_segment_spec(value).len() ==> !is_forbidden_char(
                #[trigger] normalize_segment_spec(value)[i],
            ),
        single_spaced(normalize_segment_spec(value)),
        words(normalize_segment_spec(value)) == words(
            value.map_values(|c: char| blank_forbidden(c)),
        ),
        normalize_segment_spec(normalize_segment_spec(value)) == normalize_segment_spec(value),
{
    reveal_strlit(" ");
    let m = value.map_values(|c: char| blank_forbidden(c));
    let ws = words(m);
    let j = join(ws, " "@);
    let r = normalize_segment_spec(value);
    assert(r == trim(j));
    let allowed = |c: char| !is_forbidden_char(c);
    assert forall|i: int| 0 <= i < m.len() implies allowed(#[trigger] m[i]) by {}
    lemma_words_within(m, allowed);
    assert forall|i: int| 0 <= i < " "@.len() implies allowed(#[trigger] " "@[i]) by {}
    lemma_join_within(ws, " "@, allowed);
    lemma_words_plain(m);
    lemma_words_of_join(ws);
    lemma_join_single_spaced(ws);
    if ws.len() == 0 {
        assert(j =~= Seq::<char>::empty());
        assert(r =~= Seq::<char>::empty());
    } else {
        lemma_trim_unchanged(j);
    }
    assert(r == j);
    assert forall|i: int| 0 <= i < r.len() implies !is_forbidden_char(#[trigger] r[i]) by {
        assert(allowed(j[i]));
    }
    assert(r.map_values(|c: char| blank_forbidden(c)) =~= r);
    assert(normalize_segment_spec(r) == trim(join(words(r), " "@)));
}

/// A made-safe segment holds no `/`.
pub proof fn lemma_segment_has_no_slash(value: Seq<char>)
    ensures
        forall|i: int|
            0 <= i < normalize_segment_spec(value).len() ==> #[trigger] normalize_segment_spec(
                value,
            )[i] != '/',
{
    lemma_segment_normal_form(value);
    assert forall|i: int| 0 <= i < normalize_segment_spec(value).len() implies #[trigger]
        normalize_segment_spec(value)[i] != '/' by {
        assert(!is_forbidden_char(normalize_segment_spec(value)[i]));
    }
}

pub open spec fn starts_with_slash(s: Seq<char>) -> bool {
    s.len() > 0 && s[0] == '/'
}

proof fn lemma_join_path_extends(base: Seq<char>, seg: Seq<char>)
    requires
        !starts_with_slash(seg),
    ensures
        starts_with(join_path(base, seg), base),
        base.len() > 0 ==> join_path(base, seg)[0] == base[0],
        base.len() == 0 ==> join_path(base, seg) == seg,
{
    let r = join_path(base, seg);
    assert(r.subrange(0, base.len() as int) =~= base);
}

/// Joining segments that do not start with `/` never leaves the base.
pub proof fn lemma_join_all_under_base(base: Seq<char>, segs: Seq<Seq<char>>)
    requires
        forall|k: int| 0 <= k < segs.len() ==> !starts_with_slash(#[trigger] segs[k]),
    ensures
        starts_with(join_all(base, segs), base),
        !starts_with_slash(base) ==> !starts_with_slash(join_all(base, segs)),
    decreases segs.len(),
{
    if segs.len() > 0 {
        assert forall|k: int| 0 <= k < segs.drop_last().len() implies !starts_with_slash(
            #[trigger] segs.drop_last()[k],
        ) by {
            assert(segs.drop_last()[k] == segs[k]);
        }
        lemma_join_all_under_base(base, segs.drop_last());
        let prev = join_all(base, segs.drop_last());
        assert(!starts_with_slash(segs[segs.len() - 1]));
        lemma_join_path_extends(prev, segs.last());
        let r = join_all(base, segs);
        assert(r == join_path(prev, segs.last()));
        crate::text::lemma_starts_with_trans(r, prev, base);
    } else {
        assert(base.subrange(0, base.len() as int) =~= base);
    }
}

proof fn lemma_rendered_no_slash(pieces: Seq<Seq<char>>, author: Seq<char>, work: Seq<char>)
    ensures
        forall|k: int|
            0 <= k < rendered_segments(pieces, author, work).len() ==> {
                &&& (#[trigger] rendered_segments(pieces, author, work)[k]).len() > 0
                &&& forall|i: int|
                    0 <= i < rendered_segments(pieces, author, work)[k].len()
                        ==> rendered_segments(pieces, author, work)[k][i] != '/'
            },
    decreases pieces.len(),
{
    if pieces.len() > 0 {
        lemma_rendered_no_slash(pieces.drop_last(), author, work);
        let p = pieces.last();
        lemma_segment_has_no_slash(replace_all(replace_all(p, "{author}"@, author), "{title}"@, work));
        let prev = rendered_segments(pieces.drop_last(), author, work);
        let rs = rendered_segments(pieces, author, work);
        assert forall|k: int| 0 <= k < rs.len() implies {
            &&& (#[trigger] rs[k]).len() > 0
            &&& forall|i: int| 0 <= i < rs[k].len() ==> rs[k][i] != '/'
        } by {
            if k < prev.len() {
                assert(rs[k] == prev[k]);
            } else {
                assert(rs[k] == render_segment(p, author, work));
            }
        }
    }
}

/// An ebook is always moved under the ebook root.
pub proof fn lemma_ebook_destination_under_root(
    root: Seq<char>,
    template: Seq<char>,
    author: Seq<char>,
    work: Seq<char>,
    leaf_name: Seq<char>,
)
    ensures
        starts_with(ebook_destination(root, template, author, work, leaf_name), root),
{
    let segs = rendered_segments(split(template, '/'), author, work);
    lemma_rendered_no_slash(split(template, '/'), author, work);
    let ext = dotted_extension(leaf_name);
    let w = with_extension(segs, ext);
    assert forall|k: int| 0 <= k < w.len() implies !starts_with_slash(#[trigger] w[k]) by {
        if segs.len() > 0 && ext.len() > 0 && !ends_with(segs.last(), ext) && k == segs.len() - 1 {
            assert(segs[k].len() > 0);
            assert(w[k] == segs[k] + ext);
            assert(w[k][0] == segs[k][0]);
        } else {
            assert(w[k] == segs[k]);
            if segs[k].len() > 0 {
                assert(segs[k][0] != '/');
            }
        }
    }
    lemma_join_all_under_base(root, w);
}

/// An audiobook is always imported under the audiobook root.
pub proof fn lemma_audiobook_root_under_root(
    root: Seq<char>,
    preset: AudiobookLayoutPreset,
    author: Seq<char>,
    work: Seq<char>,
)
    ensures
        starts_with(audiobook_root_spec(root, preset, author, work), root),
{
    lemma_segment_has_no_slash(author);
    lemma_segment_has_no_slash(work);
    let a = normalize_segment_spec(author);
    let w = normalize_segment_spec(work);
    if a.len() > 0 {
        assert(a[0] != '/');
    }
    if w.len() > 0 {
        assert(w[0] != '/');
    }
    lemma_join_path_extends(root, a);
    lemma_join_path_extends(root, w);
    lemma_join_path_extends(join_path(root, a), w);
    crate::text::lemma_starts_with_trans(join_path(join_path(root, a), w), join_path(root, a), root);
}

} // verus!
