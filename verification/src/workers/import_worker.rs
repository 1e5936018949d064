//! Importing a finished download: which file goes where.
//!
//! Paths are read by their components (`/` separated; empty and `.`
//! components do not count), as `Path` compares and strips them.
use vstd::prelude::*;

use crate::domain::imports::ImportMediaType;
use crate::domain::requests::{MediaType, RequestRecord};
use crate::domain::settings::{EbookImportMode, PersistedImportSettings};
use crate::importer::classify::{classify_payload, classify_spec, is_ebook_file, is_ebook_path};
use crate::importer::move_plan::{
    audiobook_root_spec, build_audiobook_root, build_ebook_move_plan, ebook_destination,
    file_name_exec, file_name_spec, join_all, join_path, join_path_exec, normalize_segment_chars,
    normalize_segment_spec, path_components,
};
use crate::text::{chars_of, concat, copy_str, seq_eq, split, split_chars, string_from};

verus! {

/// The message for a request that is not stored.
pub open spec fn request_not_found_text(request_id: Seq<char>) -> Seq<char> {
    "request "@ + request_id + " not found"@
}

pub fn request_not_found(request_id: &str) -> (r: String)
    ensures
        r@ == request_not_found_text(request_id@),
{
    let a = concat("request ", request_id);
    concat(a.as_str(), " not found")
}

// ---------------------------------------------------------------------------
// Paths by components
// ---------------------------------------------------------------------------

pub open spec fn comps_of(p: Seq<char>) -> Seq<Seq<char>> {
    path_components(split(p, '/'))
}

pub open spec fn is_abs(p: Seq<char>) -> bool {
    p.len() > 0 && p[0] == '/'
}

/// `Path::starts_with`: the base's components lead the path's, and both are
/// absolute or both relative (an empty relative base leads every path).
pub open spec fn path_starts_with(p: Seq<char>, base_abs: bool, base: Seq<Seq<char>>) -> bool {
    (!base_abs && base.len() == 0) || (is_abs(p) == base_abs && base.len() <= comps_of(p).len()
        && comps_of(p).take(base.len() as int) == base)
}

pub open spec fn all_start_with(paths: Seq<Seq<char>>, base_abs: bool, base: Seq<Seq<char>>) -> bool {
    forall|i: int| 0 <= i < paths.len() ==> path_starts_with(#[trigger] paths[i], base_abs, base)
}

/// From `base` upwards, the first directory every path lies under; nothing
/// when no parent is left.
pub open spec fn ascend(paths: Seq<Seq<char>>, base_abs: bool, base: Seq<Seq<char>>) -> Option<
    (bool, Seq<Seq<char>>),
>
    decreases base.len(),
{
    if all_start_with(paths, base_abs, base) {
        Some((base_abs, base))
    } else if base.len() == 0 {
        None
    } else {
        ascend(paths, base_abs, base.drop_last())
    }
}

/// The deepest directory holding every path, found from the first path's
/// parent upwards.
pub open spec fn common_parent_spec(paths: Seq<Seq<char>>) -> Option<(bool, Seq<Seq<char>>)> {
    if paths.len() == 0 || comps_of(paths[0]).len() == 0 {
        None
    } else {
        ascend(paths, is_abs(paths[0]), comps_of(paths[0]).drop_last())
    }
}

/// A path's components.
fn components_exec(p: &Vec<char>) -> (r: Vec<Vec<char>>)
    ensures
        r@.map_values(|c: Vec<char>| c@) == comps_of(p@),
{
    let pieces = split_chars(p, '/');
    let ghost pv = pieces@.map_values(|c: Vec<char>| c@);
    let mut out: Vec<Vec<char>> = Vec::new();
    let mut i: usize = 0;
    while i < pieces.len()
        invariant
            i <= pieces.len(),
            pv == pieces@.map_values(|c: Vec<char>| c@),
            pv == split(p@, '/'),
            out@.map_values(|c: Vec<char>| c@) == path_components(pv.take(i as int)),
        decreases pieces.len() - i,
    {
        assert(pv.take(i + 1).drop_last() =~= pv.take(i as int));
        assert(pv.take(i + 1).last() == pieces@[i as int]@);
        let piece = &pieces[i];
        let skip = piece.len() == 0 || (piece.len() == 1 && piece[0] == '.');
        proof {
            if piece@ == seq!['.'] {
                assert(piece@.len() == 1 && piece@[0] == '.');
            }
            if piece.len() == 1 && piece@[0] == '.' {
                assert(piece@ =~= seq!['.']);
            }
        }
        if !skip {
            let ghost before = out@;
            out.push(crate::text::slice_chars(piece, 0, piece.len()));
            assert(piece@.subrange(0, piece@.len() as int) =~= piece@);
            assert(out@.map_values(|c: Vec<char>| c@) =~= before.map_values(|c: Vec<char>| c@).push(
                piece@,
            ));
        }
        i = i + 1;
    }
    assert(pv.take(pieces.len() as int) =~= pv);
    out
}

fn comps_eq(a: &Vec<Vec<char>>, b: &Vec<Vec<char>>, n: usize) -> (r: bool)
    requires
        n <= a.len(),
        n <= b.len(),
    ensures
        r == (a@.map_values(|c: Vec<char>| c@).take(n as int) == b@.map_values(
            |c: Vec<char>| c@,
        ).take(n as int)),
{
    let ghost av = a@.map_values(|c: Vec<char>| c@);
    let ghost bv = b@.map_values(|c: Vec<char>| c@);
    let mut i: usize = 0;
    while i < n
        invariant
            i <= n,
            n <= a.len(),
            n <= b.len(),
            av == a@.map_values(|c: Vec<char>| c@),
            bv == b@.map_values(|c: Vec<char>| c@),
            forall|j: int| 0 <= j < i ==> av[j] == bv[j],
        decreases n - i,
    {
        if !seq_eq(&a[i], &b[i]) {
            assert(av.take(n as int)[i as int] != bv.take(n as int)[i as int]);
            return false;
        }
        i = i + 1;
    }
    assert(av.take(n as int) =~= bv.take(n as int));
    true
}

fn starts_with_exec(p: &Vec<char>, base_abs: bool, base: &Vec<Vec<char>>) -> (r: bool)
    ensures
        r == path_starts_with(p@, base_abs, base@.map_values(|c: Vec<char>| c@)),
{
    if !base_abs && base.len() == 0 {
        return true;
    }
    let abs = p.len() > 0 && p[0] == '/';
    if abs != base_abs {
        return false;
    }
    let comps = components_exec(p);
    if base.len() > comps.len() {
        return false;
    }
    let r = comps_eq(&comps, base, base.len());
    proof {
        let bv = base@.map_values(|c: Vec<char>| c@);
        assert(bv.take(base.len() as int) =~= bv);
    }
    r
}

/// `common_parent_dir`: whether the directory is absolute, and its
/// components.
pub fn common_parent_dir(paths: &[String]) -> (r: Option<(bool, Vec<Vec<char>>)>)
    ensures
        match r {
            Some((abs, comps)) => common_parent_spec(paths@.map_values(|s: String| s@)) == Some(
                (abs, comps@.map_values(|c: Vec<char>| c@)),
            ),
            None => common_parent_spec(paths@.map_values(|s: String| s@)) is None,
        },
{
    let ghost pv = paths@.map_values(|s: String| s@);
    if paths.len() == 0 {
        return None;
    }
    let first = chars_of(paths[0].as_str());
    let mut base = components_exec(&first);
    if base.len() == 0 {
        return None;
    }
    let base_abs = first.len() > 0 && first[0] == '/';
    let ghost first_comps = base@.map_values(|c: Vec<char>| c@);
    let ghost before = base@;
    base.pop();
    assert(base@.map_values(|c: Vec<char>| c@) =~= first_comps.drop_last());
    loop
        invariant
            pv == paths@.map_values(|s: String| s@),
            paths.len() > 0,
            base_abs == is_abs(pv[0]),
            common_parent_spec(pv) == ascend(pv, base_abs, base@.map_values(|c: Vec<char>| c@)),
        decreases base.len(),
    {
        let ghost bv = base@.map_values(|c: Vec<char>| c@);
        // every path under the base?
        let mut all = true;
        let mut i: usize = 0;
        while i < paths.len()
            invariant_except_break
                all,
            invariant
                i <= paths.len(),
                pv == paths@.map_values(|s: String| s@),
                bv == base@.map_values(|c: Vec<char>| c@),
                forall|j: int| 0 <= j < i ==> path_starts_with(#[trigger] pv[j], base_abs, bv),
            ensures
                all ==> all_start_with(pv, base_abs, bv),
                !all ==> !all_start_with(pv, base_abs, bv),
            decreases paths.len() - i,
        {
            let p = chars_of(paths[i].as_str());
            if !starts_with_exec(&p, base_abs, &base) {
                assert(!path_starts_with(pv[i as int], base_abs, bv));
                all = false;
                break;
            }
            i = i + 1;
        }
        if all {
            return Some((base_abs, base));
        }
        if base.len() == 0 {
            return None;
        }
        base.pop();
        assert(base@.map_values(|c: Vec<char>| c@) =~= bv.drop_last());
    }
}

/// Where a source file lands under the import directory: its components below
/// the common directory, or its file name (`audio.bin` without one) when
/// nothing is left below.
pub open spec fn relative_parts(source: Seq<char>, common_len: nat) -> Seq<Seq<char>> {
    let comps = comps_of(source);
    if comps.len() > common_len {
        comps.skip(common_len as int)
    } else if comps.len() > 0 && comps.last() != seq!['.', '.'] {
        seq![comps.last()]
    } else {
        seq!["audio.bin"@]
    }
}

/// The destination of one source file: its relative parts made safe, joined
/// under the import directory.
pub open spec fn audiobook_file_destination(dir: Seq<char>, source: Seq<char>, common_len: nat) -> Seq<
    char,
> {
    join_path(
        dir,
        join_all(
            Seq::empty(),
            relative_parts(source, common_len).map_values(|c: Seq<char>| normalize_segment_spec(c)),
        ),
    )
}

fn relative_parts_exec(source: &Vec<char>, common_len: usize) -> (r: Vec<Vec<char>>)
    ensures
        r@.map_values(|c: Vec<char>| c@) == relative_parts(source@, common_len as nat),
{
    let comps = components_exec(source);
    let ghost cv = comps@.map_values(|c: Vec<char>| c@);
    if comps.len() > common_len {
        let mut out: Vec<Vec<char>> = Vec::new();
        let mut i: usize = common_len;
        while i < comps.len()
            invariant
                common_len <= i <= comps.len(),
                cv == comps@.map_values(|c: Vec<char>| c@),
                out@.map_values(|c: Vec<char>| c@) == cv.subrange(common_len as int, i as int),
            decreases comps.len() - i,
        {
            let ghost before = out@;
            let piece = crate::text::slice_chars(&comps[i], 0, comps[i].len());
            assert(piece@ =~= comps@[i as int]@);
            assert(piece@ == cv[i as int]);
            out.push(piece);
            assert(out@.map_values(|c: Vec<char>| c@) =~= before.map_values(|c: Vec<char>| c@).push(
                cv[i as int],
            ));
            assert(out@.map_values(|c: Vec<char>| c@) =~= cv.subrange(common_len as int, i + 1));
            i = i + 1;
        }
        assert(cv.subrange(common_len as int, comps.len() as int) =~= cv.skip(common_len as int));
        out
    } else {
        let mut out: Vec<Vec<char>> = Vec::new();
        let n = comps.len();
        let dotdot = n > 0 && comps[n - 1].len() == 2 && comps[n - 1][0] == '.' && comps[n - 1][1]
            == '.';
        proof {
            if n > 0 {
                if cv.last() == seq!['.', '.'] {
                    assert(comps@[n - 1]@.len() == 2);
                    assert(comps@[n - 1]@[0] == '.');
                }
                if dotdot {
                    assert(comps@[n - 1]@ =~= seq!['.', '.']);
                }
            }
        }
        if n > 0 && !dotdot {
            out.push(crate::text::slice_chars(&comps[n - 1], 0, comps[n - 1].len()));
            assert(comps@[n - 1]@.subrange(0, comps@[n - 1]@.len() as int) =~= comps@[n - 1]@);
            assert(out@.map_values(|c: Vec<char>| c@) =~= seq![cv.last()]);
        } else {
            proof {
                reveal_strlit("audio.bin");
            }
            out.push(chars_of("audio.bin"));
            assert(out@.map_values(|c: Vec<char>| c@) =~= seq!["audio.bin"@]);
        }
        out
    }
}

fn audiobook_file_destination_exec(dir: &str, source: &str, common_len: usize) -> (r: String)
    ensures
        r@ == audiobook_file_destination(dir@, source@, common_len as nat),
{
    let src = chars_of(source);
    let parts = relative_parts_exec(&src, common_len);
    let ghost pv = parts@.map_values(|c: Vec<char>| c@);
    let ghost safe = pv.map_values(|c: Seq<char>| normalize_segment_spec(c));
    let mut rel: Vec<char> = Vec::new();
    let mut i: usize = 0;
    while i < parts.len()
        invariant
            i <= parts.len(),
            pv == parts@.map_values(|c: Vec<char>| c@),
            safe == pv.map_values(|c: Seq<char>| normalize_segment_spec(c)),
            rel@ == join_all(Seq::empty(), safe.take(i as int)),
        decreases parts.len() - i,
    {
        assert(safe.take(i + 1).drop_last() =~= safe.take(i as int));
        let seg = normalize_segment_chars(&parts[i]);
        rel = join_path_exec(rel, &seg);
        i = i + 1;
    }
    assert(safe.take(parts.len() as int) =~= safe);
    let base = chars_of(dir);
    let out = join_path_exec(base, &rel);
    string_from(&out)
}

// ---------------------------------------------------------------------------
// Plans
// ---------------------------------------------------------------------------

/// The import worker: it plans the move of finished downloads into the
/// library.
pub struct ImportWorker;

/// An ebook import: the file moved and where it goes.
#[derive(Clone, Debug, PartialEq, Eq)]
pub struct EbookImportPlan {
    pub source: String,
    pub destination: String,
}

/// An audiobook import: the directory it goes to and each file's move.
#[derive(Clone, Debug, PartialEq, Eq)]
pub struct AudiobookImportPlan {
    pub destination_dir: String,
    pub moves: Vec<(String, String)>,
}

/// Index of the first ebook file of the payload.
pub open spec fn first_ebook(files: Seq<String>) -> Option<int>
    decreases files.len(),
{
    if files.len() == 0 {
        None
    } else {
        match first_ebook(files.drop_last()) {
            Some(i) => Some(i),
            None => if is_ebook_file(files.last()@) {
                Some(files.len() - 1)
            } else {
                None
            },
        }
    }
}

/// What importing a finished ebook download does, or why it cannot.
pub open spec fn ebook_plan_spec(
    request_id: Seq<char>,
    request: RequestRecord,
    files: Seq<String>,
    ebooks_root: Seq<char>,
    settings: PersistedImportSettings,
) -> Result<(Seq<char>, Seq<char>), Seq<char>> {
    if request.media_type != MediaType::Ebook {
        Err("request "@ + request_id + " is not an ebook request"@)
    } else if classify_spec(files) != ImportMediaType::Ebook {
        Err("download payload was not classified as ebook"@)
    } else {
        match first_ebook(files) {
            None => Err("ebook payload did not contain a supported source file"@),
            Some(i) => {
                let source = files[i]@;
                match file_name_spec(source) {
                    None => Err("ebook payload did not contain a supported file leaf"@),
                    Some(leaf) => match settings.ebook_import_mode {
                        EbookImportMode::Managed => Ok(
                            (
                                source,
                                ebook_destination(
                                    ebooks_root,
                                    settings.naming_template@,
                                    request.author@,
                                    request.title@,
                                    leaf,
                                ),
                            ),
                        ),
                        EbookImportMode::Passthrough => match settings.ebook_passthrough_root {
                            None => Err("ebook passthrough root is not configured"@),
                            Some(root) => Ok(
                                (
                                    source,
                                    join_path(
                                        join_path(root@, request_id),
                                        normalize_segment_spec(leaf),
                                    ),
                                ),
                            ),
                        },
                    },
                }
            },
        }
    }
}

fn find_first_ebook(files: &[String]) -> (r: Option<usize>)
    ensures
        match r {
            Some(i) => first_ebook(files@) == Some(i as int) && i < files.len(),
            None => first_ebook(files@) is None,
        },
{
    let mut i: usize = 0;
    while i < files.len()
        invariant
            i <= files.len(),
            first_ebook(files@.take(i as int)) is None,
        decreases files.len() - i,
    {
        assert(files@.take(i + 1).drop_last() =~= files@.take(i as int));
        if is_ebook_path(files[i].as_str()) {
            proof {
                assert(files@.take(i + 1).last() == files@[i as int]);
                assert(first_ebook(files@.take(i + 1)) == Some(i as int));
                lemma_first_ebook_prefix(files@, i + 1, i as int);
            }
            return Some(i);
        }
        i = i + 1;
    }
    assert(files@.take(files.len() as int) =~= files@);
    None
}

proof fn lemma_first_ebook_prefix(files: Seq<String>, n: int, k: int)
    requires
        0 <= n <= files.len(),
        first_ebook(files.take(n)) == Some(k),
    ensures
        first_ebook(files) == Some(k),
    decreases files.len() - n,
{
    if n == files.len() {
        assert(files.take(n) =~= files);
    } else {
        assert(files.take(n + 1).drop_last() =~= files.take(n));
        lemma_first_ebook_prefix(files, n + 1, k);
    }
}

pub fn plan_ebook_import(
    request_id: &str,
    request: &RequestRecord,
    files: &[String],
    ebooks_root: &str,
    settings: &PersistedImportSettings,
) -> (r: Result<EbookImportPlan, String>)
    ensures
        match r {
            Ok(p) => ebook_plan_spec(request_id@, *request, files@, ebooks_root@, *settings) == Ok::<
                (Seq<char>, Seq<char>),
                Seq<char>,
            >((p.source@, p.destination@)),
            Err(e) => ebook_plan_spec(request_id@, *request, files@, ebooks_root@, *settings)
                == Err::<(Seq<char>, Seq<char>), Seq<char>>(e@),
        },
{
    if request.media_type != MediaType::Ebook {
        let a = concat("request ", request_id);
        return Err(concat(a.as_str(), " is not an ebook request"));
    }
    let classification = classify_payload(files);
    if classification.media_type != ImportMediaType::Ebook {
        return Err(copy_str("download payload was not classified as ebook"));
    }
    let i = match find_first_ebook(files) {
        Some(i) => i,
        None => {
            return Err(copy_str("ebook payload did not contain a supported source file"));
        },
    };
    let source = copy_str(files[i].as_str());
    let leaf = match file_name_exec(&chars_of(source.as_str())) {
        Some(l) => string_from(&l),
        None => {
            return Err(copy_str("ebook payload did not contain a supported file leaf"));
        },
    };
    let destination = match settings.ebook_import_mode {
        EbookImportMode::Managed => build_ebook_move_plan(
            ebooks_root,
            settings.naming_template.as_str(),
            request.author.as_str(),
            request.title.as_str(),
            leaf.as_str(),
        ),
        EbookImportMode::Passthrough => {
            let root = match &settings.ebook_passthrough_root {
                Some(r) => r,
                None => {
                    return Err(copy_str("ebook passthrough root is not configured"));
                },
            };
            let with_id = join_path_exec(chars_of(root.as_str()), &chars_of(request_id));
            let safe = normalize_segment_chars(&chars_of(leaf.as_str()));
            let full = join_path_exec(with_id, &safe);
            string_from(&full)
        },
    };
    Ok(EbookImportPlan { source, destination })
}

/// What importing a finished audiobook download does, or why it cannot: the
/// import directory and, for each file in order, where it goes.
pub open spec fn audiobook_plan_spec(
    request_id: Seq<char>,
    request: RequestRecord,
    files: Seq<String>,
    audiobooks_root: Seq<char>,
    settings: PersistedImportSettings,
) -> Result<(Seq<char>, Seq<(Seq<char>, Seq<char>)>), Seq<char>> {
    let dir = audiobook_root_spec(
        audiobooks_root,
        settings.audiobook_layout_preset,
        request.author@,
        request.title@,
    );
    if request.media_type != MediaType::Audiobook {
        Err("request "@ + request_id + " is not an audiobook request"@)
    } else if classify_spec(files) != ImportMediaType::Audiobook {
        Err("download payload was not classified as audiobook"@)
    } else {
        match common_parent_spec(files.map_values(|s: String| s@)) {
            None => Err("audiobook payload did not have a common source root"@),
            Some((_, common)) => Ok(
                (
                    dir,
                    files.map_values(
                        |s: String|
                            (s@, audiobook_file_destination(dir, s@, common.len())),
                    ),
                ),
            ),
        }
    }
}

pub fn plan_audiobook_import(
    request_id: &str,
    request: &RequestRecord,
    files: &[String],
    audiobooks_root: &str,
    settings: &PersistedImportSettings,
) -> (r: Result<AudiobookImportPlan, String>)
    ensures
        match r {
            Ok(p) => audiobook_plan_spec(request_id@, *request, files@, audiobooks_root@, *settings)
                == Ok::<(Seq<char>, Seq<(Seq<char>, Seq<char>)>), Seq<char>>(
                (
                    p.destination_dir@,
                    p.moves@.map_values(|m: (String, String)| (m.0@, m.1@)),
                ),
            ),
            Err(e) => audiobook_plan_spec(
                request_id@,
                *request,
                files@,
                audiobooks_root@,
                *settings,
            ) == Err::<(Seq<char>, Seq<(Seq<char>, Seq<char>)>), Seq<char>>(e@),
        },
{
    if request.media_type != MediaType::Audiobook {
        let a = concat("request ", request_id);
        return Err(concat(a.as_str(), " is not an audiobook request"));
    }
    let classification = classify_payload(files);
    if classification.media_type != ImportMediaType::Audiobook {
        return Err(copy_str("download payload was not classified as audiobook"));
    }
    let destination_dir = build_audiobook_root(
        audiobooks_root,
        &settings.audiobook_layout_preset,
        request.author.as_str(),
        request.title.as_str(),
    );
    let common = match common_parent_dir(files) {
        Some((_, comps)) => comps.len(),
        None => {
            return Err(copy_str("audiobook payload did not have a common source root"));
        },
    };
    let ghost dir = destination_dir@;
    let mut moves: Vec<(String, String)> = Vec::new();
    let mut i: usize = 0;
    while i < files.len()
        invariant
            i <= files.len(),
            moves@.map_values(|m: (String, String)| (m.0@, m.1@)) == files@.take(i as int).map_values(
                |s: String| (s@, audiobook_file_destination(dir, s@, common as nat)),
            ),
            dir == destination_dir@,
        decreases files.len() - i,
    {
        let dest = audiobook_file_destination_exec(destination_dir.as_str(), files[i].as_str(), common);
        let ghost before = moves@;
        let src = copy_str(files[i].as_str());
        assert(src@ == files@[i as int]@);
        moves.push((src, dest));
        assert(moves@.map_values(|m: (String, String)| (m.0@, m.1@)) =~= before.map_values(
            |m: (String, String)| (m.0@, m.1@),
        ).push((files@[i as int]@, audiobook_file_destination(dir, files@[i as int]@, common as nat))));
        assert(files@.take(i + 1).map_values(
            |s: String| (s@, audiobook_file_destination(dir, s@, common as nat)),
        ) =~= files@.take(i as int).map_values(
            |s: String| (s@, audiobook_file_destination(dir, s@, common as nat)),
        ).push((files@[i as int]@, audiobook_file_destination(dir, files@[i as int]@, common as nat))));
        assert(moves@.map_values(|m: (String, String)| (m.0@, m.1@)) =~= files@.take(i + 1).map_values(
            |s: String| (s@, audiobook_file_destination(dir, s@, common as nat)),
        ));
        i = i + 1;
    }
    assert(files@.take(files.len() as int) =~= files@);
    Ok(AudiobookImportPlan { destination_dir, moves })
}

/// Every file of an audiobook lands inside its import directory.
pub proof fn lemma_audiobook_files_under_dir(dir: Seq<char>, source: Seq<char>, common_len: nat)
    ensures
        crate::text::starts_with(audiobook_file_destination(dir, source, common_len), dir),
{
    let parts = relative_parts(source, common_len).map_values(|c: Seq<char>| normalize_segment_spec(c));
    assert forall|k: int| 0 <= k < parts.len() implies !crate::importer::move_plan::starts_with_slash(
        #[trigger] parts[k],
    ) by {
        crate::importer::move_plan::lemma_segment_has_no_slash(relative_parts(source, common_len)[k]);
        if parts[k].len() > 0 {
            assert(parts[k][0] != '/');
        }
    }
    crate::importer::move_plan::lemma_join_all_under_base(Seq::empty(), parts);
    let rel = join_all(Seq::empty(), parts);
    crate::importer::move_plan::lemma_join_all_under_base(dir, seq![rel]);
    assert(seq![rel].drop_last() =~= Seq::<Seq<char>>::empty());
    assert(join_all(dir, Seq::<Seq<char>>::empty()) == dir);
    assert(seq![rel].last() == rel);
    assert(join_all(dir, seq![rel]) == join_path(dir, rel));
}

} // verus!
