use vstd::prelude::*;

use crate::domain::imports::{Classification, ImportMediaType};
use crate::text::{ends_with, str_ends_with};

verus! {

/// The file name has an audio extension.
pub open spec fn is_audio_file(f: Seq<char>) -> bool {
    ends_with(f, ".m4b"@) || ends_with(f, ".mp3"@) || ends_with(f, ".flac"@)
}

/// The file name has an ebook extension.
pub open spec fn is_ebook_file(f: Seq<char>) -> bool {
    ends_with(f, ".epub"@) || ends_with(f, ".pdf"@) || ends_with(f, ".azw3"@)
}

pub open spec fn has_audio(files: Seq<String>) -> bool {
    exists|i: int| 0 <= i < files.len() && is_audio_file(#[trigger] files[i]@)
}

pub open spec fn has_ebook(files: Seq<String>) -> bool {
    exists|i: int| 0 <= i < files.len() && is_ebook_file(#[trigger] files[i]@)
}

/// The media type a payload with these files holds.
pub open spec fn classify_spec(files: Seq<String>) -> ImportMediaType {
    if has_audio(files) && has_ebook(files) {
        ImportMediaType::Mixed
    } else if has_audio(files) {
        ImportMediaType::Audiobook
    } else if has_ebook(files) {
        ImportMediaType::Ebook
    } else {
        ImportMediaType::Invalid
    }
}

pub fn is_audio_path(f: &str) -> (r: bool)
    ensures
        r == is_audio_file(f@),
{
    str_ends_with(f, ".m4b") || str_ends_with(f, ".mp3") || str_ends_with(f, ".flac")
}

pub fn is_ebook_path(f: &str) -> (r: bool)
    ensures
        r == is_ebook_file(f@),
{
    str_ends_with(f, ".epub") || str_ends_with(f, ".pdf") || str_ends_with(f, ".azw3")
}

/// Classifies a download payload by the extensions of its files; a payload
/// without a supported file is invalid with the reason
/// "no supported media files".
pub fn classify_payload(files: &[String]) -> (r: Classification)
    ensures
        r.media_type == classify_spec(files@),
        r.media_type == ImportMediaType::Invalid <==> r.reason is Some,
        r.reason matches Some(reason) ==> reason@ == "no supported media files"@,
{
    let mut audio = false;
    let mut ebook = false;
    let mut i: usize = 0;
    while i < files.len()
        invariant
            i <= files.len(),
            audio == exists|j: int| 0 <= j < i && is_audio_file(#[trigger] files@[j]@),
            ebook == exists|j: int| 0 <= j < i && is_ebook_file(#[trigger] files@[j]@),
        decreases files.len() - i,
    {
        if is_audio_path(files[i].as_str()) {
            audio = true;
        }
        if is_ebook_path(files[i].as_str()) {
            ebook = true;
        }
        i = i + 1;
    }
    if audio && !ebook {
        Classification::audiobook()
    } else if !audio && ebook {
        Classification::ebook()
    } else if audio && ebook {
        Classification::mixed()
    } else {
        Classification::invalid("no supported media files")
    }
}

/// A payload is classified by the extensions of its files alone: it is an
/// audiobook when some file ends in `.m4b`, `.mp3` or `.flac` and none in
/// `.epub`, `.pdf` or `.azw3`; an ebook in the reverse case; mixed when it
/// has both; invalid when it has neither.
pub proof fn lemma_classify_by_extension(files: Seq<String>)
    ensures
        (classify_spec(files) == ImportMediaType::Audiobook) <==> ((exists|i: int|
            0 <= i < files.len() && (ends_with(#[trigger] files[i]@, ".m4b"@) || ends_with(
                files[i]@,
                ".mp3"@,
            ) || ends_with(files[i]@, ".flac"@))) && !(exists|i: int|
            0 <= i < files.len() && (ends_with(#[trigger] files[i]@, ".epub"@) || ends_with(
                files[i]@,
                ".pdf"@,
            ) || ends_with(files[i]@, ".azw3"@)))),
        (classify_spec(files) == ImportMediaType::Ebook) <==> (!(exists|i: int|
            0 <= i < files.len() && (ends_with(#[trigger] files[i]@, ".m4b"@) || ends_with(
                files[i]@,
                ".mp3"@,
            ) || ends_with(files[i]@, ".flac"@))) && (exists|i: int|
            0 <= i < files.len() && (ends_with(#[trigger] files[i]@, ".epub"@) || ends_with(
                files[i]@,
                ".pdf"@,
            ) || ends_with(files[i]@, ".azw3"@)))),
        (classify_spec(files) == ImportMediaType::Mixed) <==> ((exists|i: int|
            0 <= i < files.len() && (ends_with(#[trigger] files[i]@, ".m4b"@) || ends_with(
                files[i]@,
                ".mp3"@,
            ) || ends_with(files[i]@, ".flac"@))) && (exists|i: int|
            0 <= i < files.len() && (ends_with(#[trigger] files[i]@, ".epub"@) || ends_with(
                files[i]@,
                ".pdf"@,
            ) || ends_with(files[i]@, ".azw3"@)))),
        (classify_spec(files) == ImportMediaType::Invalid) <==> (forall|i: int|
            0 <= i < files.len() ==> !ends_with(#[trigger] files[i]@, ".m4b"@) && !ends_with(
                files[i]@,
                ".mp3"@,
            ) && !ends_with(files[i]@, ".flac"@) && !ends_with(files[i]@, ".epub"@) && !ends_with(
                files[i]@,
                ".pdf"@,
            ) && !ends_with(files[i]@, ".azw3"@)),
{
}

} // verus!
