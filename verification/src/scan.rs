//! What a scan of the library root decides about each directory entry and each audio file.

use vstd::prelude::*;
use crate::library::LocalFile;
use crate::path::{components_of, file_name, name_of};
use crate::text::{
    all_digits, back_spaces, last_index, last_of, matches_at, skip_spaces, slice_string,
    starts_with, to_chars, trim,
};

verus! {

/// `Path::file_stem` of a file name: the text before its last `.`, unless that dot opens the name.
pub open spec fn stem(name: Seq<char>) -> Seq<char> {
    match last_of(name, '.') {
        Some(k) => if k == 0 {
            name
        } else {
            name.take(k)
        },
        None => name,
    }
}

/// `Path::extension` of a file name: the text after its last `.`, unless that dot opens the name.
pub open spec fn extension(name: Seq<char>) -> Option<Seq<char>> {
    match last_of(name, '.') {
        Some(k) => if k == 0 {
            None
        } else {
            Some(name.skip(k + 1))
        },
        None => None,
    }
}

/// The id in a stem that ends in `[digits]`.
pub open spec fn id_in_stem(stem: Seq<char>) -> Option<Seq<char>> {
    if stem.len() > 0 && stem.last() == ']' {
        let inner = stem.drop_last();
        match last_of(inner, '[') {
            Some(k) => {
                let id = inner.skip(k + 1);
                if id.len() > 0 && all_digits(id) {
                    Some(id)
                } else {
                    None
                }
            },
            None => None,
        }
    } else {
        None
    }
}

/// The track id in a file's name: the digits in the `[...]` that closes its stem.
pub open spec fn id_of_path(path: Seq<char>) -> Option<Seq<char>> {
    match file_name(path) {
        Some(n) => id_in_stem(stem(n)),
        None => None,
    }
}

/// ASCII letters in lower case, everything else unchanged.
pub open spec fn ascii_lower(s: Seq<char>) -> Seq<char> {
    s.map_values(|c: char| if 'A' <= c && c <= 'Z' { ((c as u32) + 32) as char } else { c })
}

/// The audio formats a scan picks up, by lower-case extension.
pub open spec fn is_audio_format(e: Seq<char>) -> bool {
    ||| e == "m4a"@
    ||| e == "mp3"@
    ||| e == "opus"@
    ||| e == "flac"@
    ||| e == "wav"@
    ||| e == "aiff"@
    ||| e == "ogg"@
}

/// What a scan does with a directory entry.
pub enum Entry {
    /// Hidden, or not an audio file.
    Skip,
    /// A folder to scan too.
    Folder,
    /// An audio file to record.
    Audio,
}

/// Hidden entries are skipped, folders are scanned, and files count when their extension,
/// in any case, is one of the audio formats.
pub open spec fn entry_kind(name: Seq<char>, is_dir: bool) -> Entry {
    if name.len() > 0 && name[0] == '.' {
        Entry::Skip
    } else if is_dir {
        Entry::Folder
    } else {
        match extension(name) {
            Some(e) => if is_audio_format(ascii_lower(e)) {
                Entry::Audio
            } else {
                Entry::Skip
            },
            None => Entry::Skip,
        }
    }
}

/// What ffprobe printed for the url tag, if it is a url.
pub open spec fn probed_url(out: Seq<char>) -> Option<Seq<char>> {
    if starts_with(trim(out), "http"@) {
        Some(trim(out))
    } else {
        None
    }
}

fn equals_literal(v: &[char], lit: &str) -> (r: bool)
    ensures
        r == (v@ == lit@),
{
    let l = to_chars(lit);
    crate::text::same_chars(v, &l)
}

/// Whether a lower-case extension names an audio format.
pub fn is_audio(e: &[char]) -> (r: bool)
    ensures
        r == is_audio_format(e@),
{
    equals_literal(e, "m4a") || equals_literal(e, "mp3") || equals_literal(e, "opus")
        || equals_literal(e, "flac") || equals_literal(e, "wav") || equals_literal(e, "aiff")
        || equals_literal(e, "ogg")
}

/// Decides what a scan does with an entry of the given name.
pub fn classify(name: &str, is_dir: bool) -> (r: Entry)
    ensures
        r == entry_kind(name@, is_dir),
{
    let n = to_chars(name);
    if n.len() > 0 && n[0] == '.' {
        return Entry::Skip;
    }
    if is_dir {
        return Entry::Folder;
    }
    match last_index(&n, '.') {
        None => Entry::Skip,
        Some(k) => {
            if k == 0 {
                return Entry::Skip;
            }
            let mut lower: Vec<char> = Vec::new();
            let mut i = k + 1;
            while i < n.len()
                invariant
                    k < n.len(),
                    k + 1 <= i <= n.len(),
                    lower@ =~= ascii_lower(n@.skip(k + 1)).take(i - k - 1),
                decreases n.len() - i,
            {
                let c = n[i];
                lower.push(if 'A' <= c && c <= 'Z' { ((c as u8) + 32) as char } else { c });
                i = i + 1;
            }
            assert(lower@ =~= ascii_lower(n@.skip(k + 1)));
            if is_audio(&lower) {
                Entry::Audio
            } else {
                Entry::Skip
            }
        },
    }
}

/// The id in a stem, computed.
fn id_in(stem: &[char]) -> (r: Option<String>)
    ensures
        r matches Some(s) ==> id_in_stem(stem@) == Some(s@),
        r is None ==> id_in_stem(stem@) is None,
{
    let n = stem.len();
    if n == 0 || stem[n - 1] != ']' {
        return None;
    }
    let inner = crate::text::copy_range(stem, 0, n - 1);
    assert(inner@ =~= stem@.drop_last());
    match last_index(&inner, '[') {
        None => None,
        Some(k) => {
            if k + 1 == inner.len() {
                return None;
            }
            let mut i = k + 1;
            while i < inner.len()
                invariant
                    k < inner.len(),
                    k + 1 <= i <= inner.len(),
                    stem@.len() > 0 && stem@.last() == ']',
                    inner@ == stem@.drop_last(),
                    last_of(inner@, '[') == Some(k as int),
                    forall|j: int| k + 1 <= j < i ==> '0' <= #[trigger] inner@[j] && inner@[j] <= '9',
                decreases inner.len() - i,
            {
                let c = inner[i];
                if !('0' <= c && c <= '9') {
                    let ghost id = inner@.skip(k + 1);
                    assert(id[i - k - 1] == c);
                    assert(!all_digits(id));
                    return None;
                }
                i = i + 1;
            }
            assert(all_digits(inner@.skip(k + 1))) by {
                assert forall|j: int| 0 <= j < inner@.skip(k + 1).len() implies '0' <= #[trigger] inner@.skip(
                    k + 1,
                )[j] && inner@.skip(k + 1)[j] <= '9' by {
                    assert(inner@.skip(k + 1)[j] == inner@[k + 1 + j]);
                }
            }
            Some(slice_string(&inner, k + 1, inner.len()))
        },
    }
}

/// The track id in the name of the file at `path`: the digits in the `[...]` that closes its stem.
pub fn id_from_name(path: &str) -> (r: Option<String>)
    ensures
        r matches Some(s) ==> id_of_path(path@) == Some(s@),
        r is None ==> id_of_path(path@) is None,
{
    let comps = components_of(path);
    let name = match name_of(&comps) {
        Some(n) => n,
        None => return None,
    };
    let base = match last_index(name, '.') {
        Some(k) => if k == 0 {
            crate::text::copy_range(name, 0, name.len())
        } else {
            crate::text::copy_range(name, 0, k)
        },
        None => crate::text::copy_range(name, 0, name.len()),
    };
    assert(base@ =~= stem(name@));
    id_in(&base)
}

/// The url that ffprobe printed for the file's url tag, when it is one.
pub fn probe_url(out: &str) -> (r: Option<String>)
    ensures
        r matches Some(s) ==> probed_url(out@) == Some(s@),
        r is None ==> probed_url(out@) is None,
{
    let v = to_chars(out);
    let a = skip_spaces(&v, 0);
    let b = back_spaces(&v, a, v.len());
    let t = crate::text::copy_range(&v, a, b);
    assert(t@ == trim(out@));
    let http = to_chars("http");
    if matches_at(&t, &http, 0) {
        Some(slice_string(&v, a, b))
    } else {
        None
    }
}

} // verus!

verus! {

/// The id a scan takes from a file's path: the one in its name, when the name's stem is
/// readable text.
pub open spec fn id_for(path: Seq<char>, stem_readable: bool) -> Option<Seq<char>> {
    if stem_readable {
        id_of_path(path)
    } else {
        None
    }
}

/// The record of an audio file before any url tag is read.
pub fn audio_file(path: String, stem_readable: bool) -> (f: LocalFile)
    ensures
        f.path@ == path@,
        f.url is None,
        f.id matches Some(i) ==> id_for(path@, stem_readable) == Some(i@),
        f.id is None ==> id_for(path@, stem_readable) is None,
{
    let id = if stem_readable {
        id_from_name(path.as_str())
    } else {
        None
    };
    LocalFile { path, id, url: None }
}

/// Only a file whose name gives no id has its url tag read (one ffprobe run each).
pub fn needs_tag(f: &LocalFile) -> (b: bool)
    ensures
        b == (f.id is None),
{
    f.id.is_none()
}

/// The record once ffprobe printed `out` for the file's url tag: the url, when the name gave
/// no id and the output is one.
pub fn with_tag(f: LocalFile, out: &str) -> (r: LocalFile)
    ensures
        r.path == f.path,
        r.id == f.id,
        r.url matches Some(u) ==> f.id is None && probed_url(out@) == Some(u@),
        r.url is None ==> f.id is Some || probed_url(out@) is None,
{
    if f.id.is_some() {
        return LocalFile { path: f.path, id: f.id, url: None };
    }
    LocalFile { path: f.path, id: f.id, url: probe_url(out) }
}

} // verus!
