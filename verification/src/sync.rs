//! What a sync decides from what scdl reports and from the plan.

use vstd::prelude::*;
use crate::library::{Playlist, Row, Status, StatusView, Track};
use crate::text::{
    contains, contains_chars, copy_range, find_from, find_index, first_from, first_index, to_chars,
};

verus! {

/// The id in an scdl error line about a DRM-protected track
/// (`ERROR: [soundcloud] 775475710: This video is DRM protected`): the text after the first
/// `] ` up to the first `:` or the next `] `, whichever comes first.
pub open spec fn drm_id_of(line: Seq<char>) -> Option<Seq<char>> {
    if !contains(line, "DRM protected"@) {
        None
    } else {
        match find_from(line, "] "@, 0) {
            None => None,
            Some(a) => {
                let end = match find_from(line, "] "@, a + 2) {
                    Some(b) => b,
                    None => line.len() as int,
                };
                let colon = first_from(line, ':', a + 2);
                Some(line.subrange(a + 2, if colon < end { colon } else { end }))
            },
        }
    }
}

/// `ERROR: [soundcloud] 775475710: This video is DRM protected` -> `775475710`
pub fn drm_id(line: &str) -> (r: Option<&str>)
    ensures
        r matches Some(s) ==> drm_id_of(line@) == Some(s@),
        r is None ==> drm_id_of(line@) is None,
{
    let v = to_chars(line);
    let marker = to_chars("DRM protected");
    if !contains_chars(&v, &marker) {
        return None;
    }
    let sep = to_chars("] ");
    proof {
        reveal_strlit("] ");
        assert(sep@.len() == 2);
        crate::text::lemma_find_from(v@, sep@, 0);
    }
    let a = match find_index(&v, &sep, 0) {
        Some(a) => a,
        None => return None,
    };
    let n = v.len();
    assert(a + 2 <= n);
    proof {
        crate::text::lemma_find_from(v@, sep@, a + 2);
        crate::path::lemma_first_from(v@, ':', a + 2);
    }
    let end = match find_index(&v, &sep, a + 2) {
        Some(b) => b,
        None => n,
    };
    let colon = first_index(&v, ':', a + 2);
    let stop = if colon < end { colon } else { end };
    Some(line.substring_char(a + 2, stop))
}

/// `str::lines` from position `i`: pieces ended by `\n`, each without a `\r` just before it,
/// and a last piece when the text does not end in `\n`.
pub open spec fn lines_from(s: Seq<char>, i: int) -> Seq<Seq<char>>
    decreases s.len() - i,
{
    if i < 0 || i >= s.len() {
        Seq::empty()
    } else {
        let k = first_from(s, '\n', i);
        proof {
            crate::path::lemma_first_from(s, '\n', i);
        }
        if k < s.len() {
            let l = s.subrange(i, k);
            let l = if l.len() > 0 && l.last() == '\r' {
                l.drop_last()
            } else {
                l
            };
            seq![l] + lines_from(s, k + 1)
        } else {
            seq![s.subrange(i, s.len() as int)]
        }
    }
}

/// The last of the lines that mention `ERROR`.
pub open spec fn last_error(lines: Seq<Seq<char>>) -> Option<Seq<char>>
    decreases lines.len(),
{
    if lines.len() == 0 {
        None
    } else if contains(lines.last(), "ERROR"@) {
        Some(lines.last())
    } else {
        last_error(lines.drop_last())
    }
}

/// Why a playlist could not be listed: the last line of scdl's error output that mentions
/// `ERROR`, or a fixed message.
pub open spec fn listing_error_of(stderr: Seq<char>) -> Seq<char> {
    match last_error(lines_from(stderr, 0)) {
        Some(l) => l,
        None => "could not list playlist"@,
    }
}

/// The message shown when scdl's listing cannot be read.
pub fn listing_error(stderr: &str) -> (r: String)
    ensures
        r@ == listing_error_of(stderr@),
{
    let s = to_chars(stderr);
    let marker = to_chars("ERROR");
    let mut found: Option<Vec<char>> = None;
    let ghost mut done: Seq<Seq<char>> = Seq::empty();
    let mut i: usize = 0;
    while i < s.len()
        invariant
            i <= s.len(),
            s@ == stderr@,
            marker@ == "ERROR"@,
            lines_from(s@, 0) == done + lines_from(s@, i as int),
            found matches Some(l) ==> last_error(done) == Some(l@),
            found is None ==> last_error(done) is None,
        decreases s.len() - i,
    {
        let k = first_index(&s, '\n', i);
        proof {
            crate::path::lemma_first_from(s@, '\n', i as int);
        }
        let mut line_end = k;
        if k < s.len() && k > i && s[k - 1] == '\r' {
            line_end = k - 1;
        }
        let line = copy_range(&s, i, line_end);
        let ghost l = line@;
        proof {
            if k < s.len() {
                let raw = s@.subrange(i as int, k as int);
                if raw.len() > 0 && raw.last() == '\r' {
                    assert(l =~= raw.drop_last());
                } else {
                    assert(l =~= raw);
                }
            }
        }
        assert(lines_from(s@, i as int) == seq![l] + lines_from(s@, if k < s.len() { k + 1 } else { s.len() as int }));
        let hit = contains_chars(&line, &marker);
        proof {
            assert((done + seq![l]).drop_last() =~= done);
            assert((done + seq![l]).last() == l);
            assert(done + (seq![l] + lines_from(s@, if k < s.len() { k + 1 } else { s.len() as int }))
                =~= (done + seq![l]) + lines_from(s@, if k < s.len() { k + 1 } else { s.len() as int }));
            done = done + seq![l];
        }
        if hit {
            found = Some(line);
        }
        if k < s.len() {
            i = k + 1;
        } else {
            i = s.len();
        }
    }
    assert(done =~= done + lines_from(s@, i as int));
    match found {
        Some(l) => crate::text::from_chars(l.as_slice()),
        None => String::from_str("could not list playlist"),
    }
}

/// The ids of the tracks, among the first `n`, whose row is not `New`.
pub open spec fn skipped(tracks: Seq<Track>, rows: Seq<Row>, n: int) -> Seq<Seq<char>>
    decreases n,
{
    if n <= 0 {
        Seq::empty()
    } else {
        skipped(tracks, rows, n - 1) + if rows[n - 1].status@ != StatusView::New {
            seq![tracks[n - 1].id@]
        } else {
            Seq::empty()
        }
    }
}

pub open spec fn string_views(v: Seq<String>) -> Seq<Seq<char>> {
    v.map_values(|s: String| s@)
}

/// The ids scdl must treat as already downloaded: every track whose row is not `New`.
/// Tracks and rows are paired in order.
pub fn skip_ids(tracks: &[Track], rows: &[Row]) -> (r: Vec<String>)
    ensures
        string_views(r@) == skipped(
            tracks@,
            rows@,
            if tracks.len() <= rows.len() { tracks.len() as int } else { rows.len() as int },
        ),
{
    let n = if tracks.len() <= rows.len() { tracks.len() } else { rows.len() };
    let mut r: Vec<String> = Vec::new();
    let mut i: usize = 0;
    while i < n
        invariant
            i <= n <= tracks.len(),
            n <= rows.len(),
            string_views(r@) =~= skipped(tracks@, rows@, i as int),
        decreases n - i,
    {
        let is_new = match &rows[i].status {
            Status::New => true,
            _ => false,
        };
        if !is_new {
            r.push(tracks[i].id.clone());
        }
        i = i + 1;
    }
    r
}

/// The text of scdl's archive file: one `soundcloud <id>` line per id.
pub open spec fn archive_of(ids: Seq<Seq<char>>) -> Seq<char>
    decreases ids.len(),
{
    if ids.len() == 0 {
        Seq::empty()
    } else {
        archive_of(ids.drop_last()) + "soundcloud "@ + ids.last() + "\n"@
    }
}

/// Writes the archive that makes scdl skip the given ids.
pub fn archive_text(ids: &[String]) -> (r: String)
    ensures
        r@ == archive_of(string_views(ids@)),
{
    let mut r = String::new();
    let mut i: usize = 0;
    while i < ids.len()
        invariant
            i <= ids.len(),
            r@ == archive_of(string_views(ids@).take(i as int)),
        decreases ids.len() - i,
    {
        r.append("soundcloud ");
        r.append(ids[i].as_str());
        r.append("\n");
        assert(string_views(ids@).take(i + 1).drop_last() =~= string_views(ids@).take(i as int));
        i = i + 1;
    }
    assert(string_views(ids@).take(ids.len() as int) =~= string_views(ids@));
    r
}

/// Decimal digits of `n`, as `Display` prints an unsigned integer.
pub open spec fn decimal(n: nat) -> Seq<char>
    decreases n,
{
    if n < 10 {
        seq![(48 + n) as char]
    } else {
        decimal(n / 10).push((48 + n % 10) as char)
    }
}

fn push_decimal(out: &mut Vec<char>, n: usize)
    ensures
        final(out)@ == old(out)@ + decimal(n as nat),
    decreases n,
{
    if n >= 10 {
        push_decimal(out, n / 10);
    }
    let d = (n % 10) as u8;
    out.push((48u8 + d) as char);
}

/// `n` in decimal.
pub fn decimal_string(n: usize) -> (r: String)
    ensures
        r@ == decimal(n as nat),
{
    let mut v: Vec<char> = Vec::new();
    push_decimal(&mut v, n);
    assert(v@ =~= decimal(n as nat));
    crate::text::from_chars(v.as_slice())
}

/// `<new> new of <total> tracks`
pub open spec fn tally_of(new: nat, total: nat) -> Seq<char> {
    decimal(new) + " new of "@ + decimal(total) + " tracks"@
}

/// The log line that says how much a sync downloads.
pub fn tally(new: usize, total: usize) -> (r: String)
    ensures
        r@ == tally_of(new as nat, total as nat),
{
    let mut r = decimal_string(new);
    r.append(" new of ");
    let t = decimal_string(total);
    r.append(t.as_str());
    r.append(" tracks");
    r
}

/// `── <folder, or url while the folder is not known>`
pub open spec fn header_of(url: Seq<char>, dir: Seq<char>) -> Seq<char> {
    "── "@ + if dir.len() == 0 {
        url
    } else {
        dir
    }
}

/// The log line that opens the sync of a playlist.
pub fn sync_header(p: &Playlist) -> (r: String)
    ensures
        r@ == header_of(p.url@, p.dir@),
{
    let mut r = String::from_str("── ");
    if p.dir.as_str().is_empty() {
        r.append(p.url.as_str());
    } else {
        r.append(p.dir.as_str());
    }
    r
}

} // verus!

verus! {

/// The ids of DRM-protected tracks named in scdl's error lines, in order.
pub open spec fn drm_ids_of(lines: Seq<Seq<char>>) -> Seq<Seq<char>>
    decreases lines.len(),
{
    if lines.len() == 0 {
        Seq::empty()
    } else {
        drm_ids_of(lines.drop_last()) + match drm_id_of(lines.last()) {
            Some(i) => seq![i],
            None => Seq::empty(),
        }
    }
}

/// Collects, in order, the id from every line that names a DRM-protected track.
pub fn drm_ids(lines: &[String]) -> (r: Vec<String>)
    ensures
        string_views(r@) == drm_ids_of(string_views(lines@)),
{
    let mut r: Vec<String> = Vec::new();
    let mut i: usize = 0;
    while i < lines.len()
        invariant
            i <= lines.len(),
            string_views(r@) == drm_ids_of(string_views(lines@).take(i as int)),
        decreases lines.len() - i,
    {
        assert(string_views(lines@).take(i + 1).drop_last() =~= string_views(lines@).take(i as int));
        assert(string_views(lines@).take(i + 1).last() == lines@[i as int]@);
        let ghost before = string_views(r@);
        match drm_id(lines[i].as_str()) {
            Some(id) => {
                r.push(String::from_str(id));
                assert(string_views(r@) =~= before + seq![id@]);
            },
            None => {
                assert(string_views(r@) =~= before + Seq::<Seq<char>>::empty());
            },
        }
        i = i + 1;
    }
    assert(string_views(lines@).take(lines.len() as int) =~= string_views(lines@));
    r
}

} // verus!
