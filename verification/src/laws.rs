//! What holds of the library as a whole.

use vstd::prelude::*;
use crate::library::{
    extra_rows, has_url, in_dir, is_extra, lemma_first_file, listed, copy_of, no_separators,
    plan_rows, row_views, shown_name, title_folder, track_row, LocalFile, PlaylistView, Row, RowView,
    StatusView, Track, NAME_FORMAT,
};
use crate::path::{
    components, file_name, is_name, keep_segment, lemma_first_from, parent_is, segments_from,
};
use crate::run::{link_from, link_src, stepped, ActionView, Event, MsgView, Stage, SyncRun};
use crate::scan::{ascii_lower, entry_kind, id_of_path, stem, Entry};
use crate::sync::{drm_id_of, skipped};
use crate::text::{
    all_digits, back_while, contains, find_from, first_from, is_char, is_space, last_of, lemma_back_while,
    lemma_find_from_contains, lemma_last_of, lemma_skip_while, occurs_at, skip_while, space, trim,
    trim_start_char,
};
use crate::ui::{
    after_key, CommandView, InputView, Key,
    count_rows, is_drm, is_extra as is_extra_row, is_have, is_link, is_new, log_cap, logged,
};

verus! {

/// For every remote track, its row says where the track stands:
/// `have` exactly when a copy sits in the playlist's folder (the row shows that copy's name);
/// `link` exactly when no copy sits there but one is elsewhere in the library (the row names
/// that copy's path); otherwise `drm` when its id is recorded as DRM protected, else `new`.
/// So a sync downloads a track only when no copy of it exists anywhere in the library.
pub proof fn law_track_status(
    tracks: Seq<Track>,
    files: Seq<LocalFile>,
    dir: Seq<char>,
    unavailable: Seq<String>,
    i: int,
)
    requires
        0 <= i < tracks.len(),
    ensures
        ({
            let t = tracks[i];
            let row = plan_rows(tracks, files, dir, unavailable)[i];
            let here = exists|k: int| 0 <= k < files.len() && copy_of(t, files[k]) && in_dir(files[k], dir);
            let anywhere = exists|k: int| 0 <= k < files.len() && copy_of(t, files[k]);
            &&& (row.status is Have) == here
            &&& row.status is Have ==> exists|k: int|
                0 <= k < files.len() && copy_of(t, files[k]) && in_dir(files[k], dir) && row.name
                    == shown_name(files[k])
            &&& (row.status is Link) == (!here && anywhere)
            &&& (row.status matches StatusView::Link(src) ==> exists|k: int|
                0 <= k < files.len() && copy_of(t, files[k]) && files[k].path@ == src
                    && row.name == shown_name(files[k]))
            &&& (row.status is Drm) == (!anywhere && listed(unavailable, t.id@))
            &&& (row.status is New) == (!anywhere && !listed(unavailable, t.id@))
        }),
{
    let t = tracks[i];
    assert(plan_rows(tracks, files, dir, unavailable)[i] == track_row(t, files, dir, unavailable));
    lemma_first_file(t, files, dir, true, 0);
    lemma_first_file(t, files, dir, false, 0);
}

pub open spec fn extra_row(f: LocalFile) -> RowView {
    RowView { status: StatusView::Extra, name: shown_name(f) }
}

pub proof fn lemma_extra_rows(files: Seq<LocalFile>, tracks: Seq<Track>, dir: Seq<char>)
    ensures
        extra_rows(files, tracks, dir) == files.filter(|f: LocalFile| is_extra(f, tracks, dir)).map_values(
            |f: LocalFile| extra_row(f),
        ),
    decreases files.len(),
{
    reveal_with_fuel(Seq::filter, 1);
    if files.len() > 0 {
        lemma_extra_rows(files.drop_last(), tracks, dir);
        let pred = |f: LocalFile| is_extra(f, tracks, dir);
        let before = files.drop_last().filter(pred);
        if is_extra(files.last(), tracks, dir) {
            assert(before.push(files.last()).map_values(|f: LocalFile| extra_row(f)) =~= before.map_values(
                |f: LocalFile| extra_row(f),
            ) + seq![extra_row(files.last())]);
        } else {
            assert(before.map_values(|f: LocalFile| extra_row(f)) =~= before.map_values(
                |f: LocalFile| extra_row(f),
            ) + Seq::<RowView>::empty());
        }
    } else {
        assert(files.filter(|f: LocalFile| is_extra(f, tracks, dir)) =~= Seq::<LocalFile>::empty());
    }
}

/// The rows after the remote tracks are exactly the files in the playlist's folder that no
/// remote track matches, in scan order, each marked `extra` under its file name: a track taken
/// off the playlist is shown, and nothing in the plan removes it.
pub proof fn law_extras(tracks: Seq<Track>, files: Seq<LocalFile>, dir: Seq<char>, unavailable: Seq<String>)
    ensures
        plan_rows(tracks, files, dir, unavailable).len() >= tracks.len(),
        plan_rows(tracks, files, dir, unavailable).skip(tracks.len() as int) == files.filter(
            |f: LocalFile| is_extra(f, tracks, dir),
        ).map_values(|f: LocalFile| extra_row(f)),
{
    lemma_extra_rows(files, tracks, dir);
    let rows = plan_rows(tracks, files, dir, unavailable);
    assert(rows.skip(tracks.len() as int) =~= extra_rows(files, tracks, dir));
}

} // verus!

verus! {

/// A folder made from a playlist title is a single plain folder name inside the root: not
/// empty, not hidden, without `/` or `\`, and exactly one path component that is a name.
pub proof fn law_title_folder(title: Seq<char>)
    ensures
        ({
            let d = title_folder(title);
            &&& d.len() > 0
            &&& d[0] != '.'
            &&& forall|i: int| 0 <= i < d.len() ==> d[i] != '/' && d[i] != '\\'
            &&& components(d) == seq![d]
            &&& is_name(d)
        }),
{
    let x = no_separators(title);
    let a = skip_while(x, space(), 0);
    lemma_skip_while(x, space(), 0);
    let b = back_while(x, space(), a, x.len() as int);
    lemma_back_while(x, space(), a, x.len() as int);
    let tr = trim(x);
    assert(tr == x.subrange(a, b));
    let c = skip_while(tr, is_char('.'), 0);
    lemma_skip_while(tr, is_char('.'), 0);
    let t = trim_start_char(tr, '.');
    let d = title_folder(title);
    if t.len() == 0 {
        reveal_strlit("playlist");
        assert(d == seq!['p', 'l', 'a', 'y', 'l', 'i', 's', 't']);
    } else {
        assert(d == t);
        assert(t[0] == tr[c]);
        assert forall|i: int| 0 <= i < d.len() implies d[i] != '/' && d[i] != '\\' by {
            assert(d[i] == x[a + c + i]);
        }
    }
    lemma_single_component(d);
}

/// A name with no `/` that does not start with `.` is a path of one component, itself.
pub proof fn lemma_single_component(d: Seq<char>)
    requires
        d.len() > 0,
        d[0] != '.',
        forall|i: int| 0 <= i < d.len() ==> d[i] != '/',
    ensures
        components(d) == seq![d],
        is_name(d),
{
    lemma_first_from(d, '/', 0);
    assert(first_from(d, '/', 0) == d.len());
    assert(d.subrange(0, d.len() as int) =~= d);
    assert(keep_segment(d, true));
    assert(segments_from(d, 0, true) =~= seq![d]);
    assert(components(d) =~= seq![d]);
    assert(d != seq!['/']) by {
        if d == seq!['/'] {
            assert(d[0] == '/');
        }
    }
    assert(d != seq!['.']) by {
        if d == seq!['.'] {
            assert(d[0] == '.');
        }
    }
    assert(d != seq!['.', '.']) by {
        if d == seq!['.', '.'] {
            assert(d[0] == '.');
        }
    }
}

} // verus!

verus! {

pub open spec fn joined(dir: Seq<char>, name: Seq<char>) -> Seq<char> {
    dir + seq!['/'] + name
}

proof fn lemma_first_from_joined(dir: Seq<char>, name: Seq<char>, i: int)
    requires
        0 <= i <= dir.len(),
    ensures
        first_from(joined(dir, name), '/', i) == first_from(dir, '/', i),
    decreases dir.len() - i,
{
    let t = joined(dir, name);
    if i < dir.len() {
        assert(t[i] == dir[i]);
        if dir[i] != '/' {
            lemma_first_from_joined(dir, name, i + 1);
        }
    } else {
        assert(t[i] == '/');
    }
}

proof fn lemma_segments_joined(dir: Seq<char>, name: Seq<char>, i: int, first: bool)
    requires
        0 <= i <= dir.len(),
        name.len() > 0,
        is_name(name),
        forall|j: int| 0 <= j < name.len() ==> name[j] != '/',
    ensures
        segments_from(joined(dir, name), i, first) == segments_from(dir, i, first).push(name),
    decreases dir.len() - i,
{
    let t = joined(dir, name);
    lemma_first_from_joined(dir, name, i);
    lemma_first_from(dir, '/', i);
    let k = first_from(dir, '/', i);
    assert(t.subrange(i, k) =~= dir.subrange(i, k));
    let seg = dir.subrange(i, k);
    let head: Seq<Seq<char>> = if keep_segment(seg, first) {
        seq![seg]
    } else {
        Seq::empty()
    };
    if k < dir.len() {
        lemma_segments_joined(dir, name, k + 1, false);
        assert(segments_from(t, i, first) == head + segments_from(t, k + 1, false));
        assert(segments_from(dir, i, first) == head + segments_from(dir, k + 1, false));
        assert(head + segments_from(dir, k + 1, false).push(name) =~= (head + segments_from(
            dir,
            k + 1,
            false,
        )).push(name));
    } else {
        let j: int = dir.len() as int + 1;
        lemma_first_from(t, '/', j);
        assert forall|m: int| j <= m < t.len() implies t[m] != '/' by {
            assert(t[m] == name[m - j]);
        }
        assert(first_from(t, '/', j) == t.len());
        assert(t.subrange(j, t.len() as int) =~= name);
        assert(name != seq!['.']);
        assert(keep_segment(name, false));
        assert(segments_from(t, j, false) =~= seq![name]);
        assert(segments_from(t, i, first) == head + seq![name]);
        assert(segments_from(dir, i, first) == head);
        assert(head + seq![name] =~= head.push(name));
    }
}

/// A file placed in a folder (`<dir>/<name>`) is seen in that folder and under that name:
/// its components are the folder's plus the name, `Path::parent` gives the folder back, and
/// `Path::file_name` gives the name.
pub proof fn law_file_in_folder(dir: Seq<char>, name: Seq<char>)
    requires
        dir.len() > 0,
        name.len() > 0,
        is_name(name),
        forall|j: int| 0 <= j < name.len() ==> name[j] != '/',
    ensures
        components(joined(dir, name)) == components(dir).push(name),
        parent_is(joined(dir, name), dir),
        file_name(joined(dir, name)) == Some(name),
{
    let t = joined(dir, name);
    lemma_segments_joined(dir, name, 0, true);
    assert(t[0] == dir[0]);
    let root: Seq<Seq<char>> = if dir[0] == '/' {
        seq![seq!['/']]
    } else {
        Seq::empty()
    };
    assert(components(t) == root + segments_from(dir, 0, true).push(name));
    assert(components(dir) == root + segments_from(dir, 0, true));
    assert(root + segments_from(dir, 0, true).push(name) =~= (root + segments_from(dir, 0, true)).push(
        name,
    ));
    assert(components(t).drop_last() =~= components(dir));
}

} // verus!

verus! {

proof fn lemma_last_at(s: Seq<char>, c: char, k: int)
    requires
        0 <= k < s.len(),
        s[k] == c,
        forall|j: int| k < j < s.len() ==> s[j] != c,
    ensures
        last_of(s, c) == Some(k),
{
    lemma_last_of(s, c);
}

/// A name that ends in ` [<id>].<ext>`.
pub open spec fn bracketed(title: Seq<char>, id: Seq<char>, ext: Seq<char>) -> Seq<char> {
    title + seq![' ', '['] + id + seq![']', '.'] + ext
}

/// A file named `<title> [<digits>].<ext>` is recognised by those digits, whatever the title
/// holds (brackets and dots included).
proof fn lemma_bracketed_id(dir: Seq<char>, title: Seq<char>, id: Seq<char>, ext: Seq<char>)
    requires
        dir.len() > 0,
        id.len() > 0,
        all_digits(id),
        forall|j: int| 0 <= j < title.len() ==> title[j] != '/',
        forall|j: int| 0 <= j < ext.len() ==> ext[j] != '/' && ext[j] != '.',
    ensures
        id_of_path(joined(dir, bracketed(title, id, ext))) == Some(id),
{
    let n = bracketed(title, id, ext);
    let tl = title.len() as int;
    let il = id.len() as int;
    assert forall|j: int| 0 <= j < n.len() implies n[j] != '/' by {
        if j < tl {
            assert(n[j] == title[j]);
        } else if j < tl + 2 {
        } else if j < tl + 2 + il {
            assert(n[j] == id[j - tl - 2]);
        } else if j < tl + 2 + il + 2 {
        } else {
            assert(n[j] == ext[j - tl - il - 4]);
        }
    }
    assert(n.len() >= 5);
    assert(is_name(n));
    law_file_in_folder(dir, n);
    let p = tl + 2 + il + 1;
    assert(n[p] == '.');
    assert forall|j: int| p < j < n.len() implies n[j] != '.' by {
        assert(n[j] == ext[j - p - 1]);
    }
    lemma_last_at(n, '.', p);
    let st = stem(n);
    assert(st =~= title + seq![' ', '['] + id + seq![']']);
    let inner = st.drop_last();
    assert(inner =~= title + seq![' ', '['] + id);
    let q = tl + 1;
    assert(inner[q] == '[');
    assert forall|j: int| q < j < inner.len() implies inner[j] != '[' by {
        assert(inner[j] == id[j - q - 1]);
    }
    lemma_last_at(inner, '[', q);
    assert(inner.skip(q + 1) =~= id);
}

} // verus!

verus! {

proof fn lemma_find_at(s: Seq<char>, p: Seq<char>, i: int, k: int)
    requires
        0 <= i <= k,
        p.len() > 0,
        occurs_at(s, p, k),
        forall|m: int| i <= m < k ==> !occurs_at(s, p, m),
    ensures
        find_from(s, p, i) == Some(k),
    decreases k - i,
{
    if i < k {
        lemma_find_at(s, p, i + 1, k);
    }
}

/// The line scdl prints when a track is DRM protected.
pub open spec fn drm_line(id: Seq<char>) -> Seq<char> {
    "ERROR: [soundcloud] "@ + id + ": This video is DRM protected"@
}

/// The id of a DRM-protected track comes back out of scdl's error line, for any id without
/// `:` or `]`.
pub proof fn law_drm_line(id: Seq<char>)
    requires
        forall|j: int| 0 <= j < id.len() ==> id[j] != ':' && id[j] != ']',
    ensures
        drm_id_of(drm_line(id)) == Some(id),
{
    reveal_strlit("ERROR: [soundcloud] ");
    reveal_strlit(": This video is DRM protected");
    reveal_strlit("DRM protected");
    reveal_strlit("] ");
    let pre = "ERROR: [soundcloud] "@;
    let post = ": This video is DRM protected"@;
    let line = drm_line(id);
    let il = id.len() as int;
    assert(pre.len() == 20);
    assert(post.len() == 29);
    let w = 20 + il + 16;
    assert(line.subrange(w, w + 13) =~= "DRM protected"@);
    assert(occurs_at(line, "DRM protected"@, w));
    assert(contains(line, "DRM protected"@));
    let sep = "] "@;
    assert(line.subrange(18, 20) =~= sep);
    assert forall|m: int| 0 <= m < 18 implies !occurs_at(line, sep, m) by {
        assert(line[m] == pre[m]);
        if occurs_at(line, sep, m) {
            assert(line.subrange(m, m + 2)[0] == sep[0]);
        }
    }
    lemma_find_at(line, sep, 0, 18);
    let colon = first_from(line, ':', 20);
    lemma_first_from(line, ':', 20);
    assert(line[20 + il] == ':');
    assert forall|m: int| 20 <= m < 20 + il implies line[m] != ':' && line[m] != ']' by {
        assert(line[m] == id[m - 20]);
    }
    assert(colon == 20 + il);
    crate::text::lemma_find_from(line, sep, 20);
    if let Some(b) = find_from(line, sep, 20) {
        lemma_find_from_contains(line, sep, 20);
        assert(line.subrange(b, b + 2)[0] == sep[0]);
        assert(line[b] == ']');
        assert(b > 20 + il);
    }
    assert(line.subrange(20, 20 + il) =~= id);
}

} // verus!

verus! {

/// scdl downloads exactly the new tracks: its archive lists the id of every track whose row
/// is not `new` and no other id, and the number of tracks left to download is the number of
/// `new` rows.
pub proof fn law_skip_list(tracks: Seq<Track>, rows: Seq<Row>, n: int)
    requires
        0 <= n <= tracks.len(),
        n <= rows.len(),
    ensures
        forall|i: int|
            0 <= i < n && rows[i].status@ != StatusView::New ==> skipped(tracks, rows, n).contains(
                tracks[i].id@,
            ),
        forall|x: Seq<char>|
            skipped(tracks, rows, n).contains(x) ==> exists|i: int|
                0 <= i < n && rows[i].status@ != StatusView::New && tracks[i].id@ == x,
        n - skipped(tracks, rows, n).len() == count_rows(rows.take(n), is_new()),
    decreases n,
{
    if n > 0 {
        law_skip_list(tracks, rows, n - 1);
        let before = skipped(tracks, rows, n - 1);
        let now = skipped(tracks, rows, n);
        assert(rows.take(n).drop_last() =~= rows.take(n - 1));
        assert(rows.take(n).last() == rows[n - 1]);
        if rows[n - 1].status@ != StatusView::New {
            assert(now == before.push(tracks[n - 1].id@));
            assert(now[now.len() - 1] == tracks[n - 1].id@);
            assert forall|x: Seq<char>| now.contains(x) implies exists|i: int|
                0 <= i < n && rows[i].status@ != StatusView::New && tracks[i].id@ == x by {
                let k = choose|k: int| 0 <= k < now.len() && now[k] == x;
                if k < before.len() {
                    assert(before[k] == x);
                    assert(before.contains(x));
                } else {
                    assert(x == tracks[n - 1].id@);
                    assert(rows[n - 1].status@ != StatusView::New);
                }
            }
            assert forall|i: int| 0 <= i < n && rows[i].status@ != StatusView::New implies now.contains(
                tracks[i].id@,
            ) by {
                if i < n - 1 {
                    let k = choose|k: int| 0 <= k < before.len() && before[k] == tracks[i].id@;
                    assert(now[k] == before[k]);
                }
            }
            assert(!(rows[n - 1].status is New));
        } else {
            assert(now =~= before);
            assert(rows[n - 1].status is New);
        }
    } else {
        assert(rows.take(0) =~= Seq::<Row>::empty());
    }
}

/// Every row of a plan counts under exactly one status.
pub proof fn law_counts(rows: Seq<Row>)
    ensures
        count_rows(rows, is_have()) + count_rows(rows, is_new()) + count_rows(rows, is_link())
            + count_rows(rows, is_drm()) + count_rows(rows, is_extra_row()) == rows.len(),
    decreases rows.len(),
{
    if rows.len() > 0 {
        law_counts(rows.drop_last());
    }
}

/// The log never holds more than 1000 lines, and its last line is the one just added.
pub proof fn law_log_cap(log: Seq<String>, line: String)
    requires
        log.len() <= log_cap(),
    ensures
        logged(log, line).len() <= log_cap(),
        logged(log, line).last() == line,
{
}

/// No id is recorded twice.
pub open spec fn distinct_ids(ids: Seq<String>) -> bool {
    forall|i: int, j: int| 0 <= i < j < ids.len() ==> ids[i]@ != ids[j]@
}

/// Recording a DRM-protected id keeps the recorded ids distinct, and the id is recorded
/// afterwards.
pub proof fn law_record_once(ids: Seq<String>, id: String)
    requires
        distinct_ids(ids),
    ensures
        ({
            let after = if listed(ids, id@) {
                ids
            } else {
                ids.push(id)
            };
            distinct_ids(after) && listed(after, id@)
        }),
{
    if !listed(ids, id@) {
        let after = ids.push(id);
        assert(after[ids.len() as int]@ == id@);
        assert forall|i: int, j: int| 0 <= i < j < after.len() implies after[i]@ != after[j]@ by {
            if j == ids.len() {
                assert(after[i] == ids[i]);
            } else {
                assert(after[i] == ids[i] && after[j] == ids[j]);
            }
        }
    }
}

/// No two playlists have the same url.
pub open spec fn distinct_urls(ps: Seq<PlaylistView>) -> bool {
    forall|i: int, j: int| 0 <= i < j < ps.len() ==> ps[i].url != ps[j].url
}

/// Adding a playlist keeps the urls distinct.
pub proof fn law_add_keeps_urls_distinct(ps: Seq<PlaylistView>, p: PlaylistView)
    requires
        distinct_urls(ps),
    ensures
        distinct_urls(if has_url(ps, p.url) { ps } else { ps.push(p) }),
{
    if !has_url(ps, p.url) {
        let after = ps.push(p);
        assert forall|i: int, j: int| 0 <= i < j < after.len() implies after[i].url != after[j].url by {
            if j == ps.len() {
                assert(after[i] == ps[i]);
            } else {
                assert(after[i] == ps[i] && after[j] == ps[j]);
            }
        }
    }
}

} // verus!

verus! {

/// A track whose id is recorded as DRM protected is never downloaded again: its row is not
/// `new`, so its id is in scdl's download archive.
pub proof fn law_drm_not_retried(
    tracks: Seq<Track>,
    files: Seq<LocalFile>,
    dir: Seq<char>,
    unavailable: Seq<String>,
    rows: Seq<Row>,
    i: int,
)
    requires
        row_views(rows) == plan_rows(tracks, files, dir, unavailable),
        0 <= i < tracks.len(),
        listed(unavailable, tracks[i].id@),
    ensures
        rows[i].status@ != StatusView::New,
        skipped(tracks, rows, tracks.len() as int).contains(tracks[i].id@),
{
    law_track_status(tracks, files, dir, unavailable, i);
    law_extras(tracks, files, dir, unavailable);
    assert(rows.len() == plan_rows(tracks, files, dir, unavailable).len());
    assert(row_views(rows)[i] == rows[i]@);
    law_skip_list(tracks, rows, tracks.len() as int);
}

} // verus!

verus! {

/// `NAME_FORMAT` with its fields filled in: `<uploader> - <title> [<id>].<ext>`.
pub open spec fn filled_name(uploader: Seq<char>, title: Seq<char>, id: Seq<char>, ext: Seq<char>) -> Seq<char> {
    uploader + seq![' ', '-', ' '] + title + seq![' ', '['] + id + seq![']', '.'] + ext
}

/// The template scdl is given is `filled_name` of its placeholders, and a file that a sync
/// downloaded into a folder under that template is recognised by the track id in its name,
/// whatever the uploader and title hold (brackets and dots included).
pub proof fn law_download_name_has_id(
    dir: Seq<char>,
    uploader: Seq<char>,
    title: Seq<char>,
    id: Seq<char>,
    ext: Seq<char>,
)
    requires
        dir.len() > 0,
        id.len() > 0,
        all_digits(id),
        forall|j: int| 0 <= j < uploader.len() ==> uploader[j] != '/',
        forall|j: int| 0 <= j < title.len() ==> title[j] != '/',
        forall|j: int| 0 <= j < ext.len() ==> ext[j] != '/' && ext[j] != '.',
    ensures
        NAME_FORMAT@ == filled_name("%(uploader)s"@, "%(title)s"@, "%(id)s"@, "%(ext)s"@),
        id_of_path(joined(dir, filled_name(uploader, title, id, ext))) == Some(id),
{
    reveal_strlit("%(uploader)s - %(title)s [%(id)s].%(ext)s");
    reveal_strlit("%(uploader)s");
    reveal_strlit("%(title)s");
    reveal_strlit("%(id)s");
    reveal_strlit("%(ext)s");
    assert(NAME_FORMAT@ =~= filled_name("%(uploader)s"@, "%(title)s"@, "%(id)s"@, "%(ext)s"@));
    let head = uploader + seq![' ', '-', ' '] + title;
    assert forall|j: int| 0 <= j < head.len() implies head[j] != '/' by {
        if j < uploader.len() {
            assert(head[j] == uploader[j]);
        } else if j >= uploader.len() + 3 {
            assert(head[j] == title[j - uploader.len() - 3]);
        }
    }
    assert(filled_name(uploader, title, id, ext) =~= bracketed(head, id, ext));
    lemma_bracketed_id(dir, head, id, ext);
}

} // verus!

verus! {

/// With nothing being typed, the arrow keys and `j`/`k` move the selection: `↓` and `j` step
/// down, `↑` and `k` step up, and no other key steps, whether or not a sync runs.
pub proof fn law_selection_keys(k: Key, busy: bool)
    ensures
        after_key(InputView::Idle, k, busy).0 == InputView::Idle || k == Key::Char('a'),
        (after_key(InputView::Idle, k, busy).1 == CommandView::Step { down: true }) <==> (k
            == Key::Down || k == Key::Char('j')),
        (after_key(InputView::Idle, k, busy).1 == CommandView::Step { down: false }) <==> (k
            == Key::Up || k == Key::Char('k')),
{
}

/// A track is matched by a file only through exact equality of ids or of urls: its row is
/// `have` exactly when a file in the folder has the track's id or the track's url, and `new`
/// exactly when no file anywhere has either and the id is not recorded as DRM protected.
pub proof fn law_exact_match(
    tracks: Seq<Track>,
    files: Seq<LocalFile>,
    dir: Seq<char>,
    unavailable: Seq<String>,
    i: int,
)
    requires
        0 <= i < tracks.len(),
    ensures
        ({
            let t = tracks[i];
            let row = plan_rows(tracks, files, dir, unavailable)[i];
            let same = |f: LocalFile|
                (f.id is Some && f.id->0@ == t.id@) || (f.url is Some && f.url->0@ == t.url@);
            &&& (row.status is Have) <==> exists|k: int|
                0 <= k < files.len() && same(files[k]) && in_dir(files[k], dir)
            &&& (row.status is New) <==> ((forall|k: int| 0 <= k < files.len() ==> !same(files[k]))
                && !(exists|m: int| 0 <= m < unavailable.len() && unavailable[m]@ == t.id@))
        }),
{
    let t = tracks[i];
    law_track_status(tracks, files, dir, unavailable, i);
    let same = |f: LocalFile|
        (f.id is Some && f.id->0@ == t.id@) || (f.url is Some && f.url->0@ == t.url@);
    assert forall|k: int| 0 <= k < files.len() implies same(files[k]) == copy_of(t, files[k]) by {}
}

/// The scan picks up a file by its extension, in any letter case, exactly when that extension
/// is `m4a`, `mp3`, `opus`, `flac`, `wav`, `aiff` or `ogg` (hidden files aside).
pub proof fn law_audio_extensions(base: Seq<char>, ext: Seq<char>)
    requires
        base.len() > 0,
        base[0] != '.',
        forall|j: int| 0 <= j < ext.len() ==> ext[j] != '.',
    ensures
        ({
            let e = ascii_lower(ext);
            (entry_kind(base + seq!['.'] + ext, false) == Entry::Audio) <==> (e == "m4a"@ || e
                == "mp3"@ || e == "opus"@ || e == "flac"@ || e == "wav"@ || e == "aiff"@ || e
                == "ogg"@)
        }),
{
    let name = base + seq!['.'] + ext;
    let p = base.len() as int;
    assert(name[p] == '.');
    assert forall|j: int| p < j < name.len() implies name[j] != '.' by {
        assert(name[j] == ext[j - p - 1]);
    }
    lemma_last_at(name, '.', p);
    assert(name.skip(p + 1) =~= ext);
    assert(name[0] == base[0]);
}

} // verus!

verus! {

proof fn lemma_link_from(rows: Seq<Row>, k: int)
    requires
        0 <= k,
    ensures
        link_from(rows, k) matches Some(j) ==> k <= j < rows.len() && rows[j].status is Link
            && forall|m: int| k <= m < j ==> !(rows[m].status is Link),
        link_from(rows, k) is None ==> forall|m: int| k <= m < rows.len() ==> !(rows[m].status is Link),
    decreases rows.len() - k,
{
    if k < rows.len() && !(rows[k].status is Link) {
        lemma_link_from(rows, k + 1);
    }
}

/// Every row of the plan marked `link` is linked into the playlist's folder, once each and in
/// plan order, before scdl runs: once the folder is made (from the first row) and after each
/// link (from the row after it), the next action links the first `link` row still ahead,
/// naming the copy found elsewhere and the row's file name, and moves past that row only;
/// scdl is run, or the playlist left, only when no `link` row is ahead.
pub proof fn law_every_link_row_linked(old: SyncRun, new: SyncRun, ev: Event, msgs: Seq<MsgView>, act: ActionView)
    requires
        old.wf(),
        stepped(old, new, ev, msgs, act),
        (old.stage == Stage::MakingDir && ev matches Event::DirMade(Ok(_))) || (old.stage
            == Stage::Linking && ev is Linked),
    ensures
        ({
            let rows = old.rows@;
            let from: int = if old.stage == Stage::MakingDir {
                0
            } else {
                old.next_link as int
            };
            &&& forall|j: int|
                #![trigger rows[j]]
                from <= j < rows.len() && rows[j].status is Link && (forall|m: int|
                    from <= m < j ==> !(rows[m].status is Link)) ==> {
                    &&& act == ActionView::Link { src: link_src(rows[j]), dir: old.dir@, name: rows[j].name@ }
                    &&& new.next_link == j + 1
                    &&& new.rows@ == rows
                    &&& new.stage == Stage::Linking
                }
            &&& !(act is Link) ==> forall|m: int| from <= m < rows.len() ==> !(rows[m].status is Link)
            &&& act is Download ==> forall|m: int| from <= m < rows.len() ==> !(rows[m].status is Link)
        }),
{
    let rows = old.rows@;
    let from: int = if old.stage == Stage::MakingDir {
        0
    } else {
        old.next_link as int
    };
    lemma_link_from(rows, from);
    match link_from(rows, from) {
        Some(j0) => {
            assert forall|j: int|
                #![trigger rows[j]]
                from <= j < rows.len() && rows[j].status is Link && (forall|m: int|
                    from <= m < j ==> !(rows[m].status is Link)) implies j == j0 by {
                if j < j0 {
                } else if j > j0 {
                    assert(!(rows[j0].status is Link));
                }
            }
        },
        None => {},
    }
}

} // verus!

verus! {

proof fn lemma_back_while_ends(s: Seq<char>, pred: spec_fn(char) -> bool, lo: int, j: int)
    requires
        0 <= lo <= j <= s.len(),
    ensures
        forall|i: int| back_while(s, pred, lo, j) <= i < j ==> pred(s[i]),
        back_while(s, pred, lo, j) > lo ==> !pred(s[back_while(s, pred, lo, j) - 1]),
    decreases j - lo,
{
    if j > lo && pred(s[j - 1]) {
        lemma_back_while_ends(s, pred, lo, j - 1);
    }
}

/// `a0` is where a title's leading white space ends, `a` where the dots right after it end,
/// and `b` where its trailing white space begins.
pub open spec fn title_bounds(title: Seq<char>, a0: int, a: int, b: int) -> bool {
    &&& 0 <= a0 <= a <= b <= title.len()
    &&& forall|i: int| 0 <= i < a0 ==> is_space(#[trigger] title[i])
    &&& a0 < title.len() ==> !is_space(title[a0])
    &&& forall|i: int| a0 <= i < a ==> #[trigger] title[i] == '.'
    &&& a < b ==> title[a] != '.'
    &&& forall|i: int| b <= i < title.len() ==> is_space(#[trigger] title[i])
    &&& b > a0 ==> !is_space(title[b - 1])
}

/// The folder made from a title keeps all of the title between its surrounding white space,
/// less the dots that open it, with each `/` and `\` turned into `-`; only a title with nothing
/// else becomes `playlist`. Here `a0` is where the leading white space ends, `a` where the
/// leading dots after it end, and `b` where the trailing white space begins.
pub proof fn law_title_folder_keeps_text(title: Seq<char>)
    ensures
        exists|a0: int, a: int, b: int|
            #[trigger] title_bounds(title, a0, a, b) && if a < b {
                &&& title_folder(title).len() == b - a
                &&& forall|i: int|
                    0 <= i < b - a ==> #[trigger] title_folder(title)[i] == if title[a + i] == '/'
                        || title[a + i] == '\\' {
                        '-'
                    } else {
                        title[a + i]
                    }
            } else {
                title_folder(title) == "playlist"@
            },
{
    let x = no_separators(title);
    assert forall|i: int| 0 <= i < x.len() implies (is_space(x[i]) == is_space(title[i])) && ((x[i]
        == '.') == (title[i] == '.')) by {}
    let a0 = skip_while(x, space(), 0);
    lemma_skip_while(x, space(), 0);
    let b = back_while(x, space(), a0, x.len() as int);
    lemma_back_while(x, space(), a0, x.len() as int);
    lemma_back_while_ends(x, space(), a0, x.len() as int);
    let tr = x.subrange(a0, b);
    assert(trim(x) == tr);
    let c = skip_while(tr, is_char('.'), 0);
    lemma_skip_while(tr, is_char('.'), 0);
    let a = a0 + c;
    assert forall|i: int| a0 <= i < a implies #[trigger] title[i] == '.' by {
        assert(tr[i - a0] == x[i]);
    }
    if a < b {
        assert(tr[c] == x[a]);
    }
    if a0 < x.len() && b == a0 {
        assert(is_space(x[a0]));
    }
    let t = trim_start_char(tr, '.');
    assert(t =~= x.subrange(a, b));
    assert(title_bounds(title, a0, a, b));
}

} // verus!
