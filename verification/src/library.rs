//! The library's data: playlists, listed tracks, local files, and the plan that says what a
//! sync of one playlist has to do.

use vstd::prelude::*;
use crate::path::{components, components_of, file_name, join, join_path, name_of, parent_is, parent_matches, views};
use crate::text::{
    back_spaces, copy_range, from_chars, skip_char, skip_spaces, slice_string, strip_all,
    to_chars, trim, trim_start_char, trim_start_str,
};

verus! {

/// The configuration file's name inside the library root.
pub const CONFIG: &'static str = "trackman.toml";

/// The name scdl gives a download. No playlist position in it: reordering a playlist must
/// never change a filename.
pub const NAME_FORMAT: &'static str = "%(uploader)s - %(title)s [%(id)s].%(ext)s";

/// What the configuration file holds.
pub struct Config {
    /// Track ids that failed as DRM protected; never retried.
    pub unavailable: Vec<String>,
    pub playlists: Vec<Playlist>,
}

#[derive(Clone)]
pub struct Playlist {
    pub url: String,
    /// Folder relative to the library root. Empty until the playlist title is known.
    pub dir: String,
}

/// One track of a playlist listing.
pub struct Track {
    pub id: String,
    pub url: String,
}

/// A playlist as SoundCloud lists it.
pub struct Remote {
    pub title: String,
    pub tracks: Vec<Track>,
}

/// An audio file found under the library root.
pub struct LocalFile {
    pub path: String,
    /// From `[id]` at the end of the filename (files trackman downloaded).
    pub id: Option<String>,
    /// From the WWWAUDIOFILE tag scdl embeds (older files without an id in the name).
    pub url: Option<String>,
}

/// Where a track stands for one playlist folder.
pub enum Status {
    Have,
    /// Found elsewhere in the library, at this path.
    Link(String),
    New,
    Drm,
    Extra,
}

pub struct Row {
    pub status: Status,
    pub name: String,
}

/// What a worker reports to the interface.
pub enum Msg {
    Remote(String, Result<Remote, String>),
    Scanned(Vec<LocalFile>),
    Log(String),
    Drm(String),
    Done,
}

pub ghost enum StatusView {
    Have,
    Link(Seq<char>),
    New,
    Drm,
    Extra,
}

pub ghost struct RowView {
    pub status: StatusView,
    pub name: Seq<char>,
}

impl View for Status {
    type V = StatusView;

    open spec fn view(&self) -> StatusView {
        match self {
            Status::Have => StatusView::Have,
            Status::Link(p) => StatusView::Link(p@),
            Status::New => StatusView::New,
            Status::Drm => StatusView::Drm,
            Status::Extra => StatusView::Extra,
        }
    }
}

impl View for Row {
    type V = RowView;

    open spec fn view(&self) -> RowView {
        RowView { status: self.status@, name: self.name@ }
    }
}

impl Default for Config {
    fn default() -> (c: Config)
        ensures
            c.unavailable@.len() == 0,
            c.playlists@.len() == 0,
    {
        Config { unavailable: Vec::new(), playlists: Vec::new() }
    }
}

pub open spec fn row_views(rows: Seq<Row>) -> Seq<RowView> {
    rows.map_values(|r: Row| r@)
}

/// A local file is a copy of a track when its `[id]` or its embedded url is the track's.
pub open spec fn copy_of(t: Track, f: LocalFile) -> bool {
    ||| (f.id matches Some(id) && id@ == t.id@)
    ||| (f.url matches Some(u) && u@ == t.url@)
}

/// The file sits directly in the playlist's folder.
pub open spec fn in_dir(f: LocalFile, dir: Seq<char>) -> bool {
    parent_is(f.path@, dir)
}

/// The name a file is shown under: its file name, or nothing.
pub open spec fn shown_name(f: LocalFile) -> Seq<char> {
    match file_name(f.path@) {
        Some(n) => n,
        None => Seq::empty(),
    }
}

pub open spec fn soundcloud() -> Seq<char> {
    "https://soundcloud.com/"@
}

/// A track not on disk is shown by its url without the SoundCloud prefix.
pub open spec fn slug(t: Track) -> Seq<char> {
    trim_start_str(t.url@, soundcloud())
}

/// The first file from index `j` on that matches `t` (and, when `here`, sits in `dir`).
pub open spec fn first_file(t: Track, files: Seq<LocalFile>, dir: Seq<char>, here: bool, j: int) -> Option<int>
    decreases files.len() - j,
{
    if j < 0 || j >= files.len() {
        None
    } else if copy_of(t, files[j]) && (!here || in_dir(files[j], dir)) {
        Some(j)
    } else {
        first_file(t, files, dir, here, j + 1)
    }
}

pub proof fn lemma_first_file(t: Track, files: Seq<LocalFile>, dir: Seq<char>, here: bool, j: int)
    requires
        0 <= j,
    ensures
        first_file(t, files, dir, here, j) matches Some(k) ==> j <= k < files.len() && copy_of(
            t,
            files[k],
        ) && (!here || in_dir(files[k], dir)),
        first_file(t, files, dir, here, j) is None ==> forall|k: int|
            j <= k < files.len() ==> !(copy_of(t, files[k]) && (!here || in_dir(files[k], dir))),
    decreases files.len() - j,
{
    if j < files.len() {
        lemma_first_file(t, files, dir, here, j + 1);
    }
}

/// `id` is among the recorded ids.
pub open spec fn listed(ids: Seq<String>, id: Seq<char>) -> bool {
    exists|k: int| 0 <= k < ids.len() && ids[k]@ == id
}

/// The row for one remote track.
pub open spec fn track_row(t: Track, files: Seq<LocalFile>, dir: Seq<char>, unavailable: Seq<String>) -> RowView {
    match first_file(t, files, dir, true, 0) {
        Some(j) => RowView { status: StatusView::Have, name: shown_name(files[j]) },
        None => match first_file(t, files, dir, false, 0) {
            Some(j) => RowView { status: StatusView::Link(files[j].path@), name: shown_name(files[j]) },
            None => if listed(unavailable, t.id@) {
                RowView { status: StatusView::Drm, name: slug(t) }
            } else {
                RowView { status: StatusView::New, name: slug(t) }
            },
        },
    }
}

/// A file in the folder that no remote track matches.
pub open spec fn is_extra(f: LocalFile, tracks: Seq<Track>, dir: Seq<char>) -> bool {
    in_dir(f, dir) && !(exists|i: int| 0 <= i < tracks.len() && copy_of(tracks[i], f))
}

/// The rows for the folder's files that the playlist no longer has, in file order.
pub open spec fn extra_rows(files: Seq<LocalFile>, tracks: Seq<Track>, dir: Seq<char>) -> Seq<RowView>
    decreases files.len(),
{
    if files.len() == 0 {
        Seq::empty()
    } else {
        extra_rows(files.drop_last(), tracks, dir) + if is_extra(files.last(), tracks, dir) {
            seq![RowView { status: StatusView::Extra, name: shown_name(files.last()) }]
        } else {
            Seq::empty()
        }
    }
}

/// One row per remote track, in playlist order, then the extras.
pub open spec fn plan_rows(tracks: Seq<Track>, files: Seq<LocalFile>, dir: Seq<char>, unavailable: Seq<String>) -> Seq<RowView> {
    Seq::new(tracks.len(), |i: int| track_row(tracks[i], files, dir, unavailable)) + extra_rows(
        files,
        tracks,
        dir,
    )
}

/// Whether the file is a copy of the track.
pub fn track_matches(t: &Track, f: &LocalFile) -> (r: bool)
    ensures
        r == copy_of(*t, *f),
        r == ((f.id is Some && f.id->0@ == t.id@) || (f.url is Some && f.url->0@ == t.url@)),
{
    let by_id = match &f.id {
        Some(id) => *id == t.id,
        None => false,
    };
    let by_url = match &f.url {
        Some(u) => *u == t.url,
        None => false,
    };
    by_id || by_url
}

/// Whether `id` is among `ids`.
pub fn is_listed(ids: &[String], id: &String) -> (r: bool)
    ensures
        r == listed(ids@, id@),
{
    let mut k: usize = 0;
    while k < ids.len()
        invariant
            k <= ids.len(),
            forall|m: int| 0 <= m < k ==> ids@[m]@ != id@,
        decreases ids.len() - k,
    {
        if ids[k] == *id {
            return true;
        }
        k = k + 1;
    }
    false
}

/// The track's url without the leading `https://soundcloud.com/`.
pub fn slug_of(t: &Track) -> (r: String)
    ensures
        r@ == slug(*t),
{
    let prefix = to_chars("https://soundcloud.com/");
    proof {
        reveal_strlit("https://soundcloud.com/");
    }
    let u = to_chars(t.url.as_str());
    let a = strip_all(&u, &prefix);
    slice_string(&u, a, u.len())
}

fn find_file(t: &Track, files: &[LocalFile], here: &Vec<bool>, need_here: bool, Ghost(dir): Ghost<Seq<char>>) -> (r: Option<usize>)
    requires
        here@.len() == files@.len(),
        forall|k: int| 0 <= k < files@.len() ==> here@[k] == in_dir(files@[k], dir),
    ensures
        r matches Some(j) ==> first_file(*t, files@, dir, need_here, 0) == Some(j as int),
        r is None ==> first_file(*t, files@, dir, need_here, 0) is None,
{
    let mut j: usize = 0;
    while j < files.len()
        invariant
            j <= files.len(),
            here@.len() == files@.len(),
            forall|k: int| 0 <= k < files@.len() ==> here@[k] == in_dir(files@[k], dir),
            first_file(*t, files@, dir, need_here, 0) == first_file(*t, files@, dir, need_here, j as int),
        decreases files.len() - j,
    {
        if track_matches(t, &files[j]) && (!need_here || here[j]) {
            return Some(j);
        }
        j = j + 1;
    }
    None
}

/// One row per remote track, in playlist order, then local files in `dir` the playlist no longer has.
pub fn plan(remote: &Remote, files: &[LocalFile], dir: &str, unavailable: &[String]) -> (rows: Vec<Row>)
    ensures
        row_views(rows@) == plan_rows(remote.tracks@, files@, dir@, unavailable@),
{
    let dir_comps = components_of(dir);
    let mut here: Vec<bool> = Vec::new();
    let mut names: Vec<String> = Vec::new();
    let mut j: usize = 0;
    while j < files.len()
        invariant
            j <= files.len(),
            views(dir_comps@) == components(dir@),
            here@.len() == j,
            names@.len() == j,
            forall|k: int| 0 <= k < j ==> here@[k] == in_dir(files@[k], dir@),
            forall|k: int| 0 <= k < j ==> names@[k]@ == shown_name(files@[k]),
        decreases files.len() - j,
    {
        let comps = components_of(files[j].path.as_str());
        here.push(parent_matches(&comps, &dir_comps));
        let name = match name_of(&comps) {
            Some(n) => from_chars(n.as_slice()),
            None => String::new(),
        };
        names.push(name);
        j = j + 1;
    }
    let tracks = &remote.tracks;
    let mut rows: Vec<Row> = Vec::new();
    let mut i: usize = 0;
    while i < tracks.len()
        invariant
            i <= tracks.len(),
            here@.len() == files@.len(),
            names@.len() == files@.len(),
            forall|k: int| 0 <= k < files@.len() ==> here@[k] == in_dir(files@[k], dir@),
            forall|k: int| 0 <= k < files@.len() ==> names@[k]@ == shown_name(files@[k]),
            row_views(rows@) =~= Seq::new(
                i as nat,
                |m: int| track_row(tracks@[m], files@, dir@, unavailable@),
            ),
        decreases tracks.len() - i,
    {
        let t = &tracks[i];
        proof {
            lemma_first_file(*t, files@, dir@, true, 0);
            lemma_first_file(*t, files@, dir@, false, 0);
        }
        let row = match find_file(t, files, &here, true, Ghost(dir@)) {
            Some(k) => Row { status: Status::Have, name: names[k].clone() },
            None => match find_file(t, files, &here, false, Ghost(dir@)) {
                Some(k) => Row { status: Status::Link(files[k].path.clone()), name: names[k].clone() },
                None => if is_listed(unavailable, &t.id) {
                    Row { status: Status::Drm, name: slug_of(t) }
                } else {
                    Row { status: Status::New, name: slug_of(t) }
                },
            },
        };
        assert(row@ == track_row(*t, files@, dir@, unavailable@));
        let ghost before = row_views(rows@);
        rows.push(row);
        assert(row_views(rows@) =~= before.push(track_row(tracks@[i as int], files@, dir@, unavailable@)));
        i = i + 1;
    }
    let ghost head = row_views(rows@);
    let mut j: usize = 0;
    while j < files.len()
        invariant
            j <= files.len(),
            here@.len() == files@.len(),
            names@.len() == files@.len(),
            forall|k: int| 0 <= k < files@.len() ==> here@[k] == in_dir(files@[k], dir@),
            forall|k: int| 0 <= k < files@.len() ==> names@[k]@ == shown_name(files@[k]),
            row_views(rows@) =~= head + extra_rows(files@.take(j as int), tracks@, dir@),
        decreases files.len() - j,
    {
        let f = &files[j];
        let mut matched = false;
        let mut i: usize = 0;
        while i < tracks.len()
            invariant
                i <= tracks.len(),
                !matched ==> forall|m: int| 0 <= m < i ==> !copy_of(tracks@[m], *f),
                matched ==> exists|m: int| 0 <= m < tracks@.len() && copy_of(tracks@[m], *f),
            decreases tracks.len() - i,
        {
            if track_matches(&tracks[i], f) {
                matched = true;
            }
            i = i + 1;
        }
        assert(files@.take(j + 1).drop_last() =~= files@.take(j as int));
        assert(files@.take(j + 1).last() == files@[j as int]);
        assert(matched == exists|m: int| 0 <= m < tracks@.len() && copy_of(tracks@[m], *f));
        let ghost before = row_views(rows@);
        if here[j] && !matched {
            rows.push(Row { status: Status::Extra, name: names[j].clone() });
            assert(row_views(rows@) =~= before + seq![
                RowView { status: StatusView::Extra, name: shown_name(files@[j as int]) },
            ]);
        } else {
            assert(row_views(rows@) =~= before + Seq::<RowView>::empty());
        }
        j = j + 1;
    }
    assert(files@.take(files@.len() as int) =~= files@);
    rows
}

/// The folder of a playlist: the configured one, else one made from the title.
pub open spec fn dir_of(dir: Seq<char>, title: Seq<char>) -> Seq<char> {
    if dir.len() > 0 {
        dir
    } else {
        title_folder(title)
    }
}

/// The path of a playlist's folder: its folder (configured, or made from the title) inside
/// `root`.
pub open spec fn folder_path(root: Seq<char>, dir: Seq<char>, title: Seq<char>) -> Seq<char> {
    join_path(root, dir_of(dir, title))
}

/// The path of a playlist's folder inside `root`.
pub fn folder(root: &str, p: &Playlist, remote: &Remote) -> (r: String)
    ensures
        r@ == folder_path(root@, p.dir@, remote.title@),
{
    let d = dir_name(p, remote);
    join(root, d.as_str())
}

/// The rows shown for a playlist: its plan against its folder inside `root`.
pub fn playlist_rows(root: &str, p: &Playlist, remote: &Remote, files: &[LocalFile], unavailable: &[String]) -> (rows: Vec<Row>)
    ensures
        row_views(rows@) == plan_rows(
            remote.tracks@,
            files@,
            folder_path(root@, p.dir@, remote.title@),
            unavailable@,
        ),
{
    let dir = folder(root, p, remote);
    plan(remote, files, dir.as_str(), unavailable)
}

/// Every `/` and `\` replaced by `-`.
pub open spec fn no_separators(s: Seq<char>) -> Seq<char> {
    s.map_values(|c: char| if c == '/' || c == '\\' { '-' } else { c })
}

/// A single folder name made from a playlist title: separators become `-`, surrounding white
/// space and leading dots go, and an empty result becomes `playlist`.
pub open spec fn title_folder(title: Seq<char>) -> Seq<char> {
    let t = trim_start_char(trim(no_separators(title)), '.');
    if t.len() == 0 {
        "playlist"@
    } else {
        t
    }
}

/// The folder a playlist syncs into, relative to the library root.
pub fn dir_name(p: &Playlist, remote: &Remote) -> (r: String)
    ensures
        r@ == dir_of(p.dir@, remote.title@),
{
    if p.dir.as_str().is_empty() == false {
        return p.dir.clone();
    }
    // The title comes from SoundCloud; keep it a single folder inside the root.
    let title = to_chars(remote.title.as_str());
    let mut v: Vec<char> = Vec::new();
    let mut i: usize = 0;
    while i < title.len()
        invariant
            i <= title.len(),
            v@ =~= no_separators(title@).take(i as int),
        decreases title.len() - i,
    {
        let c = title[i];
        v.push(if c == '/' || c == '\\' { '-' } else { c });
        i = i + 1;
    }
    assert(v@ =~= no_separators(title@));
    let a = skip_spaces(&v, 0);
    let b = back_spaces(&v, a, v.len());
    let trimmed = copy_range(&v, a, b);
    let c = skip_char(&trimmed, '.', 0);
    if c == trimmed.len() {
        return String::from_str("playlist");
    }
    slice_string(&trimmed, c, trimmed.len())
}

} // verus!

verus! {

pub ghost struct PlaylistView {
    pub url: Seq<char>,
    pub dir: Seq<char>,
}

impl View for Playlist {
    type V = PlaylistView;

    open spec fn view(&self) -> PlaylistView {
        PlaylistView { url: self.url@, dir: self.dir@ }
    }
}

pub open spec fn playlist_views(ps: Seq<Playlist>) -> Seq<PlaylistView> {
    ps.map_values(|p: Playlist| p@)
}

/// The first playlist from index `j` on with this url and no folder yet.
pub open spec fn first_unnamed(ps: Seq<PlaylistView>, url: Seq<char>, j: int) -> Option<int>
    decreases ps.len() - j,
{
    if j < 0 || j >= ps.len() {
        None
    } else if ps[j].url == url && ps[j].dir.len() == 0 {
        Some(j)
    } else {
        first_unnamed(ps, url, j + 1)
    }
}

/// Some playlist has this url.
pub open spec fn has_url(ps: Seq<PlaylistView>, url: Seq<char>) -> bool {
    exists|k: int| 0 <= k < ps.len() && ps[k].url == url
}

impl Config {
    /// Once a playlist added with a blank folder is listed, it takes the folder made from its
    /// title. Returns whether the configuration changed.
    pub fn adopt_title(&mut self, url: &String, remote: &Remote) -> (changed: bool)
        ensures
            final(self).unavailable@ == old(self).unavailable@,
            match first_unnamed(playlist_views(old(self).playlists@), url@, 0) {
                Some(k) => changed && playlist_views(final(self).playlists@) == playlist_views(
                    old(self).playlists@,
                ).update(k, PlaylistView { url: url@, dir: title_folder(remote.title@) }),
                None => !changed && playlist_views(final(self).playlists@) == playlist_views(
                    old(self).playlists@,
                ),
            },
    {
        let ghost ps = playlist_views(self.playlists@);
        let mut j: usize = 0;
        while j < self.playlists.len()
            invariant
                j <= self.playlists.len(),
                ps == playlist_views(self.playlists@),
                ps == playlist_views(old(self).playlists@),
                self.unavailable@ == old(self).unavailable@,
                first_unnamed(ps, url@, 0) == first_unnamed(ps, url@, j as int),
            decreases self.playlists.len() - j,
        {
            let p = &self.playlists[j];
            if p.url == *url && p.dir.as_str().is_empty() {
                assert(ps[j as int] == p@);
                assert(first_unnamed(ps, url@, j as int) == Some(j as int));
                let dir = dir_name(p, remote);
                let named = Playlist { url: p.url.clone(), dir };
                self.playlists.set(j, named);
                assert(playlist_views(self.playlists@) =~= ps.update(
                    j as int,
                    PlaylistView { url: url@, dir: title_folder(remote.title@) },
                ));
                return true;
            }
            j = j + 1;
        }
        false
    }

    /// Records a track id as DRM protected, once. Returns whether it was new.
    pub fn record_unavailable(&mut self, id: String) -> (added: bool)
        ensures
            added == !listed(old(self).unavailable@, id@),
            added ==> final(self).unavailable@ == old(self).unavailable@.push(id),
            !added ==> final(self).unavailable@ == old(self).unavailable@,
            final(self).playlists@ == old(self).playlists@,
    {
        if is_listed(self.unavailable.as_slice(), &id) {
            false
        } else {
            self.unavailable.push(id);
            true
        }
    }

    /// Adds a playlist unless one with the same url is there. Returns whether it was added.
    pub fn add_playlist(&mut self, url: String, dir: String) -> (added: bool)
        ensures
            added == !has_url(playlist_views(old(self).playlists@), url@),
            added ==> playlist_views(final(self).playlists@) == playlist_views(
                old(self).playlists@,
            ).push(PlaylistView { url: url@, dir: dir@ }),
            !added ==> final(self).playlists@ == old(self).playlists@,
            final(self).unavailable@ == old(self).unavailable@,
    {
        let mut j: usize = 0;
        while j < self.playlists.len()
            invariant
                j <= self.playlists.len(),
                forall|k: int| 0 <= k < j ==> self.playlists@[k].url@ != url@,
            decreases self.playlists.len() - j,
        {
            if self.playlists[j].url == url {
                assert(playlist_views(self.playlists@)[j as int].url == url@);
                return false;
            }
            j = j + 1;
        }
        let ghost before = playlist_views(self.playlists@);
        self.playlists.push(Playlist { url, dir });
        assert(playlist_views(self.playlists@) =~= before.push(PlaylistView { url: url@, dir: dir@ }));
        true
    }

    /// Removes the playlist at `i`, when there is one; its files stay.
    pub fn remove_playlist(&mut self, i: usize) -> (r: Option<Playlist>)
        ensures
            i < old(self).playlists@.len() ==> r == Some(old(self).playlists@[i as int])
                && final(self).playlists@ == old(self).playlists@.remove(i as int),
            i >= old(self).playlists@.len() ==> r is None && final(self).playlists@ == old(
                self,
            ).playlists@,
            final(self).unavailable@ == old(self).unavailable@,
    {
        if i < self.playlists.len() {
            Some(self.playlists.remove(i))
        } else {
            None
        }
    }
}

} // verus!
