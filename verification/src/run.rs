//! A sync of several playlists as a state machine: each step takes what the last action
//! produced and gives the messages to report and the next action. The caller performs the
//! actions (listing, scanning, making folders, linking, running scdl).

use vstd::prelude::*;
use crate::library::{
    folder, folder_path, plan, plan_rows, row_views, LocalFile, Msg, Playlist, Remote, Row, Status,
};
use crate::sync::{
    archive_of, archive_text, header_of, skip_ids, skipped, sync_header, tally, tally_of,
};

verus! {

/// Where a sync run stands.
#[derive(Clone, Copy, PartialEq, Eq, Structural)]
pub enum Stage {
    /// Not started.
    Begin,
    /// Waiting for the current playlist's listing.
    Listing,
    /// Waiting for the scan that the plan is made from.
    Scanning,
    /// Waiting for the playlist's folder to be made.
    MakingDir,
    /// Waiting for a link (or copy) into the folder.
    Linking,
    /// Waiting for scdl.
    Downloading,
    /// Waiting for the scan that ends the run.
    Rescanning,
    Finished,
}

/// What an action produced.
pub enum Event {
    Start,
    Listed(Result<Remote, String>),
    /// The library's files.
    Scanned { files: Vec<LocalFile> },
    DirMade(Result<(), String>),
    Linked(Result<(), String>),
    /// The ids that failed as DRM protected.
    Downloaded(Result<Vec<String>, String>),
}

/// What the caller does next.
pub enum Action {
    /// List the playlist at this url.
    Fetch(String),
    /// Scan the library root, for the plan of the current playlist.
    Scan,
    MakeDir(String),
    /// Hardlink (or copy) `src` into `dir` under `name`.
    Link { src: String, dir: String, name: String },
    /// Run scdl on the playlist into `dir`, with `archive` as its download archive.
    Download { url: String, dir: String, archive: String },
    /// Scan the library root once more, for the interface.
    Rescan,
    Finish,
}

pub ghost enum ActionView {
    Fetch(Seq<char>),
    Scan,
    MakeDir(Seq<char>),
    Link { src: Seq<char>, dir: Seq<char>, name: Seq<char> },
    Download { url: Seq<char>, dir: Seq<char>, archive: Seq<char> },
    Rescan,
    Finish,
}

pub ghost enum MsgView {
    Remote(Seq<char>, Result<Remote, Seq<char>>),
    Scanned(Seq<LocalFile>),
    Log(Seq<char>),
    Drm(Seq<char>),
    Done,
}

impl View for Action {
    type V = ActionView;

    open spec fn view(&self) -> ActionView {
        match self {
            Action::Fetch(u) => ActionView::Fetch(u@),
            Action::Scan => ActionView::Scan,
            Action::MakeDir(d) => ActionView::MakeDir(d@),
            Action::Link { src, dir, name } => ActionView::Link { src: src@, dir: dir@, name: name@ },
            Action::Download { url, dir, archive } => ActionView::Download {
                url: url@,
                dir: dir@,
                archive: archive@,
            },
            Action::Rescan => ActionView::Rescan,
            Action::Finish => ActionView::Finish,
        }
    }
}

impl View for Msg {
    type V = MsgView;

    open spec fn view(&self) -> MsgView {
        match self {
            Msg::Remote(u, r) => MsgView::Remote(
                u@,
                match r {
                    Ok(x) => Ok(*x),
                    Err(e) => Err(e@),
                },
            ),
            Msg::Scanned(f) => MsgView::Scanned(f@),
            Msg::Log(l) => MsgView::Log(l@),
            Msg::Drm(i) => MsgView::Drm(i@),
            Msg::Done => MsgView::Done,
        }
    }
}

pub open spec fn msg_views(m: Seq<Msg>) -> Seq<MsgView> {
    m.map_values(|x: Msg| x@)
}

/// A run over a list of playlists.
pub struct SyncRun {
    /// The library root; playlist folders are inside it.
    pub root: String,
    pub playlists: Vec<Playlist>,
    /// Ids known to be DRM protected; grows as scdl reports more.
    pub unavailable: Vec<String>,
    /// The playlist being synced.
    pub current: usize,
    pub stage: Stage,
    pub remote: Option<Remote>,
    pub rows: Vec<Row>,
    pub dir: String,
    /// Rows before this one have been linked.
    pub next_link: usize,
}

pub open spec fn within_playlist(s: Stage) -> bool {
    s == Stage::Listing || s == Stage::Scanning || s == Stage::MakingDir || s == Stage::Linking
        || s == Stage::Downloading
}

pub open spec fn listed_stage(s: Stage) -> bool {
    s == Stage::Scanning || s == Stage::MakingDir || s == Stage::Linking || s == Stage::Downloading
}

impl SyncRun {
    pub open spec fn wf(&self) -> bool {
        &&& self.current <= self.playlists@.len()
        &&& within_playlist(self.stage) ==> self.current < self.playlists@.len()
        &&& listed_stage(self.stage) ==> self.remote is Some
        &&& self.next_link <= self.rows@.len()
        &&& self.stage == Stage::Linking ==> self.next_link >= 1
    }
}

/// The header line opening playlist `i`.
pub open spec fn header_line(ps: Seq<Playlist>, i: int) -> MsgView {
    MsgView::Log(header_of(ps[i].url@, ps[i].dir@))
}

/// `error: <why>`
pub open spec fn error_line(e: Seq<char>) -> MsgView {
    MsgView::Log("error: "@ + e)
}

/// `linked <name>` or `link failed <name>: <why>`
pub open spec fn link_line(name: Seq<char>, res: Result<(), String>) -> MsgView {
    match res {
        Ok(_) => MsgView::Log("linked "@ + name),
        Err(e) => MsgView::Log("link failed "@ + name + ": "@ + e@),
    }
}

/// The first row at or after `k` whose track is to be linked.
pub open spec fn link_from(rows: Seq<Row>, k: int) -> Option<int>
    decreases rows.len() - k,
{
    if k < 0 || k >= rows.len() {
        None
    } else if rows[k].status is Link {
        Some(k)
    } else {
        link_from(rows, k + 1)
    }
}

pub open spec fn link_src(r: Row) -> Seq<char> {
    match r.status {
        Status::Link(p) => p@,
        _ => Seq::empty(),
    }
}

/// The run goes on with playlist `old.current + 1`, after the messages `pre`: its header and
/// listing, or the final scan when no playlist is left.
pub open spec fn moved_on(old: SyncRun, new: SyncRun, pre: Seq<MsgView>, msgs: Seq<MsgView>, act: ActionView) -> bool {
    let i = old.current + 1;
    &&& new.current == i
    &&& if i < old.playlists@.len() {
        &&& new.stage == Stage::Listing
        &&& msgs == pre.push(header_line(old.playlists@, i))
        &&& act == ActionView::Fetch(old.playlists@[i].url@)
    } else {
        &&& new.stage == Stage::Rescanning
        &&& msgs == pre
        &&& act == ActionView::Rescan
    }
}

/// The current playlist's plan, its folder and its listing stay as they were.
pub open spec fn keeps_playlist(old: SyncRun, new: SyncRun) -> bool {
    &&& new.current == old.current
    &&& new.remote == old.remote
    &&& new.rows@ == old.rows@
    &&& new.dir@ == old.dir@
}

/// The ids of the current listing's tracks that are not new.
pub open spec fn skip_of(remote: Remote, rows: Seq<Row>) -> Seq<Seq<char>> {
    let n = remote.tracks@.len();
    skipped(remote.tracks@, rows, if n <= rows.len() { n as int } else { rows.len() as int })
}

/// After the links before row `k`: the next link, or the tally and then scdl when some
/// track is new, or the next playlist when none is.
pub open spec fn links_from(old: SyncRun, new: SyncRun, k: int, pre: Seq<MsgView>, msgs: Seq<MsgView>, act: ActionView) -> bool {
    let rows = old.rows@;
    let remote = old.remote.unwrap();
    let p = old.playlists@[old.current as int];
    &&& new.unavailable@ == old.unavailable@
    &&& match link_from(rows, k) {
        Some(j) => {
            &&& keeps_playlist(old, new)
            &&& new.stage == Stage::Linking
            &&& new.next_link == j + 1
            &&& msgs == pre
            &&& act == ActionView::Link { src: link_src(rows[j]), dir: old.dir@, name: rows[j].name@ }
        },
        None => {
            let n = remote.tracks@.len();
            let skip = skip_of(remote, rows);
            let fresh = n - skip.len();
            let counted = pre.push(MsgView::Log(tally_of(fresh as nat, n)));
            if fresh > 0 {
                &&& keeps_playlist(old, new)
                &&& new.stage == Stage::Downloading
                &&& msgs == counted
                &&& act == ActionView::Download { url: p.url@, dir: old.dir@, archive: archive_of(skip) }
            } else {
                moved_on(old, new, counted.push(MsgView::Remote(p.url@, Ok(remote))), msgs, act)
            }
        },
    }
}

/// An event that does not answer the last action ends the run.
pub open spec fn ended(new: SyncRun, msgs: Seq<MsgView>, act: ActionView) -> bool {
    new.stage == Stage::Finished && msgs.len() == 0 && act == ActionView::Finish
}

/// One step of a run: what follows `ev` from state `old`.
pub open spec fn stepped(old: SyncRun, new: SyncRun, ev: Event, msgs: Seq<MsgView>, act: ActionView) -> bool {
    let ps = old.playlists@;
    let p = ps[old.current as int];
    &&& new.playlists@ == ps
    &&& new.root@ == old.root@
    &&& match ev {
        Event::Start => if old.stage == Stage::Begin {
            &&& new.unavailable@ == old.unavailable@
            &&& if old.current < ps.len() {
                &&& new.current == old.current
                &&& new.stage == Stage::Listing
                &&& msgs == seq![header_line(ps, old.current as int)]
                &&& act == ActionView::Fetch(p.url@)
            } else {
                &&& new.stage == Stage::Rescanning
                &&& msgs.len() == 0
                &&& act == ActionView::Rescan
            }
        } else {
            ended(new, msgs, act)
        },
        Event::Listed(res) => if old.stage == Stage::Listing {
            &&& new.unavailable@ == old.unavailable@
            &&& match res {
                Err(e) => moved_on(old, new, seq![error_line(e@)], msgs, act),
                Ok(r) => {
                    &&& new.current == old.current
                    &&& new.stage == Stage::Scanning
                    &&& new.remote == Some(r)
                    &&& new.dir@ == folder_path(old.root@, p.dir@, r.title@)
                    &&& msgs.len() == 0
                    &&& act == ActionView::Scan
                },
            }
        } else {
            ended(new, msgs, act)
        },
        Event::Scanned { files } => if old.stage == Stage::Scanning {
            &&& new.unavailable@ == old.unavailable@
            &&& new.current == old.current
            &&& new.remote == old.remote
            &&& new.stage == Stage::MakingDir
            &&& row_views(new.rows@) == plan_rows(
                old.remote.unwrap().tracks@,
                files@,
                old.dir@,
                old.unavailable@,
            )
            &&& new.dir@ == old.dir@
            &&& msgs.len() == 0
            &&& act == ActionView::MakeDir(old.dir@)
        } else if old.stage == Stage::Rescanning {
            &&& new.stage == Stage::Finished
            &&& msgs == seq![MsgView::Scanned(files@), MsgView::Done]
            &&& act == ActionView::Finish
        } else {
            ended(new, msgs, act)
        },
        Event::DirMade(res) => if old.stage == Stage::MakingDir {
            match res {
                Err(e) => new.unavailable@ == old.unavailable@ && moved_on(
                    old,
                    new,
                    seq![error_line(e@)],
                    msgs,
                    act,
                ),
                Ok(_) => links_from(old, new, 0, Seq::empty(), msgs, act),
            }
        } else {
            ended(new, msgs, act)
        },
        Event::Linked(res) => if old.stage == Stage::Linking {
            links_from(
                old,
                new,
                old.next_link as int,
                seq![link_line(old.rows@[old.next_link - 1].name@, res)],
                msgs,
                act,
            )
        } else {
            ended(new, msgs, act)
        },
        Event::Downloaded(res) => if old.stage == Stage::Downloading {
            match res {
                Err(e) => new.unavailable@ == old.unavailable@ && moved_on(
                    old,
                    new,
                    seq![error_line(e@)],
                    msgs,
                    act,
                ),
                Ok(ids) => {
                    &&& new.unavailable@ == old.unavailable@ + ids@
                    &&& moved_on(
                        old,
                        new,
                        ids@.map_values(|id: String| MsgView::Drm(id@)).push(
                            MsgView::Remote(p.url@, Ok(old.remote.unwrap())),
                        ),
                        msgs,
                        act,
                    )
                },
            }
        } else {
            ended(new, msgs, act)
        },
    }
}

} // verus!

verus! {

pub proof fn lemma_skipped_len(tracks: Seq<crate::library::Track>, rows: Seq<Row>, n: int)
    ensures
        skipped(tracks, rows, n).len() <= if n < 0 { 0 } else { n },
    decreases n,
{
    if n > 0 {
        lemma_skipped_len(tracks, rows, n - 1);
    }
}

fn is_link_row(r: &Row) -> (b: bool)
    ensures
        b == (r.status is Link),
{
    match &r.status {
        Status::Link(_) => true,
        _ => false,
    }
}

fn line_with(prefix: &str, tail: &String) -> (r: String)
    ensures
        r@ == prefix@ + tail@,
{
    let mut l = String::from_str(prefix);
    l.append(tail.as_str());
    l
}

impl SyncRun {
    /// A run over `playlists`, whose folders are inside `root`, knowing the ids in
    /// `unavailable` to be DRM protected.
    pub fn new(root: String, playlists: Vec<Playlist>, unavailable: Vec<String>) -> (r: SyncRun)
        ensures
            r.wf(),
            r.root@ == root@,
            r.stage == Stage::Begin,
            r.current == 0,
            r.playlists@ == playlists@,
            r.unavailable@ == unavailable@,
    {
        SyncRun {
            root,
            playlists,
            unavailable,
            current: 0,
            stage: Stage::Begin,
            remote: None,
            rows: Vec::new(),
            dir: String::new(),
            next_link: 0,
        }
    }

    fn open_next(&mut self, msgs: &mut Vec<Msg>) -> (a: Action)
        requires
            old(self).current < old(self).playlists@.len(),
            old(self).next_link <= old(self).rows@.len(),
        ensures
            final(self).wf(),
            moved_on(*old(self), *final(self), msg_views(old(msgs)@), msg_views(final(msgs)@), a@),
            final(self).playlists@ == old(self).playlists@,
            final(self).unavailable@ == old(self).unavailable@,
            final(self).root == old(self).root,
    {
        let n = self.playlists.len();
        self.current = self.current + 1;
        if self.current < n {
            let header = sync_header(&self.playlists[self.current]);
            let ghost before = msg_views(msgs@);
            msgs.push(Msg::Log(header));
            assert(msg_views(msgs@) =~= before.push(header_line(self.playlists@, self.current as int)));
            self.stage = Stage::Listing;
            Action::Fetch(self.playlists[self.current].url.clone())
        } else {
            self.stage = Stage::Rescanning;
            Action::Rescan
        }
    }

    fn continue_links(&mut self, msgs: &mut Vec<Msg>, from: usize) -> (a: Action)
        requires
            old(self).wf(),
            from <= old(self).rows@.len(),
            old(self).current < old(self).playlists@.len(),
            old(self).remote is Some,
        ensures
            final(self).wf(),
            links_from(
                *old(self),
                *final(self),
                from as int,
                msg_views(old(msgs)@),
                msg_views(final(msgs)@),
                a@,
            ),
            final(self).playlists@ == old(self).playlists@,
            final(self).root == old(self).root,
    {
        let mut j = from;
        while j < self.rows.len() && !is_link_row(&self.rows[j])
            invariant
                from <= j <= self.rows@.len(),
                link_from(self.rows@, from as int) == link_from(self.rows@, j as int),
            decreases self.rows@.len() - j,
        {
            j = j + 1;
        }
        if j < self.rows.len() {
            assert(link_from(self.rows@, j as int) == Some(j as int));
            let src = match &self.rows[j].status {
                Status::Link(p) => p.clone(),
                _ => String::new(),
            };
            let name = self.rows[j].name.clone();
            self.next_link = j + 1;
            self.stage = Stage::Linking;
            return Action::Link { src, dir: self.dir.clone(), name };
        }
        let url = self.playlists[self.current].url.clone();
        let (skip, total) = match &self.remote {
            Some(r) => (skip_ids(r.tracks.as_slice(), self.rows.as_slice()), r.tracks.len()),
            None => (Vec::new(), 0),
        };
        proof {
            let r = old(self).remote.unwrap();
            let n = r.tracks@.len();
            lemma_skipped_len(
                r.tracks@,
                self.rows@,
                if n <= self.rows@.len() { n as int } else { self.rows@.len() as int },
            );
            assert(crate::sync::string_views(skip@).len() == skip@.len());
        }
        let fresh = total - skip.len();
        let ghost before = msg_views(msgs@);
        msgs.push(Msg::Log(tally(fresh, total)));
        assert(msg_views(msgs@) =~= before.push(MsgView::Log(tally_of(fresh as nat, total as nat))));
        if fresh > 0 {
            self.stage = Stage::Downloading;
            return Action::Download { url, dir: self.dir.clone(), archive: archive_text(skip.as_slice()) };
        }
        let remote = self.remote.take().unwrap();
        let ghost before = msg_views(msgs@);
        msgs.push(Msg::Remote(url, Ok(remote)));
        assert(msg_views(msgs@) =~= before.push(
            MsgView::Remote(old(self).playlists@[old(self).current as int].url@, Ok(old(self).remote.unwrap())),
        ));
        self.open_next(msgs)
    }

    /// Takes what the last action produced; gives the messages to report and the next action.
    pub fn step(&mut self, ev: Event) -> (r: (Vec<Msg>, Action))
        requires
            old(self).wf(),
        ensures
            final(self).wf(),
            stepped(*old(self), *final(self), ev, msg_views(r.0@), r.1@),
    {
        let mut msgs: Vec<Msg> = Vec::new();
        let act = match ev {
            Event::Start => {
                if self.stage == Stage::Begin {
                    if self.current < self.playlists.len() {
                        msgs.push(Msg::Log(sync_header(&self.playlists[self.current])));
                        assert(msg_views(msgs@) =~= seq![header_line(self.playlists@, self.current as int)]);
                        self.stage = Stage::Listing;
                        Action::Fetch(self.playlists[self.current].url.clone())
                    } else {
                        self.stage = Stage::Rescanning;
                        Action::Rescan
                    }
                } else {
                    self.stage = Stage::Finished;
                    Action::Finish
                }
            },
            Event::Listed(res) => {
                if self.stage == Stage::Listing {
                    match res {
                        Err(e) => {
                            msgs.push(Msg::Log(line_with("error: ", &e)));
                            assert(msg_views(msgs@) =~= seq![error_line(e@)]);
                            self.open_next(&mut msgs)
                        },
                        Ok(r) => {
                            self.dir = folder(self.root.as_str(), &self.playlists[self.current], &r);
                            self.remote = Some(r);
                            self.stage = Stage::Scanning;
                            Action::Scan
                        },
                    }
                } else {
                    self.stage = Stage::Finished;
                    Action::Finish
                }
            },
            Event::Scanned { files } => {
                if self.stage == Stage::Scanning {
                    let rows = match &self.remote {
                        Some(r) => plan(r, files.as_slice(), self.dir.as_str(), self.unavailable.as_slice()),
                        None => Vec::new(),
                    };
                    self.rows = rows;
                    self.next_link = 0;
                    self.stage = Stage::MakingDir;
                    Action::MakeDir(self.dir.clone())
                } else if self.stage == Stage::Rescanning {
                    msgs.push(Msg::Scanned(files));
                    msgs.push(Msg::Done);
                    assert(msg_views(msgs@) =~= seq![MsgView::Scanned(files@), MsgView::Done]);
                    self.stage = Stage::Finished;
                    Action::Finish
                } else {
                    self.stage = Stage::Finished;
                    Action::Finish
                }
            },
            Event::DirMade(res) => {
                if self.stage == Stage::MakingDir {
                    match res {
                        Err(e) => {
                            msgs.push(Msg::Log(line_with("error: ", &e)));
                            assert(msg_views(msgs@) =~= seq![error_line(e@)]);
                            self.open_next(&mut msgs)
                        },
                        Ok(()) => {
                            assert(msg_views(msgs@) =~= Seq::<MsgView>::empty());
                            self.continue_links(&mut msgs, 0)
                        },
                    }
                } else {
                    self.stage = Stage::Finished;
                    Action::Finish
                }
            },
            Event::Linked(res) => {
                if self.stage == Stage::Linking {
                    let name = &self.rows[self.next_link - 1].name;
                    let line = match &res {
                        Ok(()) => line_with("linked ", name),
                        Err(e) => {
                            let mut l = line_with("link failed ", name);
                            l.append(": ");
                            l.append(e.as_str());
                            l
                        },
                    };
                    msgs.push(Msg::Log(line));
                    assert(msg_views(msgs@) =~= seq![link_line(self.rows@[self.next_link - 1].name@, res)]);
                    let from = self.next_link;
                    self.continue_links(&mut msgs, from)
                } else {
                    self.stage = Stage::Finished;
                    Action::Finish
                }
            },
            Event::Downloaded(res) => {
                if self.stage == Stage::Downloading {
                    match res {
                        Err(e) => {
                            msgs.push(Msg::Log(line_with("error: ", &e)));
                            assert(msg_views(msgs@) =~= seq![error_line(e@)]);
                            self.open_next(&mut msgs)
                        },
                        Ok(ids) => {
                            let ghost start = self.unavailable@;
                            let mut i: usize = 0;
                            while i < ids.len()
                                invariant
                                    i <= ids.len(),
                                    self.wf(),
                                    self.stage == Stage::Downloading,
                                    self.playlists@ == old(self).playlists@,
                                    self.current == old(self).current,
                                    self.remote == old(self).remote,
                                    self.root == old(self).root,
                                    self.unavailable@ == start + ids@.take(i as int),
                                    msg_views(msgs@) == ids@.take(i as int).map_values(
                                        |id: String| MsgView::Drm(id@),
                                    ),
                                decreases ids.len() - i,
                            {
                                self.unavailable.push(ids[i].clone());
                                let ghost before = msg_views(msgs@);
                                msgs.push(Msg::Drm(ids[i].clone()));
                                assert(msg_views(msgs@) =~= before.push(MsgView::Drm(ids@[i as int]@)));
                                assert(ids@.take(i + 1) =~= ids@.take(i as int).push(ids@[i as int]));
                                assert(ids@.take(i + 1).map_values(|id: String| MsgView::Drm(id@))
                                    =~= ids@.take(i as int).map_values(|id: String| MsgView::Drm(id@)).push(
                                    MsgView::Drm(ids@[i as int]@),
                                ));
                                i = i + 1;
                            }
                            assert(ids@.take(ids.len() as int) =~= ids@);
                            let url = self.playlists[self.current].url.clone();
                            let remote = self.remote.take().unwrap();
                            let ghost before = msg_views(msgs@);
                            msgs.push(Msg::Remote(url, Ok(remote)));
                            assert(msg_views(msgs@) =~= before.push(
                                MsgView::Remote(self.playlists@[self.current as int].url@, Ok(old(self).remote.unwrap())),
                            ));
                            self.open_next(&mut msgs)
                        },
                    }
                } else {
                    self.stage = Stage::Finished;
                    Action::Finish
                }
            },
        };
        (msgs, act)
    }
}

} // verus!
