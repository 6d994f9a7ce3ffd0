//! The interface's decisions: what a key press does, how the configuration changes, the log's
//! length, and the counts shown for a playlist.

use vstd::prelude::*;
use crate::library::{Row, Status, StatusView};
use crate::text::{
    back_char, back_spaces, copy_range, first_from, first_index, skip_char, skip_spaces, to_chars,
    trim, trim_char,
};

verus! {

/// A key, as far as the interface tells keys apart.
#[derive(Clone, Copy, PartialEq, Eq, Structural)]
pub enum Key {
    Char(char),
    Enter,
    Esc,
    Backspace,
    Tab,
    Up,
    Down,
    Other,
}

/// What the footer is reading.
pub enum Input {
    Idle,
    /// A playlist url being typed.
    Url(String),
    /// The folder for `url` being typed.
    Dir { url: String, buf: String },
}

/// What the interface does after a key.
pub enum Command {
    Nothing,
    Quit,
    Log(String),
    Add { url: String, dir: String },
    Refresh,
    SyncSelected,
    SyncAll,
    RemoveSelected,
    ToggleFocus,
    Step { down: bool },
}

pub ghost enum InputView {
    Idle,
    Url(Seq<char>),
    Dir { url: Seq<char>, buf: Seq<char> },
}

pub ghost enum CommandView {
    Nothing,
    Quit,
    Log(Seq<char>),
    Add { url: Seq<char>, dir: Seq<char> },
    Refresh,
    SyncSelected,
    SyncAll,
    RemoveSelected,
    ToggleFocus,
    Step { down: bool },
}

impl View for Input {
    type V = InputView;

    open spec fn view(&self) -> InputView {
        match self {
            Input::Idle => InputView::Idle,
            Input::Url(b) => InputView::Url(b@),
            Input::Dir { url, buf } => InputView::Dir { url: url@, buf: buf@ },
        }
    }
}

impl View for Command {
    type V = CommandView;

    open spec fn view(&self) -> CommandView {
        match self {
            Command::Nothing => CommandView::Nothing,
            Command::Quit => CommandView::Quit,
            Command::Log(l) => CommandView::Log(l@),
            Command::Add { url, dir } => CommandView::Add { url: url@, dir: dir@ },
            Command::Refresh => CommandView::Refresh,
            Command::SyncSelected => CommandView::SyncSelected,
            Command::SyncAll => CommandView::SyncAll,
            Command::RemoveSelected => CommandView::RemoveSelected,
            Command::ToggleFocus => CommandView::ToggleFocus,
            Command::Step { down } => CommandView::Step { down: *down },
        }
    }
}

/// A text field after a key: characters are typed, backspace removes the last one.
pub open spec fn edited(buf: Seq<char>, k: Key) -> Seq<char> {
    match k {
        Key::Char(c) => buf.push(c),
        Key::Backspace => if buf.len() > 0 {
            buf.drop_last()
        } else {
            buf
        },
        _ => buf,
    }
}

/// The url kept from what was typed: trimmed, and cut before any `?` (share links carry
/// tracking parameters; the secret token is in the path).
pub open spec fn url_of(buf: Seq<char>) -> Seq<char> {
    let t = trim(buf);
    t.take(first_from(t, '?', 0))
}

/// The folder kept from what was typed: trimmed, without leading or trailing `/`.
pub open spec fn folder_of(buf: Seq<char>) -> Seq<char> {
    trim_char(trim(buf), '/')
}

pub open spec fn busy_note() -> Seq<char> {
    "sync running, press Q to quit anyway"@
}

/// The command for a key when nothing is being typed.
pub open spec fn idle_command(k: Key, busy: bool) -> CommandView {
    if k == Key::Char('q') && busy {
        CommandView::Log(busy_note())
    } else if k == Key::Char('q') || k == Key::Char('Q') {
        CommandView::Quit
    } else if k == Key::Char('r') {
        CommandView::Refresh
    } else if k == Key::Char('s') {
        CommandView::SyncSelected
    } else if k == Key::Char('S') {
        CommandView::SyncAll
    } else if k == Key::Char('x') && !busy {
        CommandView::RemoveSelected
    } else if k == Key::Tab {
        CommandView::ToggleFocus
    } else if k == Key::Down || k == Key::Char('j') {
        CommandView::Step { down: true }
    } else if k == Key::Up || k == Key::Char('k') {
        CommandView::Step { down: false }
    } else {
        CommandView::Nothing
    }
}

/// The footer's next state and the command, for a key.
pub open spec fn after_key(input: InputView, k: Key, busy: bool) -> (InputView, CommandView) {
    match input {
        InputView::Url(buf) => if k == Key::Enter && trim(buf).len() > 0 {
            (InputView::Dir { url: url_of(buf), buf: Seq::empty() }, CommandView::Nothing)
        } else if k == Key::Esc {
            (InputView::Idle, CommandView::Nothing)
        } else {
            (InputView::Url(edited(buf, k)), CommandView::Nothing)
        },
        InputView::Dir { url, buf } => if k == Key::Enter {
            (InputView::Idle, CommandView::Add { url, dir: folder_of(buf) })
        } else if k == Key::Esc {
            (InputView::Idle, CommandView::Nothing)
        } else {
            (InputView::Dir { url, buf: edited(buf, k) }, CommandView::Nothing)
        },
        InputView::Idle => (
            if k == Key::Char('a') {
                InputView::Url(Seq::empty())
            } else {
                InputView::Idle
            },
            idle_command(k, busy),
        ),
    }
}

/// Applies a key to a text field.
pub fn edit(buf: String, k: Key) -> (r: String)
    ensures
        r@ == edited(buf@, k),
{
    match k {
        Key::Char(c) => {
            let mut b = buf;
            crate::text::push_char(&mut b, c);
            b
        },
        Key::Backspace => {
            let v = to_chars(buf.as_str());
            if v.len() == 0 {
                buf
            } else {
                let r = crate::text::slice_string(&v, 0, v.len() - 1);
                assert(r@ =~= buf@.drop_last());
                r
            }
        },
        _ => buf,
    }
}

fn url_from(buf: &String) -> (r: String)
    ensures
        r@ == url_of(buf@),
{
    let v = to_chars(buf.as_str());
    let a = skip_spaces(&v, 0);
    let b = back_spaces(&v, a, v.len());
    let t = copy_range(&v, a, b);
    let q = first_index(&t, '?', 0);
    crate::text::slice_string(&t, 0, q)
}

fn folder_from(buf: &String) -> (r: String)
    ensures
        r@ == folder_of(buf@),
{
    let v = to_chars(buf.as_str());
    let a = skip_spaces(&v, 0);
    let b = back_spaces(&v, a, v.len());
    let t = copy_range(&v, a, b);
    let c = skip_char(&t, '/', 0);
    let d = back_char(&t, '/', c, t.len());
    crate::text::slice_string(&t, c, d)
}

fn is_blank(buf: &String) -> (r: bool)
    ensures
        r == (trim(buf@).len() == 0),
{
    let v = to_chars(buf.as_str());
    let a = skip_spaces(&v, 0);
    let b = back_spaces(&v, a, v.len());
    a == b
}

/// What a key press does: the footer's next state and the command to carry out.
/// `busy` tells whether a sync is running.
pub fn key(input: Input, k: Key, busy: bool) -> (r: (Input, Command))
    ensures
        (r.0@, r.1@) == after_key(input@, k, busy),
{
    match input {
        Input::Url(buf) => {
            if k == Key::Enter && !is_blank(&buf) {
                (Input::Dir { url: url_from(&buf), buf: String::new() }, Command::Nothing)
            } else if k == Key::Esc {
                (Input::Idle, Command::Nothing)
            } else {
                (Input::Url(edit(buf, k)), Command::Nothing)
            }
        },
        Input::Dir { url, buf } => {
            if k == Key::Enter {
                let dir = folder_from(&buf);
                (Input::Idle, Command::Add { url, dir })
            } else if k == Key::Esc {
                (Input::Idle, Command::Nothing)
            } else {
                (Input::Dir { url, buf: edit(buf, k) }, Command::Nothing)
            }
        },
        Input::Idle => {
            let next = if k == Key::Char('a') {
                Input::Url(String::new())
            } else {
                Input::Idle
            };
            let cmd = if k == Key::Char('q') && busy {
                Command::Log(String::from_str("sync running, press Q to quit anyway"))
            } else if k == Key::Char('q') || k == Key::Char('Q') {
                Command::Quit
            } else if k == Key::Char('r') {
                Command::Refresh
            } else if k == Key::Char('s') {
                Command::SyncSelected
            } else if k == Key::Char('S') {
                Command::SyncAll
            } else if k == Key::Char('x') && !busy {
                Command::RemoveSelected
            } else if k == Key::Tab {
                Command::ToggleFocus
            } else if k == Key::Down || k == Key::Char('j') {
                Command::Step { down: true }
            } else if k == Key::Up || k == Key::Char('k') {
                Command::Step { down: false }
            } else {
                Command::Nothing
            };
            (next, cmd)
        },
    }
}

} // verus!

verus! {

/// The most log lines kept; past it the oldest half goes.
pub open spec fn log_cap() -> nat {
    1000
}

/// The log after a line is added.
pub open spec fn logged(log: Seq<String>, line: String) -> Seq<String> {
    let l = log.push(line);
    if l.len() > 1000 {
        l.skip(500)
    } else {
        l
    }
}

/// Adds a line to the log, dropping the oldest 500 once it holds more than 1000.
pub fn push_log(log: &mut Vec<String>, line: String)
    ensures
        final(log)@ == logged(old(log)@, line),
{
    log.push(line);
    if log.len() > 1000 {
        let rest = log.split_off(500);
        *log = rest;
    }
}

/// How many rows have a status that `pick` accepts.
pub open spec fn count_rows(rows: Seq<Row>, pick: spec_fn(StatusView) -> bool) -> nat
    decreases rows.len(),
{
    if rows.len() == 0 {
        0
    } else {
        count_rows(rows.drop_last(), pick) + if pick(rows.last().status@) {
            1nat
        } else {
            0nat
        }
    }
}

pub open spec fn is_have() -> spec_fn(StatusView) -> bool {
    |s: StatusView| s is Have
}

pub open spec fn is_link() -> spec_fn(StatusView) -> bool {
    |s: StatusView| s is Link
}

pub open spec fn is_new() -> spec_fn(StatusView) -> bool {
    |s: StatusView| s is New
}

pub open spec fn is_drm() -> spec_fn(StatusView) -> bool {
    |s: StatusView| s is Drm
}

pub open spec fn is_extra() -> spec_fn(StatusView) -> bool {
    |s: StatusView| s is Extra
}

/// The counts shown beside a playlist: ` 29/42 4 new 2 link 9 drm`.
pub struct Summary {
    pub have: usize,
    /// The tracks the playlist folder is meant to hold once synced, links aside:
    /// have + new + drm (neither the links nor the extras).
    pub tracks: usize,
    pub new: usize,
    pub link: usize,
    pub drm: usize,
    pub extra: usize,
}

/// Counts the rows of a plan by status.
pub fn summarize(rows: &[Row]) -> (s: Summary)
    ensures
        s.have == count_rows(rows@, is_have()),
        s.new == count_rows(rows@, is_new()),
        s.link == count_rows(rows@, is_link()),
        s.drm == count_rows(rows@, is_drm()),
        s.extra == count_rows(rows@, is_extra()),
        s.tracks == rows@.len() - count_rows(rows@, is_extra()) - count_rows(rows@, is_link()),
        s.tracks == s.have + s.new + s.drm,
{
    let mut have: usize = 0;
    let mut new: usize = 0;
    let mut link: usize = 0;
    let mut drm: usize = 0;
    let mut extra: usize = 0;
    let mut i: usize = 0;
    while i < rows.len()
        invariant
            i <= rows.len(),
            have == count_rows(rows@.take(i as int), is_have()),
            new == count_rows(rows@.take(i as int), is_new()),
            link == count_rows(rows@.take(i as int), is_link()),
            drm == count_rows(rows@.take(i as int), is_drm()),
            extra == count_rows(rows@.take(i as int), is_extra()),
            have + new + link + drm + extra == i,
        decreases rows.len() - i,
    {
        assert(rows@.take(i + 1).drop_last() =~= rows@.take(i as int));
        match &rows[i].status {
            Status::Have => have = have + 1,
            Status::Link(_) => link = link + 1,
            Status::New => new = new + 1,
            Status::Drm => drm = drm + 1,
            Status::Extra => extra = extra + 1,
        }
        i = i + 1;
    }
    assert(rows@.take(rows.len() as int) =~= rows@);
    Summary { have, tracks: have + new + drm, new, link, drm, extra }
}

} // verus!

verus! {

/// A sync starts only when none is running and there is a playlist to sync.
pub fn may_sync(busy: bool, count: usize) -> (r: bool)
    ensures
        r == (!busy && count > 0),
{
    !busy && count > 0
}

/// The library is rescanned and the playlists listed again only while no sync runs.
pub fn may_refresh(busy: bool) -> (r: bool)
    ensures
        r == !busy,
{
    !busy
}

} // verus!
