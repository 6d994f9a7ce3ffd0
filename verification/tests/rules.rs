use trackman::library::{dir_name, folder, playlist_rows, plan, NAME_FORMAT, Config, LocalFile, Msg, Playlist, Remote, Status, Track};
use trackman::run::{Action, Event, Stage, SyncRun};
use trackman::path::join;
use trackman::scan::{audio_file, classify, id_from_name, needs_tag, probe_url, with_tag, Entry};
use trackman::sync::{archive_text, decimal_string, drm_id, drm_ids, listing_error, skip_ids, sync_header, tally};
use trackman::ui::{edit, key, may_refresh, may_sync, push_log, summarize, Command, Input, Key};

fn track(id: &str) -> Track {
    Track { id: id.into(), url: format!("https://soundcloud.com/a/{id}") }
}

fn file(path: &str, id: Option<&str>, url: Option<&str>) -> LocalFile {
    LocalFile { path: path.into(), id: id.map(Into::into), url: url.map(Into::into) }
}

fn status(s: &Status) -> String {
    match s {
        Status::Have => "have".into(),
        Status::Link(p) => format!("link {p}"),
        Status::New => "new".into(),
        Status::Drm => "drm".into(),
        Status::Extra => "extra".into(),
    }
}

#[test]
fn link_names_the_copy_elsewhere() {
    let remote = Remote { title: "x".into(), tracks: vec![track("7")] };
    let files = [file("/r/b/Y [7].m4a", Some("7"), None), file("/r/c/Z [7].m4a", Some("7"), None)];
    let rows = plan(&remote, &files, "/r/p", &[]);
    assert_eq!(rows.len(), 1);
    assert_eq!(status(&rows[0].status), "link /r/b/Y [7].m4a");
    assert_eq!(rows[0].name, "Y [7].m4a");
}

#[test]
fn folder_is_compared_by_components() {
    let remote = Remote { title: "x".into(), tracks: vec![track("1"), track("2")] };
    let files = [file("/r/p//A [1].m4a", Some("1"), None), file("/r/./p/B [2].m4a", Some("2"), None)];
    let rows = plan(&remote, &files, "/r/p/", &[]);
    let got: Vec<String> = rows.iter().map(|r| status(&r.status)).collect();
    assert_eq!(got, ["have", "have"]);
    let rows = plan(&remote, &files, "/r/q", &[]);
    assert_eq!(status(&rows[0].status), "link /r/p//A [1].m4a");
}

#[test]
fn missing_tracks_show_their_slug_and_extras_follow_in_order() {
    let remote = Remote { title: "x".into(), tracks: vec![track("1")] };
    let files = [
        file("/r/p/Old [8].m4a", Some("8"), None),
        file("/r/q/Else [9].m4a", Some("9"), None),
        file("/r/p/Older [6].m4a", Some("6"), None),
    ];
    let rows = plan(&remote, &files, "/r/p", &[]);
    let got: Vec<(String, String)> = rows.iter().map(|r| (status(&r.status), r.name.clone())).collect();
    assert_eq!(
        got,
        [
            ("new".to_string(), "a/1".to_string()),
            ("extra".to_string(), "Old [8].m4a".to_string()),
            ("extra".to_string(), "Older [6].m4a".to_string()),
        ]
    );
}

#[test]
fn slug_strips_every_leading_prefix() {
    let t = Track { id: "1".into(), url: "https://soundcloud.com/https://soundcloud.com/u/t".into() };
    let rows = plan(&Remote { title: "x".into(), tracks: vec![t] }, &[], "/r/p", &[]);
    assert_eq!(rows[0].name, "u/t");
}

#[test]
fn configured_folder_wins() {
    let p = Playlist { url: "u".into(), dir: "sets/warmup".into() };
    assert_eq!(dir_name(&p, &Remote { title: "T".into(), tracks: vec![] }), "sets/warmup");
}

#[test]
fn title_folder_edge_cases() {
    let p = Playlist { url: String::new(), dir: String::new() };
    let name = |t: &str| dir_name(&p, &Remote { title: t.into(), tracks: vec![] });
    assert_eq!(name("  .hidden \t"), "hidden");
    assert_eq!(name("..."), "playlist");
    assert_eq!(name("   "), "playlist");
    assert_eq!(name("a\\b/c"), "a-b-c");
    assert_eq!(name("\u{3000}Mix\u{2003}"), "Mix");
    assert_eq!(name(". x"), " x");
}

#[test]
fn ids_in_names() {
    assert_eq!(id_from_name("/r/p/U - T [42].mp3").as_deref(), Some("42"));
    assert_eq!(id_from_name("/r/p/U - T [1.2] [42].m4a").as_deref(), Some("42"));
    assert_eq!(id_from_name("d/x [12a].m4a"), None);
    assert_eq!(id_from_name("d/x [].m4a"), None);
    assert_eq!(id_from_name("d/x [5]"), Some("5".to_string()));
    assert_eq!(id_from_name("d/.x [5]"), Some("5".to_string()));
    assert_eq!(id_from_name("d/x [5]/"), Some("5".to_string()));
    assert_eq!(id_from_name("a/.."), None);
    assert_eq!(id_from_name(""), None);
}

#[test]
fn entries_are_classified() {
    assert!(matches!(classify("Song.MP3", false), Entry::Audio));
    assert!(matches!(classify("a.b.flac", false), Entry::Audio));
    assert!(matches!(classify(".x.mp3", false), Entry::Skip));
    assert!(matches!(classify("sets", true), Entry::Folder));
    assert!(matches!(classify(".git", true), Entry::Skip));
    assert!(matches!(classify("notes.txt", false), Entry::Skip));
    assert!(matches!(classify("m4a", false), Entry::Skip));
}

#[test]
fn probed_urls() {
    assert_eq!(probe_url("  https://soundcloud.com/a/1 \n").as_deref(), Some("https://soundcloud.com/a/1"));
    assert_eq!(probe_url("\n"), None);
    assert_eq!(probe_url("ftp://x"), None);
}

#[test]
fn drm_lines() {
    assert_eq!(drm_id("ERROR: [soundcloud] 1: x] y DRM protected"), Some("1"));
    assert_eq!(drm_id("[a] b] c DRM protected"), Some("b"));
    assert_eq!(drm_id("DRM protected"), None);
}

#[test]
fn listing_errors() {
    assert_eq!(listing_error("a\nERROR: one\r\nb\nERROR: two\nc\n"), "ERROR: two");
    assert_eq!(listing_error("ERROR: only\r\n"), "ERROR: only");
    assert_eq!(listing_error("x ERROR\r"), "x ERROR\r");
    assert_eq!(listing_error(""), "could not list playlist");
    assert_eq!(listing_error("warning\n"), "could not list playlist");
}

#[test]
fn skips_archive_and_tally() {
    let remote = Remote { title: "x".into(), tracks: vec![track("1"), track("2"), track("3")] };
    let files = [file("/r/p/A [1].m4a", Some("1"), None)];
    let rows = plan(&remote, &files, "/r/p", &["3".into()]);
    let skip = skip_ids(&remote.tracks, &rows);
    assert_eq!(skip, ["1", "3"]);
    assert_eq!(archive_text(&skip), "soundcloud 1\nsoundcloud 3\n");
    assert_eq!(tally(remote.tracks.len() - skip.len(), remote.tracks.len()), "1 new of 3 tracks");
    assert_eq!(decimal_string(0), "0");
    assert_eq!(decimal_string(1234), "1234");
    assert_eq!(sync_header(&Playlist { url: "u".into(), dir: String::new() }), "── u");
    assert_eq!(sync_header(&Playlist { url: "u".into(), dir: "d".into() }), "── d");
}

fn cmd(c: &Command) -> String {
    match c {
        Command::Nothing => "nothing".into(),
        Command::Quit => "quit".into(),
        Command::Log(l) => format!("log {l}"),
        Command::Add { url, dir } => format!("add {url} {dir}"),
        Command::Refresh => "refresh".into(),
        Command::SyncSelected => "sync".into(),
        Command::SyncAll => "sync all".into(),
        Command::RemoveSelected => "remove".into(),
        Command::ToggleFocus => "tab".into(),
        Command::Step { down } => format!("step {down}"),
    }
}

#[test]
fn adding_a_playlist_by_keys() {
    let (input, c) = key(Input::Idle, Key::Char('a'), false);
    assert_eq!(cmd(&c), "nothing");
    let mut input = input;
    for ch in " https://soundcloud.com/u/sets/s/s-XY?si=1 ".chars() {
        input = key(input, Key::Char(ch), false).0;
    }
    input = key(input, Key::Char('q'), false).0;
    input = key(input, Key::Backspace, false).0;
    let (input, c) = key(input, Key::Enter, false);
    assert_eq!(cmd(&c), "nothing");
    match &input {
        Input::Dir { url, buf } => {
            assert_eq!(url, "https://soundcloud.com/u/sets/s/s-XY");
            assert_eq!(buf, "");
        }
        _ => panic!("expected the folder prompt"),
    }
    let mut input = input;
    for ch in " /sets/warmup/ ".chars() {
        input = key(input, Key::Char(ch), false).0;
    }
    let (input, c) = key(input, Key::Enter, false);
    assert!(matches!(input, Input::Idle));
    assert_eq!(cmd(&c), "add https://soundcloud.com/u/sets/s/s-XY sets/warmup");
}

#[test]
fn blank_url_is_not_accepted() {
    let (input, c) = key(Input::Url("   ".into()), Key::Enter, false);
    assert!(matches!(&input, Input::Url(b) if b == "   "));
    assert_eq!(cmd(&c), "nothing");
    let (input, _) = key(Input::Url("x".into()), Key::Esc, false);
    assert!(matches!(input, Input::Idle));
}

#[test]
fn idle_keys() {
    let c = |k: Key, busy: bool| cmd(&key(Input::Idle, k, busy).1);
    assert_eq!(c(Key::Char('q'), true), "log sync running, press Q to quit anyway");
    assert_eq!(c(Key::Char('q'), false), "quit");
    assert_eq!(c(Key::Char('Q'), true), "quit");
    assert_eq!(c(Key::Char('x'), true), "nothing");
    assert_eq!(c(Key::Char('x'), false), "remove");
    assert_eq!(c(Key::Char('s'), false), "sync");
    assert_eq!(c(Key::Char('S'), false), "sync all");
    assert_eq!(c(Key::Char('r'), false), "refresh");
    assert_eq!(c(Key::Tab, false), "tab");
    assert_eq!(c(Key::Char('j'), false), "step true");
    assert_eq!(c(Key::Up, false), "step false");
    assert_eq!(c(Key::Other, false), "nothing");
}

#[test]
fn editing() {
    assert_eq!(edit("ab".into(), Key::Backspace), "a");
    assert_eq!(edit(String::new(), Key::Backspace), "");
    assert_eq!(edit("a".into(), Key::Char('é')), "aé");
    assert_eq!(edit("a".into(), Key::Tab), "a");
}

#[test]
fn config_changes() {
    let mut c = Config::default();
    assert!(c.add_playlist("u1".into(), String::new()));
    assert!(!c.add_playlist("u1".into(), "other".into()));
    assert!(c.add_playlist("u2".into(), "d2".into()));
    assert_eq!(c.playlists.len(), 2);
    let r = Remote { title: " Ideas / 2 ".into(), tracks: vec![] };
    assert!(c.adopt_title(&"u1".to_string(), &r));
    assert_eq!(c.playlists[0].dir, "Ideas - 2");
    assert!(!c.adopt_title(&"u1".to_string(), &r));
    assert!(!c.adopt_title(&"u2".to_string(), &r));
    assert!(c.record_unavailable("9".into()));
    assert!(!c.record_unavailable("9".into()));
    assert_eq!(c.unavailable, ["9"]);
    assert_eq!(c.remove_playlist(0).map(|p| p.url), Some("u1".to_string()));
    assert!(c.remove_playlist(5).is_none());
    assert_eq!(c.playlists.len(), 1);
}

#[test]
fn log_is_capped() {
    let mut log = Vec::new();
    for i in 0..1000 {
        push_log(&mut log, i.to_string());
    }
    assert_eq!(log.len(), 1000);
    push_log(&mut log, "last".into());
    assert_eq!(log.len(), 501);
    assert_eq!(log[0], "500");
    assert_eq!(log[500], "last");
}

#[test]
fn counts() {
    let remote = Remote { title: "x".into(), tracks: vec![track("1"), track("2"), track("3"), track("4")] };
    let files = [
        file("/r/p/A [1].m4a", Some("1"), None),
        file("/r/o/B [2].m4a", Some("2"), None),
        file("/r/p/C [9].m4a", Some("9"), None),
    ];
    let rows = plan(&remote, &files, "/r/p", &["4".into()]);
    let s = summarize(&rows);
    assert_eq!((s.have, s.tracks, s.new, s.link, s.drm, s.extra), (1, 3, 1, 1, 1, 1));
}

fn log_of(msgs: &[Msg]) -> Vec<String> {
    msgs.iter()
        .map(|m| match m {
            Msg::Log(l) => l.clone(),
            Msg::Drm(id) => format!("drm {id}"),
            Msg::Remote(u, Ok(r)) => format!("remote {u} {}", r.tracks.len()),
            Msg::Remote(u, Err(e)) => format!("remote {u} error {e}"),
            Msg::Scanned(f) => format!("scanned {}", f.len()),
            Msg::Done => "done".into(),
        })
        .collect()
}

#[test]
fn a_whole_sync_run() {
    let playlists = vec![
        Playlist { url: "u1".into(), dir: String::new() },
        Playlist { url: "u2".into(), dir: "d2".into() },
    ];
    let mut run = SyncRun::new("/r".into(), playlists, vec!["4".into()]);
    let (m, a) = run.step(Event::Start);
    assert_eq!(log_of(&m), ["── u1"]);
    assert!(matches!(&a, Action::Fetch(u) if u == "u1"));

    let remote = Remote { title: "Warm up".into(), tracks: vec![track("1"), track("2"), track("3"), track("4")] };
    let (m, a) = run.step(Event::Listed(Ok(remote)));
    assert!(m.is_empty());
    assert!(matches!(&a, Action::Scan));

    let files = vec![file("/r/Warm up/A [1].m4a", Some("1"), None), file("/r/o/B [2].m4a", Some("2"), None)];
    let (m, a) = run.step(Event::Scanned { files });
    assert!(m.is_empty());
    assert!(matches!(&a, Action::MakeDir(d) if d == "/r/Warm up"));

    let (m, a) = run.step(Event::DirMade(Ok(())));
    assert!(m.is_empty());
    match &a {
        Action::Link { src, dir, name } => {
            assert_eq!((src.as_str(), dir.as_str(), name.as_str()), ("/r/o/B [2].m4a", "/r/Warm up", "B [2].m4a"));
        }
        _ => panic!("expected a link"),
    }
    let (m, a) = run.step(Event::Linked(Err("denied".into())));
    assert_eq!(log_of(&m), ["link failed B [2].m4a: denied", "1 new of 4 tracks"]);
    match &a {
        Action::Download { url, dir, archive } => {
            assert_eq!(url, "u1");
            assert_eq!(dir, "/r/Warm up");
            assert_eq!(archive, "soundcloud 1\nsoundcloud 2\nsoundcloud 4\n");
        }
        _ => panic!("expected a download"),
    }
    let (m, a) = run.step(Event::Downloaded(Ok(vec!["3".into()])));
    assert_eq!(log_of(&m), ["drm 3", "remote u1 4", "── d2"]);
    assert!(matches!(&a, Action::Fetch(u) if u == "u2"));
    assert_eq!(run.unavailable, ["4", "3"]);

    let (m, a) = run.step(Event::Listed(Err("gone".into())));
    assert_eq!(log_of(&m), ["error: gone"]);
    assert!(matches!(a, Action::Rescan));
    let (m, a) = run.step(Event::Scanned { files: vec![] });
    assert_eq!(log_of(&m), ["scanned 0", "done"]);
    assert!(matches!(a, Action::Finish));
    assert!(run.stage == Stage::Finished);
}

#[test]
fn nothing_new_means_no_download() {
    let mut run = SyncRun::new("/r/".into(), vec![Playlist { url: "u".into(), dir: "d".into() }], vec![]);
    run.step(Event::Start);
    run.step(Event::Listed(Ok(Remote { title: "t".into(), tracks: vec![track("1")] })));
    run.step(Event::Scanned { files: vec![file("/r/d/A [1].m4a", Some("1"), None)] });
    let (m, a) = run.step(Event::DirMade(Ok(())));
    assert_eq!(log_of(&m), ["0 new of 1 tracks", "remote u 1"]);
    assert!(matches!(a, Action::Rescan));
}

#[test]
fn folder_errors_move_on() {
    let mut run = SyncRun::new("/r".into(), vec![Playlist { url: "u".into(), dir: "d".into() }], vec![]);
    run.step(Event::Start);
    run.step(Event::Listed(Ok(Remote { title: "t".into(), tracks: vec![] })));
    let (_, a) = run.step(Event::Scanned { files: vec![] });
    assert!(matches!(&a, Action::MakeDir(d) if d == "/r/d"));
    let (m, a) = run.step(Event::DirMade(Err("/r/d: denied".into())));
    assert_eq!(log_of(&m), ["error: /r/d: denied"]);
    assert!(matches!(a, Action::Rescan));
    let (m, a) = run.step(Event::Linked(Ok(())));
    assert!(m.is_empty());
    assert!(matches!(a, Action::Finish));
}

#[test]
fn summary_leaves_links_and_extras_out_of_the_total() {
    let mut rows = Vec::new();
    for (n, s) in [(29, "have"), (4, "new"), (2, "link"), (9, "drm")] {
        for _ in 0..n {
            let status = match s {
                "have" => Status::Have,
                "new" => Status::New,
                "link" => Status::Link("/x".into()),
                _ => Status::Drm,
            };
            rows.push(trackman::library::Row { status, name: String::new() });
        }
    }
    let s = summarize(&rows);
    assert_eq!((s.have, s.tracks, s.new, s.link, s.drm, s.extra), (29, 42, 4, 2, 9, 0));
}

#[test]
fn joining_paths() {
    assert_eq!(join("/r", "p"), "/r/p");
    assert_eq!(join("/r/", "p"), "/r/p");
    assert_eq!(join("", "p"), "p");
    assert_eq!(join("/r", "/abs"), "/abs");
    assert_eq!(join("/r", "sets/2026"), "/r/sets/2026");
    let remote = Remote { title: "Warm / up".into(), tracks: vec![track("1")] };
    let p = Playlist { url: "u".into(), dir: String::new() };
    assert_eq!(folder("/lib", &p, &remote), "/lib/Warm - up");
    let files = [file("/lib/Warm - up/A [1].m4a", Some("1"), None)];
    let rows = playlist_rows("/lib", &p, &remote, &files, &[]);
    assert_eq!(status(&rows[0].status), "have");
}

#[test]
fn template_names_carry_the_id() {
    assert_eq!(NAME_FORMAT, "%(uploader)s - %(title)s [%(id)s].%(ext)s");
    let name = NAME_FORMAT
        .replace("%(uploader)s", "Marsh")
        .replace("%(title)s", "Aloft [Live] v1.2")
        .replace("%(id)s", "2383362741")
        .replace("%(ext)s", "m4a");
    assert_eq!(id_from_name(&format!("/lib/ideas 2/{name}")).as_deref(), Some("2383362741"));
}

#[test]
fn drm_ids_in_order() {
    let lines: Vec<String> = vec![
        "ERROR: [soundcloud] 1: This video is DRM protected".into(),
        "[download] 50%".into(),
        "ERROR: [soundcloud] 2: HTTP Error 404".into(),
        "ERROR: [soundcloud] 3: This video is DRM protected".into(),
    ];
    assert_eq!(drm_ids(&lines), ["1", "3"]);
    assert!(drm_ids(&[]).is_empty());
}

#[test]
fn audio_file_records() {
    let f = audio_file("/r/p/A [5].m4a".into(), true);
    assert_eq!(f.id.as_deref(), Some("5"));
    assert!(!needs_tag(&f));
    let f = with_tag(f, "https://soundcloud.com/a/5\n");
    assert_eq!(f.url, None);
    let f = audio_file("/r/p/A [5].m4a".into(), false);
    assert_eq!(f.id, None);
    let f = audio_file("/r/p/2. Legacy.m4a".into(), true);
    assert!(needs_tag(&f));
    let f = with_tag(f, " https://soundcloud.com/a/2\n");
    assert_eq!(f.url.as_deref(), Some("https://soundcloud.com/a/2"));
    assert_eq!(f.path, "/r/p/2. Legacy.m4a");
    let g = with_tag(audio_file("/r/p/x.m4a".into(), true), "");
    assert_eq!(g.url, None);
}

#[test]
fn one_sync_at_a_time() {
    assert!(may_sync(false, 1));
    assert!(!may_sync(true, 1));
    assert!(!may_sync(false, 0));
    assert!(may_refresh(false));
    assert!(!may_refresh(true));
}
