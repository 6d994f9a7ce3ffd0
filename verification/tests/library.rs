use trackman::library::{dir_name, plan, LocalFile, Playlist, Remote, Status, Track};
use trackman::scan::id_from_name;
use trackman::sync::drm_id;

#[test]
fn plans_and_parses() {
    let track = |id: &str| Track { id: id.into(), url: format!("https://soundcloud.com/a/{id}") };
    let file = |path: &str, id: Option<&str>, url: Option<&str>| LocalFile {
        path: path.into(),
        id: id.map(Into::into),
        url: url.map(Into::into),
    };
    let remote = Remote { title: "x".into(), tracks: ["1", "2", "3", "4", "5"].map(track).into() };
    let files = [
        file("/r/p/A [1].m4a", Some("1"), None),
        file("/r/p/2. Legacy.m4a", None, Some("https://soundcloud.com/a/2")),
        file("/r/other/B [3].m4a", Some("3"), None),
        file("/r/p/Gone [9].m4a", Some("9"), None),
    ];
    let rows = plan(&remote, &files, "/r/p", &["4".into()]);
    let got: Vec<_> = (rows.iter())
        .map(|r| match r.status {
            Status::Have => "have",
            Status::Link(_) => "link",
            Status::New => "new",
            Status::Drm => "drm",
            Status::Extra => "extra",
        })
        .collect();
    assert_eq!(got, ["have", "have", "link", "drm", "new", "extra"]);

    assert_eq!(id_from_name("d/Marsh - Aloft [123].m4a").as_deref(), Some("123"));
    assert_eq!(id_from_name("d/Mind Opener [Meanwhile].m4a"), None);
    assert_eq!(drm_id("ERROR: [soundcloud] 775475710: This video is DRM protected"), Some("775475710"));
    assert_eq!(drm_id("ERROR: [soundcloud] 775475710: HTTP Error 404"), None);

    let p = Playlist { url: String::new(), dir: String::new() };
    assert_eq!(dir_name(&p, &Remote { title: "../ideas/2".into(), tracks: vec![] }), "-ideas-2");
}
