# trackman

A terminal UI that keeps SoundCloud playlists in sync with folders on disk, downloading each
track only once. Listing and downloading are done by scdl.

- `src/` is the library, verified with Verus: what each track's status is for a playlist
  folder (`library::plan`), the folder a playlist syncs into (`library::dir_name`), what a scan
  records (`scan`), what is read from scdl's output and written to its archive (`sync`), a sync
  of several playlists as a state machine (`run::SyncRun`), the interface's decisions (`ui`),
  and the meaning of paths (`path`) and strings (`text`). `laws` states what holds across them.
- `app/` is the program: the terminal interface, the configuration file, the disk scan, and
  the scdl and ffprobe processes. It carries out the library's decisions.
- `tests/` runs the library on concrete cases.
