//! Keeps SoundCloud playlists in sync with folders on disk, downloading each track only once.
//!
//! `library` holds the data and the plan of a sync; `scan` decides what a scan of the library
//! records; `sync` reads scdl's output and writes its archive; `run` is a sync of several
//! playlists as a state machine; `ui` holds the interface's decisions; `path` and `text` give
//! paths and strings their meaning; `laws` states what holds across them.

pub mod text;
pub mod path;
pub mod library;
pub mod scan;
pub mod sync;
pub mod ui;
pub mod run;
pub mod laws;
