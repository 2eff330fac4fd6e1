//! The directory source accessor: which directories the settings name as
//! roots of a crawl.

use vstd::prelude::*;

verus! {

/// The filesystem part of the user's settings.
#[derive(Clone, Debug, PartialEq, Eq)]
pub struct FilesystemSettings {
    /// The root directories to enumerate, as absolute paths.
    pub watched_paths: Vec<String>,
}

/// A snapshot of the user's settings.
#[derive(Clone, Debug, PartialEq, Eq)]
pub struct UserSettings {
    pub filesystem_settings: FilesystemSettings,
}

/// The state of the application, as far as this crate reads it.
#[derive(Clone, Debug, PartialEq, Eq)]
pub struct AppState {
    pub user_settings: UserSettings,
}

/// The directories that the settings name, in their order. Whether they
/// exist is not looked into.
pub fn get_search_directories(state: &AppState) -> (dirs: Vec<String>)
    ensures
        dirs@ == state.user_settings.filesystem_settings.watched_paths@,
{
    let watched = &state.user_settings.filesystem_settings.watched_paths;
    let mut dirs: Vec<String> = Vec::new();
    let mut i: usize = 0;
    while i < watched.len()
        invariant
            i <= watched.len(),
            dirs@ == watched@.take(i as int),
        decreases watched.len() - i,
    {
        dirs.push(watched[i].clone());
        assert(watched@.take(i + 1) == watched@.take(i as int).push(watched@[i as int]));
        i = i + 1;
    }
    assert(watched@.take(i as int) == watched@);
    dirs
}

} // verus!
