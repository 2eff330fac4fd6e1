//! Shortcut files: telling them by their name, and choosing the target that
//! a parsed shortcut names.

use vstd::prelude::*;

use crate::path::{extension, path_extension, Platform};
use crate::text::chars_of;

verus! {

/// The location fields of a shortcut that say where its target is.
#[derive(Clone, Debug, PartialEq, Eq)]
pub struct LinkInfo {
    /// The base path of the target in the system's default code page.
    pub local_base_path: Option<String>,
    /// The base path of the target in Unicode.
    pub local_base_path_unicode: Option<String>,
}

/// What a reader found in a shortcut file. A file that cannot be opened or
/// parsed has no `ShellLink`.
#[derive(Clone, Debug, PartialEq, Eq)]
pub struct ShellLink {
    /// The link information block, where the shortcut has one.
    pub link_info: Option<LinkInfo>,
}

/// The destination of an indirection file.
#[derive(Clone, Debug, PartialEq, Eq)]
pub struct ShortcutTarget {
    /// The path of the shortcut file itself.
    pub source_path: String,
    /// Where the shortcut leads; `None` where that could not be found out.
    pub target_path: Option<String>,
}

/// Whether `ext` is `lnk` in any mix of upper and lower case.
pub open spec fn is_shortcut_extension(ext: Seq<char>) -> bool {
    &&& ext.len() == 3
    &&& (ext[0] == 'l' || ext[0] == 'L')
    &&& (ext[1] == 'n' || ext[1] == 'N')
    &&& (ext[2] == 'k' || ext[2] == 'K')
}

/// Whether `path` names a shortcut: its file name has an extension, and the
/// extension is `lnk` in any case.
pub open spec fn names_shortcut(path: Seq<char>, platform: Platform) -> bool {
    path_extension(path, platform) matches Some(ext) && is_shortcut_extension(ext)
}

/// The target that a parsed shortcut names: the local base path where it has
/// one, else the Unicode base path, else none.
pub open spec fn link_target(link: Option<ShellLink>) -> Option<Seq<char>> {
    match link {
        Some(ShellLink { link_info: Some(info) }) => match info.local_base_path {
            Some(path) => Some(path@),
            None => match info.local_base_path_unicode {
                Some(path) => Some(path@),
                None => None,
            },
        },
        _ => None,
    }
}

/// Whether `path` names a Windows shortcut, by its extension alone.
pub fn is_windows_shortcut(path: &str, platform: Platform) -> (r: bool)
    ensures
        r == names_shortcut(path@, platform),
{
    match extension(path, platform) {
        Some(ext) => {
            let e = chars_of(ext.as_str());
            e.len() == 3 && (e[0] == 'l' || e[0] == 'L') && (e[1] == 'n' || e[1] == 'N') && (e[2]
                == 'k' || e[2] == 'K')
        },
        None => false,
    }
}

/// The path that a shortcut leads to. `link` is what reading the shortcut
/// file gave, `None` where it could not be opened or parsed. The local base
/// path is preferred to the Unicode one; without either there is no target.
pub fn get_shortcut_destination(link: &Option<ShellLink>) -> (target: Option<String>)
    ensures
        match target {
            Some(t) => link_target(*link) == Some(t@),
            None => link_target(*link) is None,
        },
{
    match link {
        Some(shortcut) => match &shortcut.link_info {
            Some(info) => match &info.local_base_path {
                Some(path) => Some(path.clone()),
                None => match &info.local_base_path_unicode {
                    Some(path) => Some(path.clone()),
                    None => None,
                },
            },
            None => None,
        },
        None => None,
    }
}

/// The shortcut at `source_path` with the target that `link` names.
pub fn resolve_shortcut(source_path: &str, link: &Option<ShellLink>) -> (resolved: ShortcutTarget)
    ensures
        resolved.source_path@ == source_path@,
        match resolved.target_path {
            Some(t) => link_target(*link) == Some(t@),
            None => link_target(*link) is None,
        },
{
    ShortcutTarget {
        source_path: source_path.to_string(),
        target_path: get_shortcut_destination(link),
    }
}

} // verus!
