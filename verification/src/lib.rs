//! Filesystem identity and metadata for a local crawler: canonical `file://`
//! identifiers for native paths, modification times with a documented
//! fallback, shortcut targets, and the rules by which entries are excluded.
//!
//! Nothing here touches the filesystem. What a caller has read from it (the
//! kind of an entry, a modification time, the bytes of an ignore file, the
//! fields of a shortcut) comes in as plain values.

pub mod exclusion;
pub mod metadata;
pub mod path;
pub mod rules;
pub mod settings;
pub mod shortcut;
pub mod text;
pub mod uri;

pub use exclusion::{classify, is_hidden, is_ignore_file, CandidateClassification, EntryKind};
pub use metadata::{
    instant_of_reading, instant_of_reading_millis, last_modified_time, last_modified_time_at,
    last_modified_time_for_path, last_modified_time_for_path_at, recorded_time,
    recorded_time_millis, ModifiedTime, Timestamp,
};
pub use path::{ancestors, extension, file_name, parent_dir, Platform};
pub use rules::{
    patterns_from_file, rule_set_from, split_lines, strip_bom, CompileError, IgnoreRuleSet,
};
pub use settings::{get_search_directories, AppState, FilesystemSettings, UserSettings};
pub use shortcut::{
    get_shortcut_destination, is_windows_shortcut, resolve_shortcut, LinkInfo, ShellLink,
    ShortcutTarget,
};
pub use text::{chars_of, replace_all, same_chars};
pub use uri::{
    escape_path, local_path_of, path_string_to_uri, path_to_uri, to_path_string, uri_to_path,
    uri_to_path_bytes, ConversionError, FileLocation, ParsedUri,
};
