//! The exclusion engine: which entries are hidden, and which file defines
//! ignore rules. What such a file compiles to is in `rules`.

use vstd::prelude::*;
use vstd::slice::slice_subrange;

use crate::path::{
    body, child_path, descendant_path, drive_prefix_len, final_segment_span, is_dot_segment,
    is_dots, is_entry_name, is_separator, last_run, lemma_body_of_child, lemma_stems_of_child,
    path_file_name, stem_spans, stems, Platform,
};
use crate::text::{chars_of, same_chars};

verus! {

/// What the filesystem says an entry is.
#[derive(Clone, Copy, Debug, PartialEq, Eq, Structural)]
pub enum EntryKind {
    /// A regular file.
    File,
    /// A directory.
    Directory,
    /// Neither: the entry is missing, unreadable, or of another kind.
    Other,
}

/// The verdict on one entry.
#[derive(Clone, Copy, Debug, PartialEq, Eq, Structural)]
pub struct CandidateClassification {
    /// The entry is hidden.
    pub is_hidden: bool,
    /// The entry is a file that defines ignore rules.
    pub is_ignore_definition: bool,
}

/// Whether `name` is the name of a hidden directory: it starts with a dot,
/// and is neither `.` nor `..`.
pub open spec fn is_hidden_dir_name(name: Seq<char>) -> bool {
    name.len() > 0 && name[0] == '.' && !is_dot_segment(name)
}

/// Whether `name` is the name of a file that the operating system leaves
/// behind: `.DS_Store` anywhere, and on Windows a name that starts with `~$`.
pub open spec fn is_os_artifact_name(name: Seq<char>, platform: Platform) -> bool {
    name == ".DS_Store"@ || (platform == Platform::Windows && name.len() >= 2 && name[0] == '~'
        && name[1] == '$')
}

/// The names of the ancestors of `path`, nearest first; the first is the
/// final segment of `path` itself.
pub open spec fn ancestor_names(path: Seq<char>, platform: Platform) -> Seq<Seq<char>> {
    stems(body(path, platform), platform).map_values(|stem: Seq<char>| last_run(stem, platform))
}

/// Whether an ancestor of `path` is a directory with a hidden name.
/// `kinds[k]` says what the `k`-th ancestor is; an ancestor that `kinds` does
/// not reach counts as no directory.
pub open spec fn under_hidden_directory(
    path: Seq<char>,
    platform: Platform,
    kinds: Seq<EntryKind>,
) -> bool {
    exists|k: int|
        0 <= k < ancestor_names(path, platform).len() && k < kinds.len() && kinds[k]
            == EntryKind::Directory && is_hidden_dir_name(
            #[trigger] ancestor_names(path, platform)[k],
        )
}

/// Whether `path` is a regular file with the name of an operating system
/// artifact.
pub open spec fn is_os_artifact(
    path: Seq<char>,
    platform: Platform,
    kinds: Seq<EntryKind>,
) -> bool {
    &&& kinds.len() > 0
    &&& kinds[0] == EntryKind::File
    &&& path_file_name(path, platform) matches Some(name)
    &&& is_os_artifact_name(name, platform)
}

/// Whether the entry at `path` is hidden.
pub open spec fn path_is_hidden(
    path: Seq<char>,
    platform: Platform,
    kinds: Seq<EntryKind>,
) -> bool {
    is_os_artifact(path, platform, kinds) || under_hidden_directory(path, platform, kinds)
}

/// Whether `path` names a file that defines ignore rules.
pub open spec fn names_ignore_file(path: Seq<char>, platform: Platform) -> bool {
    path_file_name(path, platform) == Some(".gitignore"@)
}

/// The names of the ancestors of an entry in a directory are the name of the
/// entry and the names of the ancestors of the directory.
pub proof fn lemma_ancestor_names_of_child(
    dir: Seq<char>,
    sep: char,
    name: Seq<char>,
    platform: Platform,
)
    requires
        is_separator(sep, platform),
        is_entry_name(name, platform),
    ensures
        ancestor_names(child_path(dir, sep, name), platform) == seq![name] + ancestor_names(
            dir,
            platform,
        ),
{
    lemma_body_of_child(dir, sep, name, platform);
    lemma_stems_of_child(body(dir, platform), sep, name, platform);
    assert(ancestor_names(child_path(dir, sep, name), platform) =~= seq![name] + ancestor_names(
        dir,
        platform,
    ));
}

/// A directory whose name starts with a dot is hidden itself.
pub proof fn lemma_dot_directory_is_hidden(
    path: Seq<char>,
    platform: Platform,
    kinds: Seq<EntryKind>,
)
    requires
        kinds.len() > 0,
        kinds[0] == EntryKind::Directory,
        path_file_name(path, platform) matches Some(name) && name[0] == '.',
    ensures
        under_hidden_directory(path, platform, kinds),
        path_is_hidden(path, platform, kinds),
{
    let names = ancestor_names(path, platform);
    assert(names.len() > 0 && names[0] == path_file_name(path, platform)->0);
    assert(is_hidden_dir_name(names[0]));
}

/// Hiddenness goes down one level: whatever lies in a directory that is
/// under a hidden directory is under it too, whatever its own name and kind.
pub proof fn lemma_hidden_propagates(
    dir: Seq<char>,
    sep: char,
    name: Seq<char>,
    platform: Platform,
    kinds: Seq<EntryKind>,
    kind: EntryKind,
)
    requires
        is_separator(sep, platform),
        is_entry_name(name, platform),
        under_hidden_directory(dir, platform, kinds),
    ensures
        under_hidden_directory(child_path(dir, sep, name), platform, seq![kind] + kinds),
        path_is_hidden(child_path(dir, sep, name), platform, seq![kind] + kinds),
{
    lemma_ancestor_names_of_child(dir, sep, name, platform);
    let above = ancestor_names(dir, platform);
    let below = ancestor_names(child_path(dir, sep, name), platform);
    let k = choose|k: int|
        0 <= k < above.len() && k < kinds.len() && kinds[k] == EntryKind::Directory
            && is_hidden_dir_name(#[trigger] above[k]);
    assert(below[k + 1] == above[k]);
    assert((seq![kind] + kinds)[k + 1] == kinds[k]);
    assert(is_hidden_dir_name(below[k + 1]));
}

/// Hiddenness goes down through the whole subtree: an entry that is reached
/// from a directory under a hidden directory, by any number of steps down,
/// is hidden. `below` holds the kinds of the entries on the way, nearest to
/// the entry first.
pub proof fn lemma_hidden_subtree(
    dir: Seq<char>,
    sep: char,
    names: Seq<Seq<char>>,
    platform: Platform,
    kinds: Seq<EntryKind>,
    below: Seq<EntryKind>,
)
    requires
        is_separator(sep, platform),
        forall|i: int| 0 <= i < names.len() ==> is_entry_name(#[trigger] names[i], platform),
        below.len() == names.len(),
        under_hidden_directory(dir, platform, kinds),
    ensures
        under_hidden_directory(descendant_path(dir, sep, names), platform, below + kinds),
        path_is_hidden(descendant_path(dir, sep, names), platform, below + kinds),
    decreases names.len(),
{
    if names.len() == 0 {
        assert(below + kinds == kinds);
    } else {
        let upper = descendant_path(dir, sep, names.drop_last());
        lemma_hidden_subtree(dir, sep, names.drop_last(), platform, kinds, below.skip(1));
        lemma_hidden_propagates(
            upper,
            sep,
            names.last(),
            platform,
            below.skip(1) + kinds,
            below[0],
        );
        assert(seq![below[0]] + (below.skip(1) + kinds) == below + kinds);
    }
}

/// Whether `path` names a file that defines ignore rules: its file name is
/// `.gitignore`, letter for letter.
pub fn is_ignore_file(path: &str, platform: Platform) -> (r: bool)
    ensures
        r == names_ignore_file(path@, platform),
{
    match crate::path::file_name(path, platform) {
        Some(name) => {
            let letters = chars_of(name.as_str());
            let wanted = chars_of(".gitignore");
            same_chars(letters.as_slice(), wanted.as_slice())
        },
        None => false,
    }
}

/// Whether the entry at `path` is hidden: it is a regular file with the name
/// of an operating system artifact, or one of its ancestors, itself
/// included, is a directory whose name starts with a dot. `kinds[k]` is what
/// the filesystem says of the `k`-th of `ancestors(path)`; where `kinds` is
/// shorter, the ancestors it does not reach count as no directory.
pub fn is_hidden(path: &str, platform: Platform, kinds: &[EntryKind]) -> (hidden: bool)
    ensures
        hidden == path_is_hidden(path@, platform, kinds@),
{
    let chars = chars_of(path);
    let prefix: usize = drive_prefix_len(chars.as_slice(), platform);
    let b = slice_subrange(chars.as_slice(), prefix, chars.len());
    let (start, end) = final_segment_span(b, platform);
    let name = slice_subrange(b, start, end);
    if kinds.len() > 0 && kinds[0] == EntryKind::File && name.len() > 0 && !is_dots(name) {
        let artifact = chars_of(".DS_Store");
        if same_chars(name, artifact.as_slice()) {
            return true;
        }
        if platform == Platform::Windows && name.len() >= 2 && name[0] == '~' && name[1] == '$' {
            return true;
        }
    }
    let spans = stem_spans(b, platform);
    let ghost names = ancestor_names(path@, platform);
    let mut k: usize = 0;
    while k < spans.len() && k < kinds.len()
        invariant
            b@ == body(path@, platform),
            names == ancestor_names(path@, platform),
            spans@.len() == names.len(),
            forall|j: int|
                0 <= j < spans@.len() ==> {
                    let span = #[trigger] spans@[j];
                    &&& span.0 < span.1 <= b.len()
                    &&& b@.subrange(span.0 as int, span.1 as int) == names[j]
                },
            forall|j: int|
                0 <= j < k ==> !(j < kinds@.len() && kinds@[j] == EntryKind::Directory
                    && is_hidden_dir_name(#[trigger] names[j])),
        decreases spans.len() - k,
    {
        let segment = slice_subrange(b, spans[k].0, spans[k].1);
        if kinds[k] == EntryKind::Directory && segment[0] == '.' && !is_dots(segment) {
            return true;
        }
        k = k + 1;
    }
    false
}

/// The verdict on the entry at `path`: whether it is hidden, and whether it
/// is a file that defines ignore rules.
pub fn classify(path: &str, platform: Platform, kinds: &[EntryKind]) -> (verdict:
    CandidateClassification)
    ensures
        verdict.is_hidden == path_is_hidden(path@, platform, kinds@),
        verdict.is_ignore_definition == names_ignore_file(path@, platform),
{
    CandidateClassification {
        is_hidden: is_hidden(path, platform, kinds),
        is_ignore_definition: is_ignore_file(path, platform),
    }
}

} // verus!
