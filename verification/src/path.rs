//! The grammar of native paths.
//!
//! A path is a sequence of characters. On Windows it may start with a drive
//! prefix (`C:`); what follows the prefix is the body. Separators cut the body
//! into segments. Empty segments are passed over, and so is a `.` segment,
//! unless the body starts with it: there it stands for the current directory.
//! The final segment of a path is its last segment that is not passed over,
//! and the ancestors of a path are the path itself (cut off at the end of its
//! final segment), the path that precedes its final segment, and so on. The
//! segments `.` and `..` are no names.
//!
//! Other Windows prefixes (`\\server\share`, `\\?\`) are not told apart from
//! ordinary segments.

use vstd::prelude::*;
use vstd::slice::slice_subrange;

use crate::text::{chars_of, string_of};

verus! {

/// The family of operating systems whose path syntax applies.
#[derive(Clone, Copy, Debug, PartialEq, Eq, Structural)]
pub enum Platform {
    /// `/` separates segments; every other character may occur in a name.
    Posix,
    /// `/` and `\` separate segments; a drive prefix may come first.
    Windows,
}

/// Whether `c` separates segments on `platform`.
pub open spec fn is_separator(c: char, platform: Platform) -> bool {
    c == '/' || (platform == Platform::Windows && c == '\\')
}

/// Whether `c` is one of the 52 letters `a`–`z`, `A`–`Z`.
pub open spec fn is_ascii_letter(c: char) -> bool {
    ('a' <= c && c <= 'z') || ('A' <= c && c <= 'Z')
}

/// The length of the drive prefix of `path`: 2 for a Windows path that starts
/// with a letter and a colon, 0 otherwise.
pub open spec fn prefix_len(path: Seq<char>, platform: Platform) -> int {
    if platform == Platform::Windows && path.len() >= 2 && is_ascii_letter(path[0]) && path[1]
        == ':' {
        2
    } else {
        0
    }
}

/// What follows the drive prefix.
pub open spec fn body(path: Seq<char>, platform: Platform) -> Seq<char> {
    path.skip(prefix_len(path, platform))
}

/// Whether `s` ends in a `.` segment that follows a separator.
pub open spec fn ends_in_cur_dir(s: Seq<char>, platform: Platform) -> bool {
    s.len() >= 2 && s.last() == '.' && is_separator(s[s.len() - 2], platform)
}

/// `s` without the separators and the `.` segments that follow a separator at
/// its end. The result is empty, or ends in a segment that is kept.
pub open spec fn trim_tail(s: Seq<char>, platform: Platform) -> Seq<char>
    decreases s.len(),
{
    if s.len() == 0 {
        s
    } else if is_separator(s.last(), platform) || ends_in_cur_dir(s, platform) {
        trim_tail(s.drop_last(), platform)
    } else {
        s
    }
}

/// The position at which the separator-free run at the end of `s` starts
/// (`s.len()` where `s` is empty or ends in a separator).
pub open spec fn run_start(s: Seq<char>, platform: Platform) -> int
    decreases s.len(),
{
    if s.len() == 0 || is_separator(s.last(), platform) {
        s.len() as int
    } else {
        run_start(s.drop_last(), platform)
    }
}

/// The separator-free run at the end of `s`.
pub open spec fn last_run(s: Seq<char>, platform: Platform) -> Seq<char> {
    s.skip(run_start(s, platform))
}

/// What precedes the separator-free run at the end of `s`.
pub open spec fn before_last_run(s: Seq<char>, platform: Platform) -> Seq<char> {
    s.take(run_start(s, platform))
}

/// The segment `.`.
pub open spec fn cur_segment() -> Seq<char> {
    seq!['.']
}

/// The segment `..`.
pub open spec fn parent_segment() -> Seq<char> {
    seq!['.', '.']
}

/// Whether `segment` is `.` or `..`, which name no entry.
pub open spec fn is_dot_segment(segment: Seq<char>) -> bool {
    segment == cur_segment() || segment == parent_segment()
}

/// The final segment of `path`; empty where the path has none.
pub open spec fn final_segment(path: Seq<char>, platform: Platform) -> Seq<char> {
    last_run(trim_tail(body(path, platform), platform), platform)
}

/// The name of the entry that `path` addresses: its final segment, unless the
/// path has none or that segment is `.` or `..`.
pub open spec fn path_file_name(path: Seq<char>, platform: Platform) -> Option<Seq<char>> {
    let name = final_segment(path, platform);
    if name.len() == 0 || is_dot_segment(name) {
        None
    } else {
        Some(name)
    }
}

/// The position of the last `c` in `s`, or -1.
pub open spec fn last_index_of(s: Seq<char>, c: char) -> int
    decreases s.len(),
{
    if s.len() == 0 {
        -1
    } else if s.last() == c {
        s.len() - 1
    } else {
        last_index_of(s.drop_last(), c)
    }
}

/// The extension of a file name: what follows its last dot, unless the name
/// has no dot or only the one it starts with.
pub open spec fn name_extension(name: Seq<char>) -> Option<Seq<char>> {
    let dot = last_index_of(name, '.');
    if dot <= 0 {
        None
    } else {
        Some(name.skip(dot + 1))
    }
}

/// The extension of the entry that `path` addresses.
pub open spec fn path_extension(path: Seq<char>, platform: Platform) -> Option<Seq<char>> {
    match path_file_name(path, platform) {
        Some(name) => name_extension(name),
        None => None,
    }
}

/// The directory part of a body whose final segment was taken off: `dir`
/// without the separators and `.` segments at its end, but never less than
/// the root separator it starts with.
pub open spec fn dir_of(dir: Seq<char>, platform: Platform) -> Seq<char> {
    let trimmed = trim_tail(dir, platform);
    if trimmed.len() > 0 {
        trimmed
    } else if dir.len() > 0 && is_separator(dir[0], platform) {
        dir.take(1)
    } else {
        Seq::empty()
    }
}

/// The directory that holds the entry that `path` addresses. There is none
/// where the path has no final segment (it is empty, a root or a bare prefix),
/// and none where nothing precedes the final segment (a relative path of one
/// segment).
pub open spec fn path_parent(path: Seq<char>, platform: Platform) -> Option<Seq<char>> {
    let stem = trim_tail(body(path, platform), platform);
    let parent = path.take(prefix_len(path, platform)) + dir_of(
        before_last_run(stem, platform),
        platform,
    );
    if stem.len() == 0 || parent.len() == 0 {
        None
    } else {
        Some(parent)
    }
}

/// The ancestors of a body, nearest first: the body cut off at the end of its
/// final segment, then the ancestors of what precedes that segment.
pub open spec fn stems(b: Seq<char>, platform: Platform) -> Seq<Seq<char>>
    decreases b.len(),
    via stems_decreases
{
    let stem = trim_tail(b, platform);
    if stem.len() == 0 {
        Seq::empty()
    } else {
        seq![stem] + stems(before_last_run(stem, platform), platform)
    }
}

#[via_fn]
proof fn stems_decreases(b: Seq<char>, platform: Platform) {
    let stem = trim_tail(b, platform);
    if stem.len() != 0 {
        lemma_trim_tail(b, platform);
        lemma_run_start(stem, platform);
    }
}

/// The ancestors of `path`, nearest first, each with the drive prefix of
/// `path`. The first is `path` itself, cut off at the end of its final segment.
pub open spec fn path_ancestors(path: Seq<char>, platform: Platform) -> Seq<Seq<char>> {
    let prefix = path.take(prefix_len(path, platform));
    stems(body(path, platform), platform).map_values(|stem: Seq<char>| prefix + stem)
}

/// `trim_tail` gives a prefix of its argument that is empty or ends in a
/// segment that is kept, and changes nothing that has this form already.
pub proof fn lemma_trim_tail(s: Seq<char>, platform: Platform)
    ensures
        trim_tail(s, platform).len() <= s.len(),
        trim_tail(s, platform) == s.take(trim_tail(s, platform).len() as int),
        trim_tail(s, platform).len() > 0 ==> !is_separator(trim_tail(s, platform).last(), platform)
            && !ends_in_cur_dir(trim_tail(s, platform), platform),
        trim_tail(trim_tail(s, platform), platform) == trim_tail(s, platform),
    decreases s.len(),
{
    if s.len() != 0 && (is_separator(s.last(), platform) || ends_in_cur_dir(s, platform)) {
        lemma_trim_tail(s.drop_last(), platform);
        let t = trim_tail(s.drop_last(), platform);
        assert(s.drop_last().take(t.len() as int) == s.take(t.len() as int));
    } else {
        assert(s.take(s.len() as int) == s);
    }
}

/// The run at the end of `s` holds no separator, and a separator (or nothing)
/// stands before it. Where `s` ends in no separator, the run is not empty.
pub proof fn lemma_run_start(s: Seq<char>, platform: Platform)
    ensures
        0 <= run_start(s, platform) <= s.len(),
        forall|i: int|
            run_start(s, platform) <= i < s.len() ==> !is_separator(#[trigger] s[i], platform),
        run_start(s, platform) > 0 ==> is_separator(s[run_start(s, platform) - 1], platform),
        s.len() > 0 && !is_separator(s.last(), platform) ==> run_start(s, platform) < s.len(),
    decreases s.len(),
{
    if s.len() != 0 && !is_separator(s.last(), platform) {
        lemma_run_start(s.drop_last(), platform);
        assert forall|i: int| run_start(s, platform) <= i < s.len() implies !is_separator(
            #[trigger] s[i],
            platform,
        ) by {
            if i < s.len() - 1 {
                assert(s[i] == s.drop_last()[i]);
            }
        }
    }
}

/// Whether `name` can name an entry: it is not empty, holds no separator,
/// and is not `.`.
pub open spec fn is_entry_name(name: Seq<char>, platform: Platform) -> bool {
    &&& name.len() > 0
    &&& forall|i: int| 0 <= i < name.len() ==> !is_separator(#[trigger] name[i], platform)
    &&& name != cur_segment()
}

/// The path of the entry `name` in the directory `dir`.
pub open spec fn child_path(dir: Seq<char>, sep: char, name: Seq<char>) -> Seq<char> {
    dir.push(sep) + name
}

/// The path of the entry that is reached from `dir` by going down through
/// `names`, one after the other.
pub open spec fn descendant_path(dir: Seq<char>, sep: char, names: Seq<Seq<char>>) -> Seq<char>
    decreases names.len(),
{
    if names.len() == 0 {
        dir
    } else {
        child_path(descendant_path(dir, sep, names.drop_last()), sep, names.last())
    }
}

/// Characters that are no separators, put at the end of `s`, lengthen the
/// run at its end and start no new one.
pub proof fn lemma_run_start_append(s: Seq<char>, t: Seq<char>, platform: Platform)
    requires
        forall|i: int| 0 <= i < t.len() ==> !is_separator(#[trigger] t[i], platform),
    ensures
        run_start(s + t, platform) == run_start(s, platform),
    decreases t.len(),
{
    if t.len() == 0 {
        assert(s + t == s);
    } else {
        assert((s + t).drop_last() == s + t.drop_last());
        assert((s + t).last() == t[t.len() - 1]);
        lemma_run_start_append(s, t.drop_last(), platform);
    }
}

/// The ancestors of an entry in a directory are the entry and the ancestors
/// of the directory.
pub proof fn lemma_stems_of_child(b: Seq<char>, sep: char, name: Seq<char>, platform: Platform)
    requires
        is_separator(sep, platform),
        is_entry_name(name, platform),
    ensures
        trim_tail(child_path(b, sep, name), platform) == child_path(b, sep, name),
        last_run(child_path(b, sep, name), platform) == name,
        stems(child_path(b, sep, name), platform) == seq![child_path(b, sep, name)] + stems(
            b,
            platform,
        ),
{
    let child = child_path(b, sep, name);
    let dir = b.push(sep);
    assert(child.last() == name.last());
    assert(!ends_in_cur_dir(child, platform)) by {
        if name.len() == 1 {
            if name[0] == '.' {
                assert(name =~= cur_segment());
            }
        } else {
            assert(child[child.len() - 2] == name[name.len() - 2]);
        }
    }
    lemma_run_start_append(dir, name, platform);
    assert(run_start(child, platform) == dir.len());
    assert(child.skip(dir.len() as int) == name);
    assert(child.take(dir.len() as int) == dir);
    assert(dir.drop_last() == b);
    assert(trim_tail(dir, platform) == trim_tail(b, platform));
    assert(trim_tail(child, platform) == child);
    assert(before_last_run(child, platform) == dir);
    assert(stems(child, platform) == seq![child] + stems(dir, platform));
    assert(stems(dir, platform) == stems(b, platform));
}

/// A path and its entry `name` have the same drive prefix, and the body of
/// the entry's path is the entry in the body of the directory.
pub proof fn lemma_body_of_child(dir: Seq<char>, sep: char, name: Seq<char>, platform: Platform)
    requires
        is_separator(sep, platform),
    ensures
        prefix_len(child_path(dir, sep, name), platform) == prefix_len(dir, platform),
        body(child_path(dir, sep, name), platform) == child_path(
            body(dir, platform),
            sep,
            name,
        ),
{
    let child = child_path(dir, sep, name);
    if dir.len() >= 2 {
        assert(child[0] == dir[0] && child[1] == dir[1]);
    } else if dir.len() == 1 {
        assert(child[1] == sep);
    } else {
        assert(child[0] == sep);
    }
    assert(body(child, platform) =~= child_path(body(dir, platform), sep, name));
}

/// The entry `name` in a directory has the file name `name`.
pub proof fn lemma_file_name_of_child(
    dir: Seq<char>,
    sep: char,
    name: Seq<char>,
    platform: Platform,
)
    requires
        is_separator(sep, platform),
        is_entry_name(name, platform),
        name != parent_segment(),
    ensures
        path_file_name(child_path(dir, sep, name), platform) == Some(name),
{
    lemma_body_of_child(dir, sep, name, platform);
    lemma_stems_of_child(body(dir, platform), sep, name, platform);
}

/// The parent of an entry in a directory is the directory, where the path
/// of the directory ends in a segment.
pub proof fn lemma_parent_of_child(dir: Seq<char>, sep: char, name: Seq<char>, platform: Platform)
    requires
        is_separator(sep, platform),
        is_entry_name(name, platform),
        body(dir, platform).len() > 0,
        trim_tail(body(dir, platform), platform) == body(dir, platform),
    ensures
        path_parent(child_path(dir, sep, name), platform) == Some(dir),
{
    let b = body(dir, platform);
    let child = child_path(b, sep, name);
    lemma_body_of_child(dir, sep, name, platform);
    lemma_stems_of_child(b, sep, name, platform);
    lemma_run_start_append(b.push(sep), name, platform);
    assert(before_last_run(child, platform) == b.push(sep)) by {
        assert(child.take(b.len() as int + 1) == b.push(sep));
    }
    assert(b.push(sep).drop_last() == b);
    assert(trim_tail(b.push(sep), platform) == b);
    assert(dir.take(prefix_len(dir, platform)) + b == dir);
}

/// The parent of a path is its second ancestor, where it has one.
pub proof fn lemma_parent_is_second_ancestor(path: Seq<char>, platform: Platform)
    requires
        path_ancestors(path, platform).len() >= 2,
    ensures
        path_parent(path, platform) == Some(path_ancestors(path, platform)[1]),
{
    let b = body(path, platform);
    let stem = trim_tail(b, platform);
    let up = before_last_run(stem, platform);
    assert(stems(b, platform) == seq![stem] + stems(up, platform));
    assert(stems(up, platform)[0] == trim_tail(up, platform));
    assert(stems(b, platform)[1] == stems(up, platform)[0]);
}

pub(crate) fn is_sep(c: char, platform: Platform) -> (r: bool)
    ensures
        r == is_separator(c, platform),
{
    c == '/' || (platform == Platform::Windows && c == '\\')
}

fn is_letter(c: char) -> (r: bool)
    ensures
        r == is_ascii_letter(c),
{
    ('a' <= c && c <= 'z') || ('A' <= c && c <= 'Z')
}

pub(crate) fn drive_prefix_len(chars: &[char], platform: Platform) -> (n: usize)
    ensures
        n == prefix_len(chars@, platform),
        n <= chars.len(),
{
    if platform == Platform::Windows && chars.len() >= 2 && is_letter(chars[0]) && chars[1]
        == ':' {
        2
    } else {
        0
    }
}

fn ends_in_noise(s: &[char], end: usize, platform: Platform) -> (r: bool)
    requires
        0 < end <= s.len(),
    ensures
        r == (is_separator(s@.take(end as int).last(), platform) || ends_in_cur_dir(
            s@.take(end as int),
            platform,
        )),
{
    let last: char = s[end - 1];
    is_sep(last, platform) || (last == '.' && end >= 2 && is_sep(s[end - 2], platform))
}

/// The length of `trim_tail` of the first `end` characters of `s`.
pub(crate) fn trimmed_len(s: &[char], end: usize, platform: Platform) -> (e: usize)
    requires
        end <= s.len(),
    ensures
        e <= end,
        s@.take(e as int) == trim_tail(s@.take(end as int), platform),
{
    let mut e: usize = end;
    while e > 0 && ends_in_noise(s, e, platform)
        invariant
            e <= end <= s.len(),
            trim_tail(s@.take(e as int), platform) == trim_tail(s@.take(end as int), platform),
        decreases e,
    {
        assert(s@.take(e as int).drop_last() == s@.take(e - 1));
        e = e - 1;
    }
    e
}

/// Where the separator-free run that ends at `end` starts.
pub(crate) fn run_begin(s: &[char], end: usize, platform: Platform) -> (b: usize)
    requires
        end <= s.len(),
    ensures
        b <= end,
        b == run_start(s@.take(end as int), platform),
{
    let mut b: usize = end;
    while b > 0 && !is_sep(s[b - 1], platform)
        invariant
            b <= end <= s.len(),
            run_start(s@.take(b as int), platform) == run_start(s@.take(end as int), platform),
        decreases b,
    {
        assert(s@.take(b as int).drop_last() == s@.take(b - 1));
        b = b - 1;
    }
    b
}

/// The bounds of the final segment within a body: where it starts, and where
/// it ends, which is where `trim_tail` cuts the body off.
pub(crate) fn final_segment_span(b: &[char], platform: Platform) -> (span: (usize, usize))
    ensures
        span.0 <= span.1 <= b.len(),
        b@.take(span.1 as int) == trim_tail(b@, platform),
        span.0 == run_start(trim_tail(b@, platform), platform),
        b@.subrange(span.0 as int, span.1 as int) == last_run(trim_tail(b@, platform), platform),
        span.1 > 0 ==> span.0 < span.1,
{
    assert(b@.take(b.len() as int) == b@);
    let end: usize = trimmed_len(b, b.len(), platform);
    let start: usize = run_begin(b, end, platform);
    proof {
        lemma_trim_tail(b@, platform);
        lemma_run_start(trim_tail(b@, platform), platform);
        assert(b@.take(end as int).skip(start as int) == b@.subrange(start as int, end as int));
    }
    (start, end)
}

pub(crate) fn is_dots(segment: &[char]) -> (r: bool)
    ensures
        r == is_dot_segment(segment@),
{
    let one = segment.len() == 1 && segment[0] == '.';
    let two = segment.len() == 2 && segment[0] == '.' && segment[1] == '.';
    assert(one ==> segment@ =~= cur_segment());
    assert(two ==> segment@ =~= parent_segment());
    one || two
}

/// The name of the entry that `path` addresses: `Some` of its final segment,
/// `None` where the path has no segment or ends in `.` or `..`.
pub fn file_name(path: &str, platform: Platform) -> (name: Option<String>)
    ensures
        match name {
            Some(n) => path_file_name(path@, platform) == Some(n@),
            None => path_file_name(path@, platform) is None,
        },
{
    let chars = chars_of(path);
    let prefix: usize = drive_prefix_len(chars.as_slice(), platform);
    let b = slice_subrange(chars.as_slice(), prefix, chars.len());
    let (start, end) = final_segment_span(b, platform);
    let name = slice_subrange(b, start, end);
    if name.len() == 0 || is_dots(name) {
        None
    } else {
        Some(string_of(name))
    }
}

/// The position of the last `c` in `s`, if it holds one.
fn last_position(s: &[char], c: char) -> (at: Option<usize>)
    ensures
        match at {
            Some(i) => i < s.len() && i == last_index_of(s@, c),
            None => last_index_of(s@, c) == -1,
        },
{
    let mut i: usize = s.len();
    assert(s@.take(i as int) == s@);
    while i > 0
        invariant
            i <= s.len(),
            last_index_of(s@.take(i as int), c) == last_index_of(s@, c),
        decreases i,
    {
        if s[i - 1] == c {
            return Some(i - 1);
        }
        assert(s@.take(i as int).drop_last() == s@.take(i - 1));
        i = i - 1;
    }
    None
}

/// The extension of the entry that `path` addresses: what follows the last
/// dot of its file name. `None` where the path has no file name, the name
/// has no dot, or its only dot is the one it starts with.
pub fn extension(path: &str, platform: Platform) -> (ext: Option<String>)
    ensures
        match ext {
            Some(e) => path_extension(path@, platform) == Some(e@),
            None => path_extension(path@, platform) is None,
        },
{
    let chars = chars_of(path);
    let prefix: usize = drive_prefix_len(chars.as_slice(), platform);
    let b = slice_subrange(chars.as_slice(), prefix, chars.len());
    let (start, end) = final_segment_span(b, platform);
    let name = slice_subrange(b, start, end);
    if name.len() == 0 || is_dots(name) {
        return None;
    }
    match last_position(name, '.') {
        Some(dot) => {
            if dot == 0 {
                None
            } else {
                let ext = slice_subrange(name, dot + 1, name.len());
                Some(string_of(ext))
            }
        },
        None => None,
    }
}

/// The directory that holds the entry that `path` addresses, without a
/// separator at its end unless it is a root. `None` where the path has no
/// final segment, and where nothing precedes that segment.
pub fn parent_dir(path: &str, platform: Platform) -> (parent: Option<String>)
    ensures
        match parent {
            Some(p) => path_parent(path@, platform) == Some(p@),
            None => path_parent(path@, platform) is None,
        },
{
    let chars = chars_of(path);
    let prefix: usize = drive_prefix_len(chars.as_slice(), platform);
    let b = slice_subrange(chars.as_slice(), prefix, chars.len());
    let (start, end) = final_segment_span(b, platform);
    if end == 0 {
        return None;
    }
    let trimmed: usize = trimmed_len(b, start, platform);
    let dir_len: usize = if trimmed > 0 {
        trimmed
    } else if start > 0 && is_sep(b[0], platform) {
        1
    } else {
        0
    };
    proof {
        let stem = trim_tail(b@, platform);
        let dir = before_last_run(stem, platform);
        assert(dir == b@.take(start as int));
        if start > 0 {
            assert(dir.take(1) == b@.take(1));
        }
        assert(dir_of(dir, platform) == b@.take(dir_len as int));
        assert(path@.take(prefix as int) + b@.take(dir_len as int) == chars@.subrange(
            0,
            prefix + dir_len,
        ));
    }
    if prefix + dir_len == 0 {
        None
    } else {
        Some(string_of(slice_subrange(chars.as_slice(), 0, prefix + dir_len)))
    }
}

/// Where the ancestors of a body end and where their final segments start,
/// nearest first: for each ancestor the start of its final segment and its
/// own end, both as positions in the body.
pub(crate) fn stem_spans(b: &[char], platform: Platform) -> (spans: Vec<(usize, usize)>)
    ensures
        spans@.len() == stems(b@, platform).len(),
        forall|k: int|
            0 <= k < spans@.len() ==> {
                let span = #[trigger] spans@[k];
                &&& span.0 < span.1 <= b.len()
                &&& b@.take(span.1 as int) == stems(b@, platform)[k]
                &&& b@.subrange(span.0 as int, span.1 as int) == last_run(
                    stems(b@, platform)[k],
                    platform,
                )
            },
{
    let mut spans: Vec<(usize, usize)> = Vec::new();
    let mut cur: usize = b.len();
    let ghost all = stems(b@, platform);
    let ghost mut done: Seq<Seq<char>> = Seq::empty();
    assert(b@.take(cur as int) == b@);
    loop
        invariant
            cur <= b.len(),
            all == done + stems(b@.take(cur as int), platform),
            spans@.len() == done.len(),
            forall|k: int|
                0 <= k < spans@.len() ==> {
                    let span = #[trigger] spans@[k];
                    &&& span.0 < span.1 <= b.len()
                    &&& b@.take(span.1 as int) == done[k]
                    &&& b@.subrange(span.0 as int, span.1 as int) == last_run(done[k], platform)
                },
        ensures
            all == done,
        decreases cur,
    {
        let end: usize = trimmed_len(b, cur, platform);
        if end == 0 {
            break ;
        }
        let start: usize = run_begin(b, end, platform);
        proof {
            let stem = b@.take(end as int);
            lemma_trim_tail(b@.take(cur as int), platform);
            lemma_run_start(stem, platform);
            assert(before_last_run(stem, platform) == b@.take(start as int));
            assert(stem.skip(start as int) == b@.subrange(start as int, end as int));
            assert(done + (seq![stem] + stems(b@.take(start as int), platform)) == done.push(stem)
                + stems(b@.take(start as int), platform));
            done = done.push(stem);
        }
        spans.push((start, end));
        cur = start;
    }
    spans
}

/// The ancestors of `path`, nearest first: `path` itself, cut off at the end
/// of its final segment, then each path that precedes the final segment of
/// the one before. Each is a prefix of `path`; none is a bare root or prefix.
/// A path that starts with `./` has `.` as its last ancestor.
pub fn ancestors(path: &str, platform: Platform) -> (out: Vec<String>)
    ensures
        out@.len() == path_ancestors(path@, platform).len(),
        forall|k: int|
            0 <= k < out@.len() ==> (#[trigger] out@[k])@ == path_ancestors(path@, platform)[k],
{
    let chars = chars_of(path);
    let prefix: usize = drive_prefix_len(chars.as_slice(), platform);
    let b = slice_subrange(chars.as_slice(), prefix, chars.len());
    let spans = stem_spans(b, platform);
    let mut out: Vec<String> = Vec::new();
    let mut k: usize = 0;
    while k < spans.len()
        invariant
            k <= spans.len(),
            out@.len() == k,
            prefix + b.len() == chars.len(),
            b@ == body(path@, platform),
            b@ == chars@.skip(prefix as int),
            chars@ == path@,
            prefix == prefix_len(path@, platform),
            spans@.len() == stems(b@, platform).len(),
            forall|j: int|
                0 <= j < spans@.len() ==> (#[trigger] spans@[j]).1 <= b.len() && b@.take(
                    spans@[j].1 as int,
                ) == stems(b@, platform)[j],
            forall|j: int|
                0 <= j < k ==> (#[trigger] out@[j])@ == path_ancestors(path@, platform)[j],
        decreases spans.len() - k,
    {
        let end: usize = spans[k].1;
        assert(chars@.subrange(0, prefix + end) == chars@.take(prefix as int) + b@.take(
            end as int,
        ));
        out.push(string_of(slice_subrange(chars.as_slice(), 0, prefix + end)));
        k = k + 1;
    }
    out
}

} // verus!
