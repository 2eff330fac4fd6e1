//! Ignore rules: the rule set that an ignore file compiles to.
//!
//! Patterns are compiled by the `ignore` crate. This module cuts the bytes
//! of an ignore file into lines, decodes them, hands them to the crate's
//! builder one by one, and scopes the result to the directory that holds the
//! file.

use vstd::prelude::*;
use vstd::slice::{slice_subrange, slice_to_vec};
use vstd::utf8::{decode_utf8, valid_utf8};

use crate::path::{parent_dir, path_parent, Platform};
use crate::text::{chars_of, string_of, utf8_text};

verus! {

/// `Gitignore` of the `ignore` crate: a compiled matcher. Nothing inside it
/// is read here.
#[verifier::external_type_specification]
#[verifier::external_body]
pub struct ExGitignore(ignore::gitignore::Gitignore);

/// `GitignoreBuilder` of the `ignore` crate: it collects pattern lines for
/// one root directory.
#[verifier::external_type_specification]
#[verifier::external_body]
pub struct ExGitignoreBuilder(ignore::gitignore::GitignoreBuilder);

/// `Error` of the `ignore` crate. Nothing inside it is read here.
#[verifier::external_type_specification]
#[verifier::external_body]
pub struct ExIgnoreError(ignore::Error);

/// The byte that ends a line.
pub const LINE_FEED: u8 = 0x0a;

/// The byte that may stand before the line feed.
pub const CARRIAGE_RETURN: u8 = 0x0d;

/// Why an ignore file did not compile to a rule set.
#[derive(Clone, Copy, Debug, PartialEq, Eq, Structural)]
pub enum CompileError {
    /// The path of the ignore file names no directory that holds it.
    NoParentDirectory,
    /// The patterns were taken line by line, but no matcher could be built
    /// from them together.
    BuildFailed,
}

/// The rules of one ignore file, compiled, for one directory and what lies
/// below it. A rule set is made once and not changed.
pub struct IgnoreRuleSet {
    scope_dir: String,
    compiled_patterns: ignore::gitignore::Gitignore,
}

impl IgnoreRuleSet {
    /// The directory that the rules are scoped to.
    pub closed spec fn scope_text(self) -> Seq<char> {
        self.scope_dir@
    }

    /// The matcher that the `ignore` crate built.
    pub closed spec fn matcher(self) -> ignore::gitignore::Gitignore {
        self.compiled_patterns
    }

    /// The directory that the rules apply to, with what lies below it.
    pub fn scope_dir(&self) -> (dir: &str)
        ensures
            dir@ == self.scope_text(),
    {
        self.scope_dir.as_str()
    }

    /// The compiled matcher.
    pub fn compiled_patterns(&self) -> (rules: &ignore::gitignore::Gitignore)
        ensures
            *rules == self.matcher(),
    {
        &self.compiled_patterns
    }
}

/// The root directory that a builder holds.
pub uninterp spec fn builder_root(builder: ignore::gitignore::GitignoreBuilder) -> Seq<char>;

/// The patterns that a builder holds, each as the text it was stored with,
/// in the order in which they were added.
pub uninterp spec fn builder_lines(builder: ignore::gitignore::GitignoreBuilder) -> Seq<Seq<char>>;

/// Whether the builder of the `ignore` crate, as it is made by default, takes
/// `line` without an error: it refuses a line whose pattern is no valid glob.
pub uninterp spec fn line_accepted(line: Seq<char>) -> bool;

/// The text that the builder of the `ignore` crate, as it is made by
/// default, stores for `line`; `None` where it stores nothing for it, as for
/// a comment and for a blank line.
pub uninterp spec fn line_stored(line: Seq<char>) -> Option<Seq<char>>;

/// Whether `GitignoreBuilder::build` makes a matcher of a builder that holds
/// the patterns `lines`.
pub uninterp spec fn set_builds(lines: Seq<Seq<char>>) -> bool;

/// The root directory that a matcher holds.
pub uninterp spec fn compiled_root(rules: ignore::gitignore::Gitignore) -> Seq<char>;

/// The patterns that a matcher holds, each as the text it was stored with.
pub uninterp spec fn compiled_lines(rules: ignore::gitignore::Gitignore) -> Seq<Seq<char>>;

/// Whether `root` starts with a `.` segment. The builder of the `ignore`
/// crate does not hold such a root as it is given: it takes the `./` off.
pub open spec fn starts_with_cur_dir(root: Seq<char>) -> bool {
    root.len() >= 1 && root[0] == '.' && (root.len() == 1 || root[1] == '/' || root[1] == '\\')
}

/// The position of the first `x` in `s`, or `s.len()`.
pub open spec fn first_index_of<T>(s: Seq<T>, x: T) -> int
    decreases s.len(),
{
    if s.len() == 0 || s[0] == x {
        0
    } else {
        1 + first_index_of(s.skip(1), x)
    }
}

/// `line` without the carriage return at its end, if it has one.
pub open spec fn without_cr(line: Seq<u8>) -> Seq<u8> {
    if line.len() > 0 && line.last() == CARRIAGE_RETURN {
        line.drop_last()
    } else {
        line
    }
}

/// The lines of a file. A line ends at a line feed, or at a carriage return
/// followed by a line feed; neither belongs to the line. What follows the
/// last line feed is a line if it is not empty.
pub open spec fn lines_of(bytes: Seq<u8>) -> Seq<Seq<u8>>
    decreases bytes.len(),
    via lines_of_decreases
{
    let end = first_index_of(bytes, LINE_FEED);
    if bytes.len() == 0 {
        Seq::empty()
    } else if end >= bytes.len() {
        seq![bytes]
    } else {
        seq![without_cr(bytes.take(end))] + lines_of(bytes.skip(end + 1))
    }
}

#[via_fn]
proof fn lines_of_decreases(bytes: Seq<u8>) {
    lemma_first_index_of(bytes, LINE_FEED);
}

/// `first_index_of` gives a position at which `x` stands, or the length;
/// `x` does not stand before it.
pub proof fn lemma_first_index_of<T>(s: Seq<T>, x: T)
    ensures
        0 <= first_index_of(s, x) <= s.len(),
        first_index_of(s, x) < s.len() ==> s[first_index_of(s, x)] == x,
        forall|i: int| 0 <= i < first_index_of(s, x) ==> #[trigger] s[i] != x,
    decreases s.len(),
{
    if s.len() != 0 && s[0] != x {
        lemma_first_index_of(s.skip(1), x);
        assert forall|i: int| 0 <= i < first_index_of(s, x) implies #[trigger] s[i] != x by {
            if i > 0 {
                assert(s[i] == s.skip(1)[i - 1]);
            }
        }
    }
}

/// How many lines can be read: those before the first line that is no
/// UTF-8. Reading stops there.
pub open spec fn readable_count(lines: Seq<Seq<u8>>) -> int {
    first_index_of(lines.map_values(|line: Seq<u8>| valid_utf8(line)), false)
}

/// `line` without the byte order marks that it starts with.
pub open spec fn without_bom(line: Seq<char>) -> Seq<char>
    decreases line.len(),
{
    if line.len() > 0 && line[0] == '\u{feff}' {
        without_bom(line.skip(1))
    } else {
        line
    }
}

/// The pattern that line `i` holds: its text, and for the first line its
/// text without byte order marks.
pub open spec fn pattern_line(lines: Seq<Seq<u8>>, i: int) -> Seq<char> {
    if i == 0 {
        without_bom(decode_utf8(lines[i]))
    } else {
        decode_utf8(lines[i])
    }
}

/// The first `n` pattern lines.
pub open spec fn pattern_lines_upto(lines: Seq<Seq<u8>>, n: int) -> Seq<Seq<char>> {
    Seq::new(n as nat, |i: int| pattern_line(lines, i))
}

/// The pattern lines of an ignore file: the text of each line that can be
/// read.
pub open spec fn pattern_lines(contents: Seq<u8>) -> Seq<Seq<char>> {
    let lines = lines_of(contents);
    pattern_lines_upto(lines, readable_count(lines))
}

/// What a builder holds after `line` was handed to it, where it held
/// `before`: one more pattern where the line is taken and something is
/// stored for it, and `before` otherwise.
pub open spec fn with_line(before: Seq<Seq<char>>, line: Seq<char>) -> Seq<Seq<char>> {
    if line_accepted(line) && line_stored(line) is Some {
        before.push(line_stored(line)->0)
    } else {
        before
    }
}

/// What a builder holds after `lines` were handed to it one by one.
pub open spec fn stored_lines(lines: Seq<Seq<char>>) -> Seq<Seq<char>>
    decreases lines.len(),
{
    if lines.len() == 0 {
        lines
    } else {
        with_line(stored_lines(lines.drop_last()), lines.last())
    }
}

/// Whether the ignore file at `path` with the bytes `contents` compiles: the
/// path names a parent directory, and a matcher can be built of the patterns
/// that the file holds.
pub open spec fn compiles(path: Seq<char>, contents: Seq<u8>, platform: Platform) -> bool {
    path_parent(path, platform) is Some && set_builds(stored_lines(pattern_lines(contents)))
}

/// `GitignoreBuilder::new` of the `ignore` crate: a builder that holds no
/// pattern yet. It holds `root` as it is given, unless `root` starts with a
/// `.` segment.
#[verifier::external_body]
fn new_builder(root: &str) -> (builder: ignore::gitignore::GitignoreBuilder)
    ensures
        !starts_with_cur_dir(root@) ==> builder_root(builder) == root@,
        builder_lines(builder) == Seq::<Seq<char>>::empty(),
{
    ignore::gitignore::GitignoreBuilder::new(root)
}

/// `GitignoreBuilder::add_line` of the `ignore` crate, for a line that came
/// from the file `from`. Where the pattern of the line is no valid glob, the
/// builder refuses it and stays as it was. Where it takes the line, it
/// stores one pattern for it, or none: a comment and a blank line are taken
/// and leave nothing behind.
#[verifier::external_body]
fn add_line(builder: &mut ignore::gitignore::GitignoreBuilder, from: &str, line: &str) -> (taken:
    bool)
    ensures
        taken == line_accepted(line@),
        builder_root(*final(builder)) == builder_root(*old(builder)),
        builder_lines(*final(builder)) == if taken && line_stored(line@) is Some {
            builder_lines(*old(builder)).push(line_stored(line@)->0)
        } else {
            builder_lines(*old(builder))
        },
{
    builder.add_line(Some(std::path::PathBuf::from(from)), line).is_ok()
}

/// `GitignoreBuilder::build` of the `ignore` crate. Whether it succeeds
/// depends on the patterns that the builder holds; where it does, the
/// matcher has the root and the patterns of the builder.
#[verifier::external_body]
fn build(builder: &ignore::gitignore::GitignoreBuilder) -> (built: Result<
    ignore::gitignore::Gitignore,
    ignore::Error,
>)
    ensures
        built is Ok == set_builds(builder_lines(*builder)),
        built matches Ok(rules) ==> compiled_root(rules) == builder_root(*builder)
            && compiled_lines(rules) == builder_lines(*builder),
{
    builder.build()
}

/// The lines of `bytes`: each ends at a line feed, or at a carriage return
/// followed by a line feed, and holds neither. What follows the last line
/// feed is a line if it is not empty.
pub fn split_lines(bytes: &[u8]) -> (lines: Vec<Vec<u8>>)
    ensures
        lines@.len() == lines_of(bytes@).len(),
        forall|k: int| 0 <= k < lines@.len() ==> (#[trigger] lines@[k])@ == lines_of(bytes@)[k],
{
    let mut lines: Vec<Vec<u8>> = Vec::new();
    let mut start: usize = 0;
    let ghost mut done: Seq<Seq<u8>> = Seq::empty();
    assert(bytes@.skip(0) == bytes@);
    while start < bytes.len()
        invariant
            start <= bytes.len(),
            lines_of(bytes@) == done + lines_of(bytes@.skip(start as int)),
            lines@.len() == done.len(),
            forall|k: int| 0 <= k < lines@.len() ==> (#[trigger] lines@[k])@ == done[k],
        decreases bytes.len() - start,
    {
        let ghost rest = bytes@.skip(start as int);
        let mut end: usize = start;
        while end < bytes.len() && bytes[end] != LINE_FEED
            invariant
                start <= end <= bytes.len(),
                forall|i: int| start <= i < end ==> bytes@[i] != LINE_FEED,
            decreases bytes.len() - end,
        {
            end = end + 1;
        }
        proof {
            lemma_first_index_of(rest, LINE_FEED);
            let found = first_index_of(rest, LINE_FEED);
            if found < end - start {
                assert(rest[found] == bytes@[start + found]);
            }
            if found > end - start {
                assert(rest[end - start] == bytes@[end as int]);
            }
            assert(found == end - start);
        }
        if end == bytes.len() {
            assert(rest == bytes@.subrange(start as int, end as int));
            assert(done + seq![rest] == done.push(rest));
            proof {
                done = done.push(rest);
            }
            lines.push(slice_to_vec(slice_subrange(bytes, start, end)));
            start = end;
            assert(lines_of(bytes@.skip(start as int)) == Seq::<Seq<u8>>::empty());
            assert(done + Seq::<Seq<u8>>::empty() == done);
        } else {
            let line_end: usize = if end > start && bytes[end - 1] == CARRIAGE_RETURN {
                end - 1
            } else {
                end
            };
            proof {
                let raw = rest.take(end - start);
                assert(raw == bytes@.subrange(start as int, end as int));
                let line = without_cr(raw);
                assert(line == bytes@.subrange(start as int, line_end as int));
                assert(rest.skip(end - start + 1) == bytes@.skip(end + 1));
                assert(done + (seq![line] + lines_of(bytes@.skip(end + 1))) == done.push(line)
                    + lines_of(bytes@.skip(end + 1)));
                done = done.push(line);
            }
            lines.push(slice_to_vec(slice_subrange(bytes, start, line_end)));
            start = end + 1;
        }
    }
    assert(lines_of(bytes@.skip(start as int)) == Seq::<Seq<u8>>::empty());
    assert(done + Seq::<Seq<u8>>::empty() == done);
    lines
}

/// `line` without the byte order marks that it starts with.
pub fn strip_bom(line: &str) -> (stripped: String)
    ensures
        stripped@ == without_bom(line@),
{
    let chars = chars_of(line);
    let mut i: usize = 0;
    assert(chars@.skip(0) == chars@);
    while i < chars.len() && chars[i] == '\u{feff}'
        invariant
            i <= chars.len(),
            without_bom(chars@) == without_bom(chars@.skip(i as int)),
        decreases chars.len() - i,
    {
        assert(chars@.skip(i as int).skip(1) == chars@.skip(i + 1));
        i = i + 1;
    }
    assert(chars@.skip(i as int) == chars@.subrange(i as int, chars.len() as int));
    string_of(slice_subrange(chars.as_slice(), i, chars.len()))
}

/// The rule set for `scope_dir`, once the builder has answered: what it
/// built, or `BuildFailed`.
pub fn rule_set_from(
    scope_dir: String,
    built: Result<ignore::gitignore::Gitignore, ignore::Error>,
) -> (r: Result<IgnoreRuleSet, CompileError>)
    ensures
        match built {
            Ok(rules) => r matches Ok(set) && set.scope_text() == scope_dir@ && set.matcher()
                == rules,
            Err(_) => r matches Err(e) && e == CompileError::BuildFailed,
        },
{
    match built {
        Ok(rules) => Ok(IgnoreRuleSet { scope_dir, compiled_patterns: rules }),
        Err(_) => Err(CompileError::BuildFailed),
    }
}

/// The rule set of the ignore file at `path`, whose bytes are `contents`.
/// The rules are scoped to the directory that holds the file; without such a
/// directory there is `NoParentDirectory`. The lines of `contents` are
/// handed to the builder one by one, up to the first that is no UTF-8; a
/// line that the builder refuses is left out, and the others still count.
/// There is a rule set exactly where the path has a parent and a matcher
/// can be built of the patterns.
pub fn patterns_from_file(path: &str, contents: &[u8], platform: Platform) -> (r: Result<
    IgnoreRuleSet,
    CompileError,
>)
    ensures
        r is Ok <==> compiles(path@, contents@, platform),
        match r {
            Ok(set) => {
                &&& path_parent(path@, platform) == Some(set.scope_text())
                &&& !starts_with_cur_dir(set.scope_text()) ==> compiled_root(set.matcher())
                    == set.scope_text()
                &&& compiled_lines(set.matcher()) == stored_lines(pattern_lines(contents@))
            },
            Err(e) => e == if path_parent(path@, platform) is None {
                CompileError::NoParentDirectory
            } else {
                CompileError::BuildFailed
            },
        },
{
    let parent = match parent_dir(path, platform) {
        Some(parent) => parent,
        None => {
            return Err(CompileError::NoParentDirectory);
        },
    };
    let mut builder = new_builder(parent.as_str());
    let lines = split_lines(contents);
    let ghost raw = lines_of(contents@);
    let ghost readable = raw.map_values(|line: Seq<u8>| valid_utf8(line));
    let mut i: usize = 0;
    assert(pattern_lines_upto(raw, 0) == Seq::<Seq<char>>::empty());
    loop
        invariant
            i <= lines.len(),
            raw == lines_of(contents@),
            readable == raw.map_values(|line: Seq<u8>| valid_utf8(line)),
            lines@.len() == raw.len(),
            forall|k: int| 0 <= k < lines@.len() ==> (#[trigger] lines@[k])@ == raw[k],
            forall|k: int| 0 <= k < i ==> #[trigger] readable[k],
            !starts_with_cur_dir(parent@) ==> builder_root(builder) == parent@,
            builder_lines(builder) == stored_lines(pattern_lines_upto(raw, i as int)),
        ensures
            !starts_with_cur_dir(parent@) ==> builder_root(builder) == parent@,
            builder_lines(builder) == stored_lines(pattern_lines(contents@)),
        decreases lines.len() - i,
    {
        proof {
            lemma_first_index_of(readable, false);
        }
        if i >= lines.len() {
            break ;
        }
        let text = match utf8_text(lines[i].as_slice()) {
            Some(text) => text,
            None => {
                assert(!readable[i as int]);
                break ;
            },
        };
        assert(readable[i as int]);
        assert(pattern_lines_upto(raw, i + 1).drop_last() == pattern_lines_upto(raw, i as int));
        if i == 0 {
            let first = strip_bom(text);
            add_line(&mut builder, path, first.as_str());
        } else {
            add_line(&mut builder, path, text);
        }
        i = i + 1;
    }
    rule_set_from(parent, build(&builder))
}

} // verus!
