//! Text as characters: conversions between strings and character vectors,
//! comparison, and replacement.
//!
//! The algorithms of this crate work on `Vec<char>`, where indexing is
//! constant-time and a position is a character position, exactly as in the
//! `Seq<char>` view that the contracts are written over.

use vstd::prelude::*;
use vstd::slice::slice_subrange;
use vstd::utf8::{decode_utf8, valid_utf8};

verus! {

/// `s` with every match of `pattern` replaced by `with`; matches are looked
/// for from left to right and do not overlap. An empty pattern matches
/// nothing.
pub open spec fn replaced(s: Seq<char>, pattern: Seq<char>, with: Seq<char>) -> Seq<char>
    decreases s.len(),
{
    if pattern.len() == 0 || s.len() < pattern.len() {
        s
    } else if s.take(pattern.len() as int) == pattern {
        with + replaced(s.skip(pattern.len() as int), pattern, with)
    } else {
        seq![s[0]] + replaced(s.skip(1), pattern, with)
    }
}

/// The characters of `s`, in order.
pub fn chars_of(s: &str) -> (v: Vec<char>)
    ensures
        v@ == s@,
{
    let mut v: Vec<char> = Vec::new();
    for c in iter: s.chars()
        invariant
            v@ == iter.seq().take(iter.index()),
            iter.seq() == s@,
    {
        v.push(c);
    }
    v
}

/// `String::from_iter` over the characters of a slice: the string whose
/// characters are exactly those of `chars`, in order.
#[verifier::external_body]
pub(crate) fn string_of(chars: &[char]) -> (s: String)
    ensures
        s@ == chars@,
{
    String::from_iter(chars.iter())
}

/// `core::str::from_utf8`: the text that `bytes` encode, where they are
/// UTF-8.
#[verifier::external_body]
pub(crate) fn utf8_text<'a>(bytes: &'a [u8]) -> (text: Option<&'a str>)
    ensures
        match text {
            Some(s) => valid_utf8(bytes@) && s@ == decode_utf8(bytes@),
            None => !valid_utf8(bytes@),
        },
{
    core::str::from_utf8(bytes).ok()
}

/// Whether two slices hold the same characters.
pub fn same_chars(a: &[char], b: &[char]) -> (r: bool)
    ensures
        r == (a@ == b@),
{
    if a.len() != b.len() {
        return false;
    }
    let mut i: usize = 0;
    while i < a.len()
        invariant
            i <= a.len() == b.len(),
            a@.take(i as int) == b@.take(i as int),
        decreases a.len() - i,
    {
        if a[i] != b[i] {
            return false;
        }
        assert(a@.take(i + 1) == a@.take(i as int).push(a@[i as int]));
        assert(b@.take(i + 1) == b@.take(i as int).push(b@[i as int]));
        i = i + 1;
    }
    assert(a@.take(i as int) == a@ && b@.take(i as int) == b@);
    true
}

/// `s` with every match of `pattern` replaced by `with`, from left to right.
pub fn replace_all(s: &[char], pattern: &[char], with: &[char]) -> (out: Vec<char>)
    ensures
        out@ == replaced(s@, pattern@, with@),
{
    let mut out: Vec<char> = Vec::new();
    let mut i: usize = 0;
    let n: usize = pattern.len();
    assert(s@.skip(0) == s@);
    while i < s.len()
        invariant
            i <= s.len(),
            n == pattern.len(),
            replaced(s@, pattern@, with@) == out@ + replaced(s@.skip(i as int), pattern@, with@),
        decreases s.len() - i,
    {
        let ghost rest = s@.skip(i as int);
        if n > 0 && n <= s.len() - i && same_chars(slice_subrange(s, i, i + n), pattern) {
            assert(rest.take(n as int) == s@.subrange(i as int, i + n));
            assert(rest.skip(n as int) == s@.skip(i + n));
            let mut k: usize = 0;
            let ghost before = out@;
            while k < with.len()
                invariant
                    k <= with.len(),
                    out@ == before + with@.take(k as int),
                decreases with.len() - k,
            {
                out.push(with[k]);
                assert(with@.take(k + 1) == with@.take(k as int).push(with@[k as int]));
                k = k + 1;
            }
            assert(with@.take(k as int) == with@);
            assert(before + with@ + replaced(rest.skip(n as int), pattern@, with@) == before + (
            with@ + replaced(rest.skip(n as int), pattern@, with@)));
            i = i + n;
        } else {
            proof {
                if n > 0 && n <= s.len() - i {
                    assert(rest.take(n as int) == s@.subrange(i as int, i + n));
                    assert(rest.skip(1) == s@.skip(i + 1));
                    assert(out@.push(s@[i as int]) + replaced(rest.skip(1), pattern@, with@)
                        == out@ + (seq![rest[0]] + replaced(rest.skip(1), pattern@, with@)));
                } else {
                    lemma_replaced_short(rest, pattern@, with@);
                    assert(rest.skip(1) == s@.skip(i + 1));
                    assert(out@.push(s@[i as int]) + rest.skip(1) == out@ + rest);
                }
            }
            out.push(s[i]);
            i = i + 1;
        }
    }
    assert(s@.skip(i as int) == Seq::<char>::empty());
    assert(out@ + Seq::<char>::empty() == out@);
    out
}

/// Where no match can start any more, nothing is replaced.
proof fn lemma_replaced_short(s: Seq<char>, pattern: Seq<char>, with: Seq<char>)
    requires
        pattern.len() == 0 || s.len() < pattern.len(),
    ensures
        replaced(s, pattern, with) == s,
        s.len() > 0 ==> replaced(s.skip(1), pattern, with) == s.skip(1),
{
}

/// Replacing by something no longer than the pattern does not lengthen.
pub proof fn lemma_replaced_no_longer(s: Seq<char>, pattern: Seq<char>, with: Seq<char>)
    requires
        with.len() <= pattern.len(),
    ensures
        replaced(s, pattern, with).len() <= s.len(),
    decreases s.len(),
{
    if pattern.len() == 0 || s.len() < pattern.len() {
    } else if s.take(pattern.len() as int) == pattern {
        lemma_replaced_no_longer(s.skip(pattern.len() as int), pattern, with);
    } else {
        lemma_replaced_no_longer(s.skip(1), pattern, with);
    }
}

/// Replacing one character by three makes a text at most three times as long.
pub proof fn lemma_replaced_threefold(s: Seq<char>, pattern: Seq<char>, with: Seq<char>)
    requires
        pattern.len() == 1,
        with.len() == 3,
    ensures
        replaced(s, pattern, with).len() <= 3 * s.len(),
    decreases s.len(),
{
    if s.len() >= 1 {
        lemma_replaced_threefold(s.skip(1), pattern, with);
    }
}

/// A character that stands neither in the text nor in the replacement does
/// not stand in the result.
pub proof fn lemma_replaced_keeps_out(
    s: Seq<char>,
    pattern: Seq<char>,
    with: Seq<char>,
    c: char,
)
    requires
        !s.contains(c),
        !with.contains(c),
    ensures
        !replaced(s, pattern, with).contains(c),
    decreases s.len(),
{
    let r = replaced(s, pattern, with);
    if pattern.len() == 0 || s.len() < pattern.len() {
    } else if s.take(pattern.len() as int) == pattern {
        let rest = s.skip(pattern.len() as int);
        assert forall|i: int| 0 <= i < rest.len() implies rest[i] != c by {
            assert(s.contains(s[i + pattern.len()]));
        }
        lemma_replaced_keeps_out(rest, pattern, with, c);
        let tail = replaced(rest, pattern, with);
        assert forall|i: int| 0 <= i < r.len() implies r[i] != c by {
            if i < with.len() {
                assert(with.contains(with[i]));
            } else {
                assert(tail.contains(tail[i - with.len()]));
            }
        }
    } else {
        let rest = s.skip(1);
        assert forall|i: int| 0 <= i < rest.len() implies rest[i] != c by {
            assert(s.contains(s[i + 1]));
        }
        lemma_replaced_keeps_out(rest, pattern, with, c);
        let tail = replaced(rest, pattern, with);
        assert forall|i: int| 0 <= i < r.len() implies r[i] != c by {
            if i == 0 {
                assert(s.contains(s[0]));
            } else {
                assert(tail.contains(tail[i - 1]));
            }
        }
    }
}

/// Replacing every `c` by a text without `c` leaves no `c`.
pub proof fn lemma_replaced_removes(s: Seq<char>, c: char, with: Seq<char>)
    requires
        !with.contains(c),
    ensures
        !replaced(s, seq![c], with).contains(c),
    decreases s.len(),
{
    let pattern = seq![c];
    let r = replaced(s, pattern, with);
    if s.len() >= 1 {
        let rest = s.skip(1);
        lemma_replaced_removes(rest, c, with);
        let tail = replaced(rest, pattern, with);
        if s.take(1) == pattern {
            assert forall|i: int| 0 <= i < r.len() implies r[i] != c by {
                if i < with.len() {
                    assert(with.contains(with[i]));
                } else {
                    assert(tail.contains(tail[i - with.len()]));
                }
            }
        } else {
            assert(s[0] != c) by {
                if s[0] == c {
                    assert(s.take(1) =~= pattern);
                }
            }
            assert forall|i: int| 0 <= i < r.len() implies r[i] != c by {
                if i > 0 {
                    assert(tail.contains(tail[i - 1]));
                }
            }
        }
    }
}

/// Replacing a character works piece by piece: what it makes of two texts
/// put together is what it makes of each, put together.
pub proof fn lemma_replaced_char_splits(a: Seq<char>, b: Seq<char>, c: char, with: Seq<char>)
    ensures
        replaced(a + b, seq![c], with) == replaced(a, seq![c], with) + replaced(
            b,
            seq![c],
            with,
        ),
    decreases a.len(),
{
    let pattern = seq![c];
    if a.len() == 0 {
        assert(a + b == b);
        assert(replaced(a, pattern, with) + replaced(b, pattern, with) == replaced(
            b,
            pattern,
            with,
        ));
    } else {
        let rest = a.skip(1);
        lemma_replaced_char_splits(rest, b, c, with);
        assert((a + b).skip(1) == rest + b);
        assert((a + b).take(1) == a.take(1));
        assert((a + b)[0] == a[0]);
        let tail = replaced(rest, pattern, with);
        let end = replaced(b, pattern, with);
        if a.take(1) == pattern {
            assert(with + (tail + end) == (with + tail) + end);
        } else {
            assert(seq![a[0]] + (tail + end) == (seq![a[0]] + tail) + end);
        }
    }
}

/// Replacing a character changes nothing in a text that does not hold it.
pub proof fn lemma_replaced_char_absent(s: Seq<char>, c: char, with: Seq<char>)
    requires
        !s.contains(c),
    ensures
        replaced(s, seq![c], with) == s,
    decreases s.len(),
{
    if s.len() > 0 {
        let rest = s.skip(1);
        assert forall|i: int| 0 <= i < rest.len() implies rest[i] != c by {
            assert(s.contains(s[i + 1]));
        }
        lemma_replaced_char_absent(rest, c, with);
        assert(s[0] != c) by {
            assert(s.contains(s[0]));
        }
        assert(s.take(1) != seq![c]) by {
            assert(s.take(1)[0] == s[0]);
        }
        assert(seq![s[0]] + rest == s);
    }
}

} // verus!
