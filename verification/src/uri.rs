//! The URI codec: native paths to canonical `file://` URIs and back.
//!
//! A path is escaped by this crate (percent signs, colons, doubled
//! backslashes) and then set as the path of an empty `file://` URL by the
//! `url` crate, which percent-encodes what is left. The way back parses the
//! URI with the same crate and asks it for the file path.

use vstd::pervasive::unreached;
use vstd::prelude::*;
use vstd::utf8::{decode_utf8, valid_utf8};

use crate::text::{
    chars_of, lemma_replaced_char_absent, lemma_replaced_char_splits, lemma_replaced_keeps_out,
    lemma_replaced_no_longer, lemma_replaced_removes, lemma_replaced_threefold, replace_all,
    replaced, same_chars, string_of, utf8_text,
};

verus! {

/// The most characters that are handed to the `url` crate for one URL: its
/// serialisation of a URL is indexed by `u32`, and a character takes up to
/// twelve bytes there.
pub const URL_PATH_LIMIT: usize = 350_000_000;

/// The longest native path, in characters, that is turned into a URI.
/// Escaping makes a path at most three times as long.
pub const NATIVE_PATH_LIMIT: usize = 100_000_000;

/// Why a URI could not be turned into a path, or a path into a location.
#[derive(Clone, Copy, Debug, PartialEq, Eq, Structural)]
pub enum ConversionError {
    /// The URI does not address a local file: it does not parse, its scheme
    /// is not `file`, or it has no path that this platform can hold. Where
    /// text is asked for, also: its path is no Unicode text.
    NotALocalPath,
    /// The URI of the path leads back to another path.
    RoundTripMismatch,
}

/// What this crate reads of a URI that parses.
#[derive(Clone, Debug, PartialEq, Eq)]
pub struct ParsedUri {
    /// The scheme, in lower case and without the colon.
    pub scheme: String,
    /// The file path that the URI addresses on this platform, if it
    /// addresses one, as the bytes in which the platform holds it. They are
    /// UTF-8 where the path is Unicode text.
    pub file_path: Option<Vec<u8>>,
}

/// `path` with its percent signs written as `%25`, so that none of them is
/// read as the start of an escape.
pub open spec fn percents_escaped(path: Seq<char>) -> Seq<char> {
    replaced(path, "%"@, "%25"@)
}

/// `path` with its colons written as `%3A`.
pub open spec fn colons_escaped(path: Seq<char>) -> Seq<char> {
    replaced(path, ":"@, "%3A"@)
}

/// `path` with each run of four backslashes made one, and then each pair of
/// backslashes that is left made one.
pub open spec fn backslashes_collapsed(path: Seq<char>) -> Seq<char> {
    replaced(replaced(path, "\\\\\\\\"@, "\\"@), "\\\\"@, "\\"@)
}

/// A native path as it is handed to the URL: percent signs escaped, then
/// colons escaped, then doubled backslashes collapsed.
pub open spec fn escaped_path(path: Seq<char>) -> Seq<char> {
    backslashes_collapsed(colons_escaped(percents_escaped(path)))
}

/// The text of the URL that `base` parses to, after its host was set to
/// `host` and its path to `path`, as the `url` crate serialises it; `None`
/// where `base` does not parse.
pub uninterp spec fn url_text_with(base: Seq<char>, host: Seq<char>, path: Seq<char>) -> Option<
    Seq<char>,
>;

/// The scheme of `uri` as the `url` crate parses it; `None` where it does not
/// parse as an absolute URL.
pub uninterp spec fn uri_scheme_text(uri: Seq<char>) -> Option<Seq<char>>;

/// The file path that the `url` crate reads from `uri` on the platform that
/// this crate is built for, as the bytes in which the platform holds it;
/// `None` where `uri` does not parse, and where the `url` crate finds no
/// file path in it.
pub uninterp spec fn uri_file_path_bytes(uri: Seq<char>) -> Option<Seq<u8>>;

/// The URL that every URI of this crate is made from: the scheme `file` and
/// an authority that is empty.
pub open spec fn file_base() -> Seq<char> {
    "file://"@
}

/// Whether `uri` has the form of the URIs of this crate: it starts with
/// `file:///`, the empty host, and has no query and no fragment.
pub open spec fn is_file_uri(uri: Seq<char>) -> bool {
    "file:///"@.is_prefix_of(uri) && !uri.contains('?') && !uri.contains('#')
}

/// The canonical URI of a native path: the URL `file://` with the empty host
/// and the escaped path.
pub open spec fn uri_of_path(path: Seq<char>) -> Seq<char> {
    url_text_with(file_base(), Seq::empty(), escaped_path(path))->0
}

/// The native path that a URI addresses, in bytes: the file path of a URI
/// whose scheme is `file`.
pub open spec fn path_bytes_of_uri(uri: Seq<char>) -> Option<Seq<u8>> {
    if uri_scheme_text(uri) == Some("file"@) {
        uri_file_path_bytes(uri)
    } else {
        None
    }
}

/// The native path that a URI addresses, as text: the path in bytes,
/// decoded, where it is UTF-8.
pub open spec fn path_of_uri(uri: Seq<char>) -> Option<Seq<char>> {
    match path_bytes_of_uri(uri) {
        Some(bytes) => if valid_utf8(bytes) {
            Some(decode_utf8(bytes))
        } else {
            None
        },
        None => None,
    }
}

/// Escaping percent signs and then colons makes of each character at most
/// three.
pub proof fn lemma_escapes_threefold(path: Seq<char>)
    ensures
        colons_escaped(percents_escaped(path)).len() <= 3 * path.len(),
    decreases path.len(),
{
    reveal_strlit("%");
    reveal_strlit("%25");
    reveal_strlit(":");
    reveal_strlit("%3A");
    assert("%"@ =~= seq!['%']);
    assert(":"@ =~= seq![':']);
    if path.len() > 0 {
        let rest = path.skip(1);
        lemma_escapes_threefold(rest);
        let first = if path[0] == '%' {
            "%25"@
        } else {
            seq![path[0]]
        };
        assert(percents_escaped(path) == first + percents_escaped(rest)) by {
            assert(path.take(1) =~= seq![path[0]]);
            assert(path.take(1)[0] == path[0]);
        }
        lemma_replaced_char_splits(first, percents_escaped(rest), ':', "%3A"@);
        if path[0] == ':' {
            lemma_replaced_threefold(first, ":"@, "%3A"@);
        } else {
            assert(!first.contains(':'));
            lemma_replaced_char_absent(first, ':', "%3A"@);
        }
    } else {
        assert(percents_escaped(path).len() == 0);
    }
}

/// An escaped path holds no colon, and is at most three times as long as the
/// path it was made from.
pub proof fn lemma_escaped_path(path: Seq<char>)
    ensures
        !escaped_path(path).contains(':'),
        escaped_path(path).len() <= 3 * path.len(),
{
    reveal_strlit(":");
    reveal_strlit("%3A");
    reveal_strlit("\\\\\\\\");
    reveal_strlit("\\\\");
    reveal_strlit("\\");
    let escape = "%3A"@;
    let one = "\\"@;
    assert(":"@ =~= seq![':']);
    assert(!escape.contains(':'));
    assert(!one.contains(':'));
    let p = percents_escaped(path);
    let a = colons_escaped(p);
    lemma_escapes_threefold(path);
    lemma_replaced_removes(p, ':', escape);
    let b = replaced(a, "\\\\\\\\"@, one);
    lemma_replaced_keeps_out(a, "\\\\\\\\"@, one, ':');
    lemma_replaced_no_longer(a, "\\\\\\\\"@, one);
    lemma_replaced_keeps_out(b, "\\\\"@, one, ':');
    lemma_replaced_no_longer(b, "\\\\"@, one);
}

/// A native path as it is handed to the URL: each percent sign written as
/// `%25`, then each colon written as `%3A`, then each run of four
/// backslashes made one, then each pair made one.
pub fn escape_path(path: &str) -> (escaped: String)
    ensures
        escaped@ == escaped_path(path@),
        !escaped@.contains(':'),
        escaped@.len() <= 3 * path@.len(),
{
    let chars = chars_of(path);
    let percent = chars_of("%");
    let percent_escape = chars_of("%25");
    let colon = chars_of(":");
    let colon_escape = chars_of("%3A");
    let four = chars_of("\\\\\\\\");
    let two = chars_of("\\\\");
    let one = chars_of("\\");
    let p = replace_all(chars.as_slice(), percent.as_slice(), percent_escape.as_slice());
    let a = replace_all(p.as_slice(), colon.as_slice(), colon_escape.as_slice());
    let b = replace_all(a.as_slice(), four.as_slice(), one.as_slice());
    let c = replace_all(b.as_slice(), two.as_slice(), one.as_slice());
    proof {
        lemma_escaped_path(path@);
    }
    string_of(c.as_slice())
}

/// `Url::parse`, `Url::set_host` and `Url::set_path` of the `url` crate, and
/// the text of the URL after them; `None` where `base` does not parse. A
/// host that the URL refuses is passed over, as `set_host` leaves the URL
/// unchanged then. The base `file://` parses. With it and the empty host
/// the text starts with `file:///`, since `set_path` keeps what stands
/// before the path and the path of a `file` URL starts with a slash; and it
/// holds neither `?` nor `#`, since `set_path` percent-encodes both and sets
/// no query and no fragment. The lengths are bounded because the `url` crate
/// panics where a URL grows beyond `u32::MAX` bytes.
#[verifier::external_body]
fn url_with_path(base: &str, host: &str, path: &str) -> (uri: Option<String>)
    requires
        base@.len() + host@.len() + path@.len() <= URL_PATH_LIMIT,
    ensures
        match uri {
            Some(u) => url_text_with(base@, host@, path@) == Some(u@),
            None => url_text_with(base@, host@, path@) is None,
        },
        base@ == file_base() ==> uri is Some,
        base@ == file_base() && host@.len() == 0 ==> uri is Some && is_file_uri((uri->0)@),
{
    match url::Url::parse(base) {
        Ok(mut url) => {
            let _ = url.set_host(Some(host));
            url.set_path(path);
            Some(url.to_string())
        },
        Err(_) => None,
    }
}

/// `Url::parse`, `Url::scheme` and `Url::to_file_path` of the `url` crate:
/// what a URI reads as. There is `None` where `uri` does not parse; else the
/// scheme, and the file path where `to_file_path` gives one, in the bytes of
/// its `OsString`.
#[verifier::external_body]
fn read_uri(uri: &str) -> (read: Option<ParsedUri>)
    ensures
        match read {
            Some(parsed) => {
                &&& uri_scheme_text(uri@) == Some(parsed.scheme@)
                &&& match parsed.file_path {
                    Some(p) => uri_file_path_bytes(uri@) == Some(p@),
                    None => uri_file_path_bytes(uri@) is None,
                }
            },
            None => uri_scheme_text(uri@) is None && uri_file_path_bytes(uri@) is None,
        },
{
    match url::Url::parse(uri) {
        Ok(url) => Some(ParsedUri {
            scheme: url.scheme().to_string(),
            file_path: match url.to_file_path() {
                Ok(path) => Some(path.into_os_string().into_encoded_bytes()),
                Err(_) => None,
            },
        }),
        Err(_) => None,
    }
}

/// The canonical `file://` URI of a native path given as a string: the host
/// is empty, percent signs are written as `%25` and colons as `%3A`, doubled
/// backslashes are collapsed, and the `url` crate percent-encodes the rest.
/// No query and no fragment is set.
pub fn path_string_to_uri(path_str: String) -> (uri: String)
    requires
        path_str@.len() <= NATIVE_PATH_LIMIT,
    ensures
        uri@ == uri_of_path(path_str@),
        is_file_uri(uri@),
{
    let escaped = escape_path(path_str.as_str());
    proof {
        reveal_strlit("");
        reveal_strlit("file://");
        assert(""@ =~= Seq::<char>::empty());
    }
    match url_with_path("file://", "", escaped.as_str()) {
        Some(uri) => uri,
        None => unreached(),
    }
}

/// The canonical `file://` URI of a native path.
pub fn path_to_uri(path: &str) -> (uri: String)
    requires
        path@.len() <= NATIVE_PATH_LIMIT,
    ensures
        uri@ == uri_of_path(path@),
        is_file_uri(uri@),
{
    path_string_to_uri(path.to_string())
}

/// The path that a URI addresses, given what the URI reads as: its file
/// path where it parses, its scheme is `file`, and it has a file path.
pub fn local_path_of(read: Option<ParsedUri>) -> (path: Result<Vec<u8>, ConversionError>)
    ensures
        match path {
            Ok(p) => read matches Some(parsed) && parsed.scheme@ == "file"@ && parsed.file_path
                == Some(p),
            Err(e) => e == ConversionError::NotALocalPath && !(read matches Some(parsed)
                && parsed.scheme@ == "file"@ && parsed.file_path is Some),
        },
{
    let file = chars_of("file");
    match read {
        Some(parsed) => {
            let letters = chars_of(parsed.scheme.as_str());
            if same_chars(letters.as_slice(), file.as_slice()) {
                match parsed.file_path {
                    Some(p) => Ok(p),
                    None => Err(ConversionError::NotALocalPath),
                }
            } else {
                Err(ConversionError::NotALocalPath)
            }
        },
        None => Err(ConversionError::NotALocalPath),
    }
}

/// The native path that `uri` addresses, in the bytes in which the platform
/// holds it, whole or not at all. This gives every path, also one that is
/// no Unicode text.
pub fn uri_to_path_bytes(uri: &str) -> (path: Result<Vec<u8>, ConversionError>)
    ensures
        match path {
            Ok(p) => path_bytes_of_uri(uri@) == Some(p@),
            Err(e) => e == ConversionError::NotALocalPath && path_bytes_of_uri(uri@) is None,
        },
{
    local_path_of(read_uri(uri))
}

/// The native path that `uri` addresses, as text, whole or not at all. A
/// path that is no Unicode text cannot be given as text.
pub fn uri_to_path(uri: &str) -> (path: Result<String, ConversionError>)
    ensures
        match path {
            Ok(p) => path_of_uri(uri@) == Some(p@),
            Err(e) => e == ConversionError::NotALocalPath && path_of_uri(uri@) is None,
        },
{
    match uri_to_path_bytes(uri) {
        Ok(bytes) => match utf8_text(bytes.as_slice()) {
            Some(text) => Ok(text.to_string()),
            None => Err(ConversionError::NotALocalPath),
        },
        Err(e) => Err(e),
    }
}

/// The path that `uri` addresses where it addresses a local file, and `uri`
/// itself where it does not.
pub fn to_path_string(uri: &str) -> (shown: String)
    ensures
        shown@ == match path_of_uri(uri@) {
            Some(p) => p,
            None => uri@,
        },
{
    match uri_to_path(uri) {
        Ok(p) => p,
        Err(_) => uri.to_string(),
    }
}

/// One filesystem entry under both of its names: the native path, and the
/// canonical URI that stands for it. The URI is that of the path, and leads
/// back to the path; a location is made once and not changed.
pub struct FileLocation {
    native_path: String,
    uri: String,
}

impl FileLocation {
    #[verifier::type_invariant]
    spec fn round_trips(self) -> bool {
        &&& self.uri@ == uri_of_path(self.native_path@)
        &&& path_of_uri(self.uri@) == Some(self.native_path@)
    }

    /// The native path.
    pub closed spec fn path_text(self) -> Seq<char> {
        self.native_path@
    }

    /// The URI.
    pub closed spec fn uri_text(self) -> Seq<char> {
        self.uri@
    }

    /// The location of `native_path`, where its URI leads back to it.
    /// Where the URI addresses no local file there is `NotALocalPath`, and
    /// where it addresses another path there is `RoundTripMismatch`.
    pub fn new(native_path: &str) -> (made: Result<FileLocation, ConversionError>)
        requires
            native_path@.len() <= NATIVE_PATH_LIMIT,
        ensures
            match made {
                Ok(location) => {
                    &&& location.path_text() == native_path@
                    &&& location.uri_text() == uri_of_path(native_path@)
                    &&& path_of_uri(uri_of_path(native_path@)) == Some(native_path@)
                },
                Err(e) => match path_of_uri(uri_of_path(native_path@)) {
                    Some(back) => back != native_path@ && e == ConversionError::RoundTripMismatch,
                    None => e == ConversionError::NotALocalPath,
                },
            },
    {
        let uri = path_to_uri(native_path);
        match uri_to_path(uri.as_str()) {
            Ok(back) => {
                let there = chars_of(native_path);
                let here = chars_of(back.as_str());
                if same_chars(there.as_slice(), here.as_slice()) {
                    Ok(FileLocation { native_path: back, uri })
                } else {
                    Err(ConversionError::RoundTripMismatch)
                }
            },
            Err(e) => Err(e),
        }
    }

    /// The native path of the entry.
    pub fn native_path(&self) -> (path: &str)
        ensures
            path@ == self.path_text(),
    {
        self.native_path.as_str()
    }

    /// The canonical URI of the entry.
    pub fn uri(&self) -> (uri: &str)
        ensures
            uri@ == self.uri_text(),
            uri@ == uri_of_path(self.path_text()),
    {
        proof {
            use_type_invariant(self);
        }
        self.uri.as_str()
    }

    /// The path that the URI of the entry leads back to: always the native
    /// path of the entry.
    pub fn resolve(&self) -> (path: Result<String, ConversionError>)
        ensures
            path matches Ok(p) && p@ == self.path_text(),
    {
        proof {
            use_type_invariant(self);
        }
        uri_to_path(self.uri.as_str())
    }
}

} // verus!
