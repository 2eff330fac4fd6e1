use spyglass::{
    escape_path, local_path_of, path_string_to_uri, path_to_uri, replace_all, to_path_string,
    uri_to_path, uri_to_path_bytes, ConversionError, FileLocation, ParsedUri,
};

fn chars(s: &str) -> Vec<char> {
    s.chars().collect()
}

#[test]
fn test_path_to_uri() {
    let test_folder = "/tmp/path_to_uri";
    let test_path = format!("{}/{}", test_folder, "test.txt");
    let uri = path_to_uri(&test_path);

    assert_eq!(uri, "file:///tmp/path_to_uri/test.txt");

    let file_path = uri_to_path(&uri).unwrap();
    assert_eq!(file_path, test_path);
}

#[test]
fn windows_drive_letter_is_escaped() {
    let uri = path_to_uri("C:\\tmp\\path_to_uri\\test.txt");
    assert_eq!(uri, "file:///C%3A/tmp/path_to_uri/test.txt");
}

#[test]
fn posix_path_becomes_file_uri() {
    assert_eq!(path_to_uri("/tmp/path_to_uri/test.txt"), "file:///tmp/path_to_uri/test.txt");
    assert_eq!(
        path_string_to_uri(String::from("/tmp/path_to_uri/test.txt")),
        "file:///tmp/path_to_uri/test.txt"
    );
}

#[test]
fn colon_is_always_escaped() {
    assert_eq!(path_to_uri("/tmp/a:b"), "file:///tmp/a%3Ab");
    assert_eq!(path_to_uri("/a:/b::c"), "file:///a%3A/b%3A%3Ac");
    assert!(!escape_path("C:\\a:b:").contains(':'));
}

#[test]
fn reserved_characters_are_percent_encoded() {
    assert_eq!(path_to_uri("/a b/c#d?e"), "file:///a%20b/c%23d%3Fe");
}

#[test]
fn host_is_empty_and_no_query_or_fragment_is_set() {
    let uri = path_to_uri("/srv/data");
    assert!(uri.starts_with("file:///"));
    assert!(!uri.contains('?'));
    assert!(!uri.contains('#'));
}

#[test]
fn escape_path_exact_values() {
    assert_eq!(escape_path("C:\\tmp"), "C%3A\\tmp");
    assert_eq!(escape_path("100%"), "100%25");
    assert_eq!(escape_path("%3A:%"), "%253A%3A%25");
    assert_eq!(escape_path("/plain/path"), "/plain/path");
    assert_eq!(escape_path(""), "");
    // a pair becomes one
    assert_eq!(escape_path("a\\\\b"), "a\\b");
    // a run of four becomes one
    assert_eq!(escape_path("a\\\\\\\\b"), "a\\b");
    // three: the first pair becomes one, the third stays
    assert_eq!(escape_path("a\\\\\\b"), "a\\\\b");
    // six: four become one, which makes three; then a pair becomes one
    assert_eq!(escape_path("a\\\\\\\\\\\\b"), "a\\\\b");
    // eight: two runs of four make two, which make one
    assert_eq!(escape_path("a\\\\\\\\\\\\\\\\b"), "a\\b");
}

#[test]
fn doubled_backslashes_are_collapsed_in_the_uri() {
    assert_eq!(path_to_uri("C:\\\\tmp\\\\\\\\x"), "file:///C%3A/tmp/x");
}

#[test]
fn replace_all_is_left_to_right_without_overlap() {
    assert_eq!(replace_all(&chars("aaa"), &chars("aa"), &chars("b")), chars("ba"));
    assert_eq!(replace_all(&chars("a:b:c"), &chars(":"), &chars("%3A")), chars("a%3Ab%3Ac"));
    assert_eq!(replace_all(&chars("abc"), &chars(""), &chars("x")), chars("abc"));
    assert_eq!(replace_all(&chars("ab"), &chars("abc"), &chars("x")), chars("ab"));
    assert_eq!(replace_all(&chars(""), &chars("a"), &chars("x")), chars(""));
    assert_eq!(replace_all(&chars("abab"), &chars("ab"), &chars("")), chars(""));
}

#[test]
fn trailing_slash_is_kept() {
    assert_eq!(path_to_uri("/a/b/"), "file:///a/b/");
    assert_eq!(uri_to_path("file:///a/b/"), Ok(String::from("/a/b/")));
}

#[test]
fn empty_path_is_the_root_uri() {
    assert_eq!(path_to_uri(""), "file:///");
    assert_eq!(uri_to_path("file:///"), Ok(String::from("/")));
}

#[test]
fn literal_percent_is_escaped() {
    assert_eq!(path_to_uri("/rate/100%"), "file:///rate/100%25");
    assert_eq!(path_to_uri("/a%41"), "file:///a%2541");
    assert_eq!(path_to_uri("/tmp/100%41.txt"), "file:///tmp/100%2541.txt");
    assert_eq!(path_to_uri("/%%"), "file:///%25%25");
    // the escape of a colon is written after that of the percent sign
    assert_eq!(path_to_uri("/a%:b"), "file:///a%25%3Ab");
}

#[test]
fn path_with_a_percent_sign_comes_back() {
    for p in ["/tmp/100%41.txt", "/rate/100%", "/a%41", "/%25", "/%3A", "/a%2Fb", "/%%%"] {
        assert_eq!(uri_to_path(&path_to_uri(p)), Ok(String::from(p)));
        assert_eq!(FileLocation::new(p).unwrap().native_path(), p);
    }
}

#[test]
fn uri_has_the_file_scheme_and_neither_query_nor_fragment() {
    for p in ["/a?b", "/a#b", "/?", "/#", "/a?b=c#d", "?", "#x", "/plain", ""] {
        let uri = path_to_uri(p);
        assert!(uri.starts_with("file:///"));
        assert!(!uri.contains('?'));
        assert!(!uri.contains('#'));
        let url = url::Url::parse(&uri).unwrap();
        assert_eq!(url.scheme(), "file");
        assert_eq!(url.host_str(), None);
        assert_eq!(url.query(), None);
        assert_eq!(url.fragment(), None);
    }
}

#[test]
fn uri_to_path_decodes() {
    assert_eq!(uri_to_path("file:///tmp/a%20b.txt"), Ok(String::from("/tmp/a b.txt")));
    assert_eq!(uri_to_path("file:///tmp/a%3Ab"), Ok(String::from("/tmp/a:b")));
    assert_eq!(uri_to_path("file://localhost/tmp/x"), Ok(String::from("/tmp/x")));
    assert_eq!(uri_to_path("FILE:///tmp/x"), Ok(String::from("/tmp/x")));
}

#[test]
fn uri_to_path_refuses_what_is_no_local_file() {
    assert_eq!(uri_to_path("https://example.com/x"), Err(ConversionError::NotALocalPath));
    assert_eq!(uri_to_path("http://localhost/x"), Err(ConversionError::NotALocalPath));
    assert_eq!(uri_to_path("mailto:someone@example.com"), Err(ConversionError::NotALocalPath));
    assert_eq!(uri_to_path("not a uri"), Err(ConversionError::NotALocalPath));
    assert_eq!(uri_to_path(""), Err(ConversionError::NotALocalPath));
    assert_eq!(uri_to_path("/tmp/x"), Err(ConversionError::NotALocalPath));
    assert_eq!(uri_to_path("file://example.com/tmp/x"), Err(ConversionError::NotALocalPath));
}

#[test]
fn path_that_is_no_text_is_given_in_bytes() {
    assert_eq!(uri_to_path_bytes("file:///tmp/%FF"), Ok(b"/tmp/\xff".to_vec()));
    assert_eq!(uri_to_path("file:///tmp/%FF"), Err(ConversionError::NotALocalPath));
    assert_eq!(to_path_string("file:///tmp/%FF"), "file:///tmp/%FF");
    assert_eq!(uri_to_path_bytes("file:///tmp/a%20b"), Ok(b"/tmp/a b".to_vec()));
    assert_eq!(uri_to_path_bytes("file:///tmp/%C3%A9"), Ok("/tmp/\u{e9}".as_bytes().to_vec()));
    assert_eq!(uri_to_path("file:///tmp/%C3%A9"), Ok(String::from("/tmp/\u{e9}")));
    assert_eq!(uri_to_path_bytes("http://localhost/x"), Err(ConversionError::NotALocalPath));
    assert_eq!(uri_to_path_bytes("nope"), Err(ConversionError::NotALocalPath));
}

#[test]
fn to_path_string_shows_the_path_or_the_uri() {
    assert_eq!(to_path_string("file:///tmp/a%20b.txt"), "/tmp/a b.txt");
    assert_eq!(to_path_string("https://example.com/x?y=1"), "https://example.com/x?y=1");
    assert_eq!(to_path_string("no uri at all"), "no uri at all");
}

#[test]
fn round_trip_on_posix_paths() {
    for p in [
        "/",
        "/tmp",
        "/tmp/path_to_uri/test.txt",
        "/a b/c d.txt",
        "/with:colon/x",
        "/uni/\u{e9}t\u{e9}/\u{65e5}\u{672c}",
        "/a/.git/b/c.txt",
        "/q?x#y",
    ] {
        assert_eq!(uri_to_path(&path_to_uri(p)), Ok(String::from(p)));
        let location = FileLocation::new(p).unwrap();
        assert_eq!(location.native_path(), p);
        assert_eq!(location.uri(), path_to_uri(p));
        assert_eq!(location.resolve(), Ok(String::from(p)));
    }
}

#[test]
fn location_refuses_a_path_that_does_not_come_back() {
    // relative: comes back absolute
    assert_eq!(FileLocation::new("a/b").err(), Some(ConversionError::RoundTripMismatch));
    // empty: comes back as the root
    assert_eq!(FileLocation::new("").err(), Some(ConversionError::RoundTripMismatch));
    // dot segments are resolved by the URL
    assert_eq!(FileLocation::new("/a/../b").err(), Some(ConversionError::RoundTripMismatch));
    // a doubled backslash is collapsed on the way out
    assert_eq!(FileLocation::new("/a\\\\b").err(), Some(ConversionError::RoundTripMismatch));
}

#[test]
fn location_of_a_plain_percent_sign() {
    let location = FileLocation::new("/rate/100%").unwrap();
    assert_eq!(location.uri(), "file:///rate/100%25");
}

fn parsed(scheme: &str, file_path: Option<&str>) -> Option<ParsedUri> {
    let file_path = file_path.map(|p| p.as_bytes().to_vec());
    Some(ParsedUri { scheme: String::from(scheme), file_path })
}

fn bytes(path: &str) -> Result<Vec<u8>, ConversionError> {
    Ok(path.as_bytes().to_vec())
}

#[test]
fn local_path_needs_the_file_scheme_and_a_path() {
    assert_eq!(local_path_of(parsed("file", Some("/tmp/x"))), bytes("/tmp/x"));
    assert_eq!(local_path_of(parsed("file", Some(""))), bytes(""));
    let odd = Some(ParsedUri { scheme: String::from("file"), file_path: Some(vec![0x2f, 0xff]) });
    assert_eq!(local_path_of(odd), Ok(vec![0x2f, 0xff]));
    assert_eq!(local_path_of(parsed("file", None)), Err(ConversionError::NotALocalPath));
    assert_eq!(local_path_of(parsed("http", Some("/tmp/x"))), Err(ConversionError::NotALocalPath));
    assert_eq!(local_path_of(parsed("files", Some("/x"))), Err(ConversionError::NotALocalPath));
    assert_eq!(local_path_of(parsed("fil", Some("/x"))), Err(ConversionError::NotALocalPath));
    assert_eq!(local_path_of(parsed("FILE", Some("/x"))), Err(ConversionError::NotALocalPath));
    assert_eq!(local_path_of(parsed("", Some("/x"))), Err(ConversionError::NotALocalPath));
    assert_eq!(local_path_of(None), Err(ConversionError::NotALocalPath));
}

fn words(alphabet: &[char], longest: usize) -> Vec<String> {
    let mut all = vec![String::new()];
    let mut last = vec![String::new()];
    for _ in 0..longest {
        let mut next = Vec::new();
        for w in &last {
            for c in alphabet {
                let mut longer = w.clone();
                longer.push(*c);
                next.push(longer);
            }
        }
        all.extend(next.iter().cloned());
        last = next;
    }
    all
}

#[test]
fn replace_all_is_that_of_std() {
    let patterns = [":", "\\\\", "\\\\\\\\", "a:", "aa", "a\\a"];
    let replacements = ["", "\\", "%3A", "aa"];
    for text in words(&['a', ':', '\\'], 6) {
        for pattern in patterns {
            for with in replacements {
                let expected: Vec<char> = text.replace(pattern, with).chars().collect();
                assert_eq!(replace_all(&chars(&text), &chars(pattern), &chars(with)), expected);
            }
        }
    }
}

#[test]
fn escape_path_is_four_replacements() {
    for text in words(&['x', ':', '\\', '%'], 7) {
        let expected = text
            .replace('%', "%25")
            .replace(':', "%3A")
            .replace("\\\\\\\\", "\\")
            .replace("\\\\", "\\");
        assert_eq!(escape_path(&text), expected);
    }
}

fn uri_by_hand(path: &str) -> String {
    let mut url = url::Url::parse("file://").unwrap();
    let _ = url.set_host(Some(""));
    url.set_path(&escape_path(path));
    url.to_string()
}

#[test]
fn uri_is_the_escaped_path_set_on_the_empty_file_url() {
    for path in words(&['a', ':', '\\', '/', '.', '%', ' '], 5) {
        let uri = path_to_uri(&path);
        assert_eq!(uri, uri_by_hand(&path));
        assert!(uri.starts_with("file:///"));
    }
}

#[test]
fn uri_to_path_is_the_file_path_of_a_file_url() {
    for path in words(&['a', ':', '\\', '/', '.', '%', ' '], 5) {
        let uri = path_to_uri(&path);
        let expected = url::Url::parse(&uri).unwrap().to_file_path().unwrap();
        // a path that is no Unicode text is refused whole
        let expected = expected.to_str().map(String::from);
        assert_eq!(uri_to_path(&uri).ok(), expected);
    }
}

#[test]
fn location_is_made_exactly_where_the_path_comes_back() {
    let mut made = 0;
    let mut refused = 0;
    for path in words(&['a', ':', '\\', '/', '.', '%'], 5) {
        let back = uri_to_path(&path_to_uri(&path));
        match FileLocation::new(&path) {
            Ok(location) => {
                assert_eq!(back, Ok(path.clone()));
                assert_eq!(location.native_path(), path);
                assert_eq!(location.resolve(), Ok(path.clone()));
                made += 1;
            }
            Err(ConversionError::RoundTripMismatch) => {
                assert!(back.is_ok() && back != Ok(path.clone()));
                refused += 1;
            }
            Err(ConversionError::NotALocalPath) => {
                assert_eq!(back, Err(ConversionError::NotALocalPath));
                refused += 1;
            }
        }
    }
    assert!(made > 0 && refused > 0);
}
