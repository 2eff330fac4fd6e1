use spyglass::{ancestors, extension, file_name, parent_dir, Platform};
use std::path::{Component, Path};

fn some(s: &str) -> Option<String> {
    Some(String::from(s))
}

#[test]
fn file_name_is_the_final_segment() {
    assert_eq!(file_name("/a/b.txt", Platform::Posix), some("b.txt"));
    assert_eq!(file_name("b.txt", Platform::Posix), some("b.txt"));
    assert_eq!(file_name("/a/b/", Platform::Posix), some("b"));
    assert_eq!(file_name("/a/b//", Platform::Posix), some("b"));
    assert_eq!(file_name("/a/b/.", Platform::Posix), some("b"));
    assert_eq!(file_name("/a/b/./", Platform::Posix), some("b"));
    assert_eq!(file_name("/a/.git", Platform::Posix), some(".git"));
    assert_eq!(file_name("/a/...", Platform::Posix), some("..."));
}

#[test]
fn file_name_is_absent_without_a_segment() {
    assert_eq!(file_name("", Platform::Posix), None);
    assert_eq!(file_name("/", Platform::Posix), None);
    assert_eq!(file_name("//", Platform::Posix), None);
    assert_eq!(file_name(".", Platform::Posix), None);
    assert_eq!(file_name("./", Platform::Posix), None);
    assert_eq!(file_name("..", Platform::Posix), None);
    assert_eq!(file_name("a/..", Platform::Posix), None);
    assert_eq!(file_name("a/../", Platform::Posix), None);
    assert_eq!(file_name("C:", Platform::Windows), None);
    assert_eq!(file_name("C:\\", Platform::Windows), None);
}

#[test]
fn file_name_goes_by_the_platform() {
    assert_eq!(file_name("C:\\x\\y.lnk", Platform::Windows), some("y.lnk"));
    assert_eq!(file_name("C:\\x\\y.lnk", Platform::Posix), some("C:\\x\\y.lnk"));
    assert_eq!(file_name("C:/x/y.lnk", Platform::Windows), some("y.lnk"));
    assert_eq!(file_name("C:y.lnk", Platform::Windows), some("y.lnk"));
    assert_eq!(file_name("C:", Platform::Posix), some("C:"));
    assert_eq!(file_name("1:x", Platform::Windows), some("1:x"));
}

#[test]
fn extension_follows_the_last_dot() {
    assert_eq!(extension("/a/b.txt", Platform::Posix), some("txt"));
    assert_eq!(extension("a.tar.gz", Platform::Posix), some("gz"));
    assert_eq!(extension("a.", Platform::Posix), some(""));
    assert_eq!(extension("..lnk", Platform::Posix), some("lnk"));
    assert_eq!(extension(".a.lnk", Platform::Posix), some("lnk"));
    assert_eq!(extension("/x.d/file", Platform::Posix), None);
    assert_eq!(extension("noext", Platform::Posix), None);
    assert_eq!(extension(".lnk", Platform::Posix), None);
    assert_eq!(extension("", Platform::Posix), None);
    assert_eq!(extension("a.b/..", Platform::Posix), None);
    assert_eq!(extension("C:\\x.y\\z.LNK", Platform::Windows), some("LNK"));
}

#[test]
fn parent_dir_is_what_holds_the_entry() {
    assert_eq!(parent_dir("/a/b/c.txt", Platform::Posix), some("/a/b"));
    assert_eq!(parent_dir("/a/b/", Platform::Posix), some("/a"));
    assert_eq!(parent_dir("/a", Platform::Posix), some("/"));
    assert_eq!(parent_dir("//a", Platform::Posix), some("/"));
    assert_eq!(parent_dir("/./a", Platform::Posix), some("/"));
    assert_eq!(parent_dir("a/b", Platform::Posix), some("a"));
    assert_eq!(parent_dir("a//./b", Platform::Posix), some("a"));
    assert_eq!(parent_dir("a/..", Platform::Posix), some("a"));
    assert_eq!(parent_dir("../a", Platform::Posix), some(".."));
    assert_eq!(parent_dir("./a", Platform::Posix), some("."));
    assert_eq!(parent_dir(".//a/", Platform::Posix), some("."));
    assert_eq!(parent_dir("./a/b", Platform::Posix), some("./a"));
    assert_eq!(parent_dir("C:.\\a", Platform::Windows), some("C:."));
    assert_eq!(parent_dir("C:\\a\\b", Platform::Windows), some("C:\\a"));
    assert_eq!(parent_dir("C:\\a", Platform::Windows), some("C:\\"));
    assert_eq!(parent_dir("C:a", Platform::Windows), some("C:"));
    assert_eq!(parent_dir("\\a", Platform::Windows), some("\\"));
}

#[test]
fn parent_dir_is_absent_without_a_directory() {
    assert_eq!(parent_dir("", Platform::Posix), None);
    assert_eq!(parent_dir("/", Platform::Posix), None);
    assert_eq!(parent_dir("a", Platform::Posix), None);
    assert_eq!(parent_dir(".", Platform::Posix), None);
    assert_eq!(parent_dir("/.", Platform::Posix), None);
    assert_eq!(parent_dir(".gitignore", Platform::Posix), None);
    assert_eq!(parent_dir("C:", Platform::Windows), None);
    assert_eq!(parent_dir("C:\\", Platform::Windows), None);
    assert_eq!(parent_dir("\\a", Platform::Posix), None);
}

#[test]
fn ancestors_run_from_the_entry_to_the_top() {
    assert_eq!(
        ancestors("/a/.git/b/c.txt", Platform::Posix),
        vec!["/a/.git/b/c.txt", "/a/.git/b", "/a/.git", "/a"]
    );
    assert_eq!(ancestors("a//b/./c/", Platform::Posix), vec!["a//b/./c", "a//b", "a"]);
    assert_eq!(ancestors("/a/../b", Platform::Posix), vec!["/a/../b", "/a/..", "/a"]);
    assert_eq!(ancestors("C:\\x\\y", Platform::Windows), vec!["C:\\x\\y", "C:\\x"]);
    assert_eq!(ancestors("C:\\x\\y", Platform::Posix), vec!["C:\\x\\y"]);
    assert_eq!(ancestors("", Platform::Posix), Vec::<String>::new());
    assert_eq!(ancestors("/", Platform::Posix), Vec::<String>::new());
    assert_eq!(ancestors("/.", Platform::Posix), Vec::<String>::new());
    // a `.` that the path starts with stands for the current directory
    assert_eq!(ancestors("./.", Platform::Posix), vec!["."]);
    assert_eq!(ancestors("./a/b", Platform::Posix), vec!["./a/b", "./a", "."]);
}

#[test]
fn the_parent_is_the_second_ancestor() {
    for p in ["/a/b/c", "x/y", "/a/./b//c/", "/a/.git/b/c.txt"] {
        let up = ancestors(p, Platform::Posix);
        assert_eq!(parent_dir(p, Platform::Posix), Some(up[1].clone()));
    }
}

fn sample_paths() -> Vec<String> {
    let segments = ["", "a", ".", "..", ".git", "b.txt", "...", "a.", ".a.b", " "];
    let mut paths: Vec<String> = Vec::new();
    for lead in ["", "/", "//", "./", "../"] {
        for first in segments {
            for tail in ["", "/", "/.", "/./", "//"] {
                paths.push(format!("{}{}{}", lead, first, tail));
                for sep in ["/", "//"] {
                    for second in segments {
                        paths.push(format!("{}{}{}{}{}", lead, first, sep, second, tail));
                    }
                }
            }
        }
    }
    paths
}

fn text(part: Option<&Path>) -> Option<String> {
    part.and_then(|x| x.to_str()).map(String::from)
}

#[test]
fn posix_grammar_is_that_of_std() {
    if std::path::MAIN_SEPARATOR != '/' {
        return;
    }
    for p in sample_paths() {
        let std_path = Path::new(&p);
        let std_name = text(std_path.file_name().map(Path::new));
        let std_extension = text(std_path.extension().map(Path::new));
        assert_eq!(file_name(&p, Platform::Posix), std_name, "{:?}", p);
        assert_eq!(extension(&p, Platform::Posix), std_extension, "{:?}", p);

        // std gives the empty path as the parent of a path of one segment
        let std_parent = std_path.parent().filter(|parent| !parent.as_os_str().is_empty());
        let parent = parent_dir(&p, Platform::Posix);
        assert_eq!(parent.as_deref().map(Path::new), std_parent, "{:?}", p);

        // std goes on to the root and to the empty path, which have no segment
        let std_ancestors: Vec<&Path> = std_path
            .ancestors()
            .filter(|a| !matches!(a.components().next_back(), None | Some(Component::RootDir)))
            .collect();
        let found = ancestors(&p, Platform::Posix);
        let found: Vec<&Path> = found.iter().map(Path::new).collect();
        assert_eq!(found, std_ancestors, "{:?}", p);
    }
}
