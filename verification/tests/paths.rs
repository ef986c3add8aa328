use combiner::paths::{
    components_of, extension_of, file_name_of, is_absolute_path, resolve_output_path, same_path,
};
use std::path::{Path, PathBuf};

fn chars(s: &str) -> Vec<char> {
    s.chars().collect()
}

fn text(v: Vec<char>) -> String {
    v.into_iter().collect()
}

#[test]
fn file_name_is_what_follows_the_last_slash() {
    assert_eq!(text(file_name_of(&chars("a/b/c.txt"))), "c.txt");
    assert_eq!(text(file_name_of(&chars("c.txt"))), "c.txt");
    assert_eq!(text(file_name_of(&chars("a/b/"))), "");
    assert_eq!(text(file_name_of(&chars("/rooted"))), "rooted");
    assert_eq!(text(file_name_of(&chars(""))), "");
}

#[test]
fn extension_is_what_follows_the_last_dot_of_the_name() {
    assert_eq!(extension_of(&chars("a/b/c.txt")).map(text), Some("txt".to_string()));
    assert_eq!(extension_of(&chars("archive.tar.gz")).map(text), Some("gz".to_string()));
    assert_eq!(extension_of(&chars("dir.d/readme")).map(text), None);
    assert_eq!(extension_of(&chars(".gitignore")).map(text), None);
    assert_eq!(extension_of(&chars("dir/.hidden.toml")).map(text), Some("toml".to_string()));
    assert_eq!(extension_of(&chars("trailing.")).map(text), Some("".to_string()));
    assert_eq!(extension_of(&chars("")).map(text), None);
}

#[test]
fn absolute_paths_begin_at_the_root() {
    assert!(is_absolute_path("/"));
    assert!(is_absolute_path("/usr/lib"));
    assert!(!is_absolute_path("usr/lib"));
    assert!(!is_absolute_path("./x"));
    assert!(!is_absolute_path(""));
}

#[test]
fn output_is_resolved_against_the_current_directory_for_a_relative_scan() {
    assert_eq!(resolve_output_path(".", "combined_output.txt"), "./combined_output.txt");
    assert_eq!(resolve_output_path("src", "out/all.txt"), "./out/all.txt");
    assert_eq!(resolve_output_path("src", "/tmp/all.txt"), "/tmp/all.txt");
    assert_eq!(resolve_output_path("/work/src", "all.txt"), "all.txt");
    assert_eq!(resolve_output_path("/work/src", "/tmp/all.txt"), "/tmp/all.txt");
    assert_eq!(resolve_output_path("", "all.txt"), "./all.txt");
    assert_eq!(resolve_output_path(".", "./all.txt"), "././all.txt");
}

#[test]
fn resolved_output_agrees_with_joining_paths() {
    let cases = [
        (".", "combined_output.txt"),
        ("src", "out/all.txt"),
        ("src", "/tmp/all.txt"),
        ("/work/src", "all.txt"),
        ("/work/src", "/tmp/all.txt"),
        ("", "all.txt"),
        (".", "./all.txt"),
        (".", ""),
    ];
    for (directory, output) in cases {
        let expected = if Path::new(directory).is_relative() {
            PathBuf::from(".").join(output)
        } else {
            PathBuf::from(output)
        };
        assert_eq!(resolve_output_path(directory, output), expected.display().to_string());
    }
}

fn parts(path: &str) -> Vec<String> {
    components_of(&chars(path)).into_iter().map(text).collect()
}

#[test]
fn components_are_the_parts_that_are_neither_empty_nor_a_dot() {
    assert_eq!(parts("a/b/c.txt"), vec!["a", "b", "c.txt"]);
    assert_eq!(parts("a//b/./c.txt/"), vec!["a", "b", "c.txt"]);
    assert_eq!(parts("./a/b"), vec!["a", "b"]);
    assert_eq!(parts("././out.txt"), vec!["out.txt"]);
    assert_eq!(parts("a/../b"), vec!["a", "..", "b"]);
    assert_eq!(parts(".hidden/..."), vec![".hidden", "..."]);
    assert_eq!(parts(""), Vec::<String>::new());
    assert_eq!(parts("."), Vec::<String>::new());
    assert_eq!(parts("./"), Vec::<String>::new());
}

#[test]
fn a_path_from_the_root_begins_with_the_empty_component() {
    assert_eq!(parts("/"), vec![""]);
    assert_eq!(parts("/a/b"), vec!["", "a", "b"]);
    assert_eq!(parts("//a/./b/"), vec!["", "a", "b"]);
    assert_eq!(parts("/."), vec![""]);
}

#[test]
fn same_path_goes_by_the_components() {
    assert!(same_path("./out.txt", "././out.txt"));
    assert!(same_path("src/o.txt", "./src/o.txt"));
    assert!(same_path("a/b", "a//b/"));
    assert!(same_path("a/b", "a/./b/."));
    assert!(same_path(".", "./"));
    assert!(same_path("", "."));
    assert!(same_path("/a/b", "//a/b/"));
    assert!(!same_path("/a/b", "a/b"));
    assert!(!same_path("a/b", "a/c"));
    assert!(!same_path("a/b", "a"));
    assert!(!same_path("a/b", "b/a"));
    assert!(!same_path("a/../b", "b"));
    assert!(!same_path("ab", "a/b"));
}
