use stalkerd::path::{path_ends_with, piece_is_name, split_path};

fn chars(s: &str) -> Vec<char> {
    s.chars().collect()
}

const PATHS: [&str; 40] = [
    "",
    "/",
    "//",
    ".",
    "..",
    "./",
    "./.",
    "/.",
    "/..",
    "a",
    "a/",
    "a//",
    "/a",
    "//a",
    "a/b",
    "a//b",
    "a/./b",
    "a/b/.",
    "a/b/",
    "./a/b",
    "././a/b",
    ".//a/b",
    "/a/b",
    "/./a/b",
    "x/a/b",
    "x/a//b",
    "xa/b",
    "a/../b",
    "../b",
    "a/..",
    ".a/b",
    "a/.b",
    "a/b.",
    "a/...",
    "b",
    "/b",
    "./b",
    "a b/c",
    "é/b",
    "/x/é/b/",
];

fn std_components(path: &str) -> Vec<Vec<char>> {
    std::path::Path::new(path)
        .components()
        .map(|component| component.as_os_str().to_str().unwrap().chars().collect())
        .collect()
}

#[test]
fn split_path_gives_the_components() {
    let names = |parts: &[&str]| -> Vec<Vec<char>> {
        parts.iter().map(|part| part.chars().collect()).collect()
    };
    assert_eq!(split_path("/usr/bin/java"), names(&["/", "usr", "bin", "java"]));
    assert_eq!(split_path("usr//bin/./java/"), names(&["usr", "bin", "java"]));
    assert_eq!(split_path("./usr/../java"), names(&[".", "usr", "..", "java"]));
    assert_eq!(split_path("."), names(&["."]));
    assert_eq!(split_path("/"), names(&["/"]));
    assert_eq!(split_path(""), names(&[]));
    assert_eq!(split_path("a b/.c"), names(&["a b", ".c"]));
}

#[test]
fn split_path_agrees_with_the_standard_library() {
    for path in PATHS {
        assert_eq!(split_path(path), std_components(path), "{:?}", path);
    }
}

#[test]
fn path_ends_with_agrees_with_the_standard_library() {
    for path in PATHS {
        for suffix in PATHS {
            assert_eq!(
                path_ends_with(path, suffix),
                std::path::Path::new(path).ends_with(suffix),
                "{:?} {:?}",
                path,
                suffix
            );
        }
    }
}

#[test]
fn a_name_is_neither_empty_nor_a_single_dot() {
    assert!(piece_is_name(&chars("a")));
    assert!(piece_is_name(&chars("..")));
    assert!(piece_is_name(&chars(".a")));
    assert!(!piece_is_name(&chars(".")));
    assert!(!piece_is_name(&chars("")));
}

#[test]
fn path_suffix_takes_whole_components() {
    let suffix = "Visual Studio Code.app/Contents/MacOS/Electron";
    assert!(path_ends_with(
        "/Applications/Visual Studio Code.app/Contents/MacOS/Electron",
        suffix
    ));
    assert!(path_ends_with(suffix, suffix));
    assert!(!path_ends_with(
        "/Applications/Not Visual Studio Code.app/Contents/MacOS/Electron",
        suffix
    ));
    assert!(!path_ends_with(
        "/Applications/Visual Studio Code.app/Contents/MacOS/Electron Helper",
        suffix
    ));
    assert!(!path_ends_with("Contents/MacOS/Electron", suffix));
    assert!(!path_ends_with("", suffix));
}

#[test]
fn path_suffix_looks_through_text_that_is_not_in_normal_form() {
    let suffix = "Visual Studio Code.app/Contents/MacOS/Electron";
    assert!(path_ends_with(
        "/Applications/Visual Studio Code.app/Contents/MacOS//Electron",
        suffix
    ));
    assert!(path_ends_with(
        "/Applications/Visual Studio Code.app/./Contents/MacOS/Electron/",
        suffix
    ));
    assert!(path_ends_with("x/a//b", "a/b"));
    assert!(path_ends_with("x/a/b", "a//b/"));
    assert!(!path_ends_with("x/a/../b", "a/b"));
}

#[test]
fn path_suffix_of_short_paths() {
    assert!(path_ends_with("/usr/bin/java", "java"));
    assert!(path_ends_with("/usr/bin/java", "bin/java"));
    assert!(path_ends_with("/usr/bin/java", "/usr/bin/java"));
    assert!(!path_ends_with("/usr/bin/java", "/bin/java"));
    assert!(!path_ends_with("/usr/bin/java", "ava"));
    assert!(!path_ends_with("/usr/bin/java", "in/java"));
    assert!(path_ends_with("java", "java"));
    assert!(!path_ends_with("java", "./java"));
    assert!(path_ends_with("", ""));
    assert!(path_ends_with("/usr", ""));
    assert!(path_ends_with("/usr/", ""));
}
