use std::path::Path;

use wt::paths::{components, file_name, join, parent, starts_with};

const SAMPLES: [&str; 24] = [
    "",
    "/",
    "//",
    ".",
    "..",
    "./",
    "./a",
    "a",
    "a/",
    "a/b",
    "a//b",
    "a/./b",
    "a/.",
    "a/..",
    "a/../b",
    "/a",
    "/a/b/",
    "/a/b//",
    "/.",
    "/./a",
    "//a//b",
    "/a/.b",
    "a/b/./",
    "/home/me/é",
];

#[test]
fn components_of_a_path() {
    assert_eq!(components("/a//b/./c/"), ["/", "a", "b", "c"]);
    assert_eq!(components("./a/../b"), [".", "a", "..", "b"]);
    assert!(components("").is_empty());
}

#[test]
fn components_agree_with_std() {
    for p in SAMPLES {
        let expected: Vec<String> = Path::new(p)
            .components()
            .map(|part| part.as_os_str().to_str().unwrap().to_string())
            .collect();
        assert_eq!(components(p), expected, "{:?}", p);
    }
}

#[test]
fn file_names_agree_with_std() {
    for p in SAMPLES {
        let expected = Path::new(p).file_name().map(|name| name.to_str().unwrap().to_string());
        assert_eq!(file_name(p), expected, "{:?}", p);
    }
}

#[test]
fn parents_agree_with_std() {
    for p in SAMPLES {
        let expected = Path::new(p).parent().map(|dir| dir.to_str().unwrap().to_string());
        assert_eq!(parent(p), expected, "{:?}", p);
    }
}

#[test]
fn joining_agrees_with_std() {
    for base in SAMPLES {
        for p in SAMPLES {
            let expected = Path::new(base).join(p);
            assert_eq!(join(base, p), expected.to_str().unwrap(), "{:?} {:?}", base, p);
        }
    }
}

#[test]
fn containment_agrees_with_std() {
    for p in SAMPLES {
        for base in SAMPLES {
            let expected = Path::new(p).starts_with(base);
            assert_eq!(starts_with(p, base), expected, "{:?} {:?}", p, base);
        }
    }
}

#[test]
fn containment_goes_by_whole_components() {
    assert!(starts_with("/a/bc/d", "/a/bc"));
    assert!(!starts_with("/a/bcd", "/a/bc"));
    assert!(starts_with("/a/bc", "/a//bc/"));
    assert!(!starts_with("/a", "/a/b"));
}

#[test]
fn joining_appends_the_components_of_a_relative_path() {
    let mut expected = components("/home/me/");
    expected.extend(["x".to_string(), "..".to_string(), "y".to_string()]);
    assert_eq!(components(&join("/home/me/", "x/.././y/")), expected);
}

#[test]
fn joining_a_name_appends_one_component() {
    assert_eq!(components(&join("/a", "b")), ["/", "a", "b"]);
    assert_eq!(components(&join("", "b")), ["b"]);
}

#[test]
fn joined_path_lies_under_its_base() {
    assert!(starts_with(&join("/a/b", "c/d"), "/a/b"));
    assert!(!starts_with(&join("/a/b", "/c"), "/a/b"));
}

#[test]
fn parent_drops_the_last_component() {
    let mut expected = components("/a/b/./c/");
    expected.pop();
    assert_eq!(components(&parent("/a/b/./c/").unwrap()), expected);
}

#[test]
fn path_is_its_parent_and_its_name() {
    for p in ["/a/b", "a", "x//y/", "/a/./b/."] {
        let whole = join(&parent(p).unwrap(), &file_name(p).unwrap());
        assert_eq!(components(&whole), components(p), "{:?}", p);
    }
}

#[test]
fn file_name_is_a_plain_name() {
    assert_eq!(file_name("/a/b.c/"), Some("b.c".to_string()));
    assert_eq!(file_name("/a/.."), None);
    assert_eq!(file_name("/"), None);
}
