use std::path::Path;

use min_loc::config::check_lang;
use min_loc::path::{extension, file_name, file_stem, join, parent};
use min_loc::testing::{fail, finished_run, truncate};
use min_loc::text::{replace_text, split_words};

const PATHS: &[&str] = &[
    "", ".", "..", "/", "//", "./", "../", "a", "a/", "a//", "a/b", "a//b", "a/./b", "a/.",
    "a/..", "./a", "./a/b", "../a", "/a", "/a/", "/a/b", "//a", "/.", "/..", ".a", "a.b",
    "a.b.c", "a.", ".a.b", "dir/.hidden", "dir/file.tar.gz", "src/main/java/com/x/Foo.java",
    "pkg/geometry/shapes.go", "main.go", "x/./.", "x/y/./", "./.", "a/b/../c", "...", "a/...",
];

#[test]
fn file_name_agrees_with_std() {
    for p in PATHS {
        let expected = Path::new(p).file_name().map(|s| s.to_string_lossy().to_string());
        assert_eq!(file_name(p), expected, "file_name of {:?}", p);
    }
}

#[test]
fn file_stem_agrees_with_std() {
    for p in PATHS {
        let expected = Path::new(p).file_stem().map(|s| s.to_string_lossy().to_string());
        assert_eq!(file_stem(p), expected, "file_stem of {:?}", p);
    }
}

#[test]
fn parent_agrees_with_std() {
    for p in PATHS {
        let expected = Path::new(p).parent().map(|s| s.to_string_lossy().to_string());
        assert_eq!(parent(p), expected, "parent of {:?}", p);
    }
}

#[test]
fn extension_agrees_with_std() {
    for p in PATHS {
        let expected = Path::new(p).extension().map(|s| s.to_string_lossy().to_string());
        assert_eq!(extension(p), expected, "extension of {:?}", p);
    }
}

#[test]
fn join_agrees_with_std() {
    for base in ["", "a", "a/", "/", "a/b", "."] {
        for x in ["x", "x.py", "/abs", ""] {
            let expected = Path::new(base).join(x).to_string_lossy().to_string();
            assert_eq!(join(base, x), expected, "{:?} joined with {:?}", base, x);
        }
    }
}

#[test]
fn check_lang_by_extension() {
    assert_eq!(check_lang("a/b.rs"), "rust");
    assert_eq!(check_lang("b.ts"), "typescript");
    assert_eq!(check_lang("b.js"), "javascript");
    assert_eq!(check_lang("b.go"), "go");
    assert_eq!(check_lang("b.java"), "python");
    assert_eq!(check_lang("Makefile"), "python");
    assert_eq!(check_lang(".rs"), "python");
}

#[test]
fn words_agree_with_split_whitespace() {
    for s in ["", "  ", "cargo test", "  g++  -std=c++17\t-O2 \n", "a\u{2003}b\u{85}c", "x"] {
        let expected: Vec<String> = s.split_whitespace().map(|w| w.to_string()).collect();
        assert_eq!(split_words(s), expected, "words of {:?}", s);
    }
}

#[test]
fn replace_agrees_with_std() {
    let cases = [
        ("a {code} b {code}", "{code}", "X"),
        ("{code}{code}", "{code}", "{code}"),
        ("no marker", "{code}", "X"),
        ("aaaa", "aa", "b"),
        ("", "x", "y"),
    ];
    for (s, p, r) in cases {
        assert_eq!(replace_text(s, p, r), s.replace(p, r));
    }
}

#[test]
fn truncate_keeps_short_text() {
    assert_eq!(truncate("short", 10), "short");
    assert_eq!(truncate("exactly10!", 10), "exactly10!");
}

#[test]
fn truncate_cuts_long_text_with_mark() {
    assert_eq!(truncate("abcdefghij", 4), "abcd...[truncated]");
    assert_eq!(truncate("h\u{e9}llo", 3), "h\u{e9}...[truncated]");
}

#[test]
fn finished_run_joins_and_cuts_output() {
    let r = finished_run(true, "out", "");
    assert!(r.passed);
    assert_eq!(r.output, "out");
    let r = finished_run(false, "out", "err");
    assert!(!r.passed);
    assert_eq!(r.output, "out\nerr");
    let long = "x".repeat(600);
    let r = finished_run(false, &long, "");
    assert_eq!(r.output, format!("{}...[truncated]", "x".repeat(500)));
}

#[test]
fn fail_is_a_failed_run() {
    let r = fail("empty test command");
    assert!(!r.passed);
    assert_eq!(r.output, "empty test command");
}
