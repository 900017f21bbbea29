use min_loc::config::{
    configured_lang, decide_selection, default_test_cmd, file_matches, timeout_secs, Config,
};
use min_loc::counting::{count_loc, is_import_line};
use min_loc::compress::CompressResult;
use min_loc::hook::{
    denial_reason, deny_response, edited_content, make_relative, parse_tool_input,
    ParsedToolInput, ToolFields,
};
use min_loc::testing::{
    copy_rules, cpp_header_rel_path, cpp_runner_name, cpp_test_rel_path, go_source_with_tests,
    go_test_rel_path, js_test_rel_path, python_test_rel_path, runner_for, rust_source_with_tests,
    command_parts, Runner,
};

#[test]
fn counts_agree_with_std_lines() {
    let texts = [
        "", "\n", "\n\n", "a", "a\n", "a\r\n", "a\r", "a\r\nb", " \t\n x \r\n\n", "\u{3000}\n  y",
    ];
    for t in texts {
        let s = count_loc(t, "python");
        assert_eq!(s.total as usize, t.lines().count(), "total of {:?}", t);
        assert_eq!(
            s.non_blank as usize,
            t.lines().filter(|l| !l.trim().is_empty()).count(),
            "non-blank of {:?}",
            t
        );
    }
}

#[test]
fn counts_are_ordered() {
    let s = count_loc("use a;\n\nfn f() {}\n  \nuse b;\n", "rust");
    assert_eq!((s.total, s.non_blank, s.non_import), (5, 3, 1));
    assert!(s.non_import <= s.non_blank && s.non_blank <= s.total);
}

#[test]
fn a_final_line_ending_changes_no_count() {
    for lang in ["python", "go"] {
        let a = count_loc("import x\ny", lang);
        let b = count_loc("import x\ny\n", lang);
        let c = count_loc("import x\ny\r\n", lang);
        assert_eq!((a.total, a.non_blank, a.non_import), (b.total, b.non_blank, b.non_import));
        assert_eq!((a.total, a.non_blank, a.non_import), (c.total, c.non_blank, c.non_import));
    }
}

#[test]
fn imports_per_language() {
    assert!(is_import_line("from x import y", "python"));
    assert!(!is_import_line("from x import y", "rust"));
    assert!(is_import_line("use std::io;", "rust"));
    assert!(is_import_line("import \"fmt\"", "go"));
    assert!(is_import_line("const a = require('a');", "typescript"));
    assert!(!is_import_line("const a = 1;", "typescript"));
    assert!(!is_import_line("import os", "ruby"));
    assert_eq!(count_loc("import os\nx = 1\n", "ruby").non_import, 2);
}

#[test]
fn defaults_of_the_config() {
    assert_eq!(default_test_cmd("java"), "mvn test");
    assert_eq!(default_test_cmd("go"), "go test");
    assert_eq!(default_test_cmd("javascript"), "npx jest");
    assert_eq!(default_test_cmd("ruby"), "pytest");
    assert_eq!(timeout_secs(&Config::default()), 30);
    let cfg = Config { timeout: Some(7), ..Default::default() };
    assert_eq!(timeout_secs(&cfg), 7);
}

#[test]
fn denial_reasons() {
    let ok = CompressResult { code: "x=1".to_string(), original_loc: 12, final_loc: 3, rounds: 2 };
    assert_eq!(
        denial_reason(&Ok(ok)).unwrap(),
        "min-loc: compressed from 12 to 3 non-import lines in 2 rounds. Replace your code with this shorter version:\n\nx=1\n"
    );
    let same = CompressResult { code: "x=1".to_string(), original_loc: 3, final_loc: 3, rounds: 0 };
    assert_eq!(denial_reason(&Ok(same)), None);
    assert_eq!(
        denial_reason(&Err("boom".to_string())).unwrap(),
        "min-loc: compression failed: boom"
    );
}

#[test]
fn deny_response_refuses() {
    let r = deny_response("why".to_string());
    assert_eq!(r.hook_specific_output.hook_event_name, "PreToolUse");
    assert_eq!(r.hook_specific_output.permission_decision, "deny");
    assert_eq!(r.hook_specific_output.permission_decision_reason, "why");
}

#[test]
fn relative_paths() {
    assert_eq!(make_relative("/proj/src/a.py", "/proj"), "src/a.py");
    assert_eq!(make_relative("src/a.py", "/proj"), "src/a.py");
    assert_eq!(make_relative("//x", ""), "x");
    assert_eq!(make_relative("/proj", "/proj"), "");
}

fn fields(p: Option<&str>, c: Option<&str>, n: Option<&str>) -> ToolFields {
    ToolFields {
        file_path: p.map(|s| s.to_string()),
        content: c.map(|s| s.to_string()),
        new_string: n.map(|s| s.to_string()),
    }
}

#[test]
fn tool_inputs() {
    match parse_tool_input("Write", fields(Some("a.py"), Some("x"), None)) {
        Some(ParsedToolInput::Write { file_path, content }) => {
            assert_eq!((file_path.as_str(), content.as_str()), ("a.py", "x"));
        }
        other => panic!("{:?}", other),
    }
    match parse_tool_input("Edit", fields(Some("a.py"), None, Some("y"))) {
        Some(ParsedToolInput::Edit { file_path, new_string }) => {
            assert_eq!((file_path.as_str(), new_string.as_str()), ("a.py", "y"));
        }
        other => panic!("{:?}", other),
    }
    assert!(parse_tool_input("Edit", fields(Some("a.py"), Some("x"), None)).is_none());
    assert!(parse_tool_input("Write", fields(None, Some("x"), None)).is_none());
    assert!(parse_tool_input("Read", fields(Some("a"), Some("x"), Some("y"))).is_none());
}

#[test]
fn an_edit_replaces_the_whole_file() {
    assert_eq!(edited_content(Some("old text"), "new"), "new");
    assert_eq!(edited_content(Some(""), "new"), "new");
    assert_eq!(edited_content(None, "new"), "new");
}

#[test]
fn copy_rules_per_language() {
    let r = copy_rules("python");
    assert_eq!(r.excludes, vec!["__pycache__", "*.pyc", ".venv"]);
    assert_eq!(r.symlinks, vec![".venv"]);
    let r = copy_rules("typescript");
    assert_eq!(r.excludes, vec!["node_modules"]);
    assert_eq!(r.symlinks, vec!["node_modules"]);
    let r = copy_rules("c");
    assert_eq!(r.excludes, vec!["build", "cmake-build-*"]);
    assert!(r.symlinks.is_empty());
    assert!(copy_rules("go").excludes.is_empty());
}

#[test]
fn runners_per_language() {
    assert_eq!(runner_for("rust"), Runner::Rust);
    assert_eq!(runner_for("c"), Runner::Cpp);
    assert_eq!(runner_for("typescript"), Runner::Js);
    assert_eq!(runner_for("java"), Runner::Java);
    assert_eq!(runner_for("go"), Runner::Go);
    assert_eq!(runner_for("ruby"), Runner::Python);
}

#[test]
fn test_files_beside_the_source() {
    assert_eq!(python_test_rel_path("pkg/mod.py"), "pkg/test_mod.py");
    assert_eq!(python_test_rel_path("mod.py"), "test_mod.py");
    assert_eq!(js_test_rel_path("lib/math.ts", "typescript"), "lib/math.test.ts");
    assert_eq!(js_test_rel_path("math.js", "javascript"), "math.test.js");
    assert_eq!(go_test_rel_path("pkg/geo/shapes.go"), "pkg/geo/shapes_test.go");
    assert_eq!(cpp_header_rel_path("src/shapes.cpp", "cpp"), "src/shapes.hpp");
    assert_eq!(cpp_test_rel_path("src/shapes.cpp", "cpp"), "src/shapes_test.cpp");
    assert_eq!(cpp_test_rel_path("m.c", "c"), "m_test.c");
    assert_eq!(cpp_runner_name("src/shapes.cpp"), "shapes_test_runner");
}

#[test]
fn test_sources() {
    assert_eq!(
        rust_source_with_tests("fn f() {}", "#[test]\nfn t() {}"),
        "fn f() {}\n\n#[cfg(test)]\nmod tests {\n    use super::*;\n#[test]\nfn t() {}\n}"
    );
    assert_eq!(
        go_source_with_tests("// c\n  package geo\nfunc A() {}", "func TestA(t *testing.T) {}"),
        "  package geo\n\nfunc TestA(t *testing.T) {}"
    );
    assert_eq!(go_source_with_tests("func A() {}", "T"), "package main\n\nT");
}

#[test]
fn command_words() {
    assert_eq!(command_parts("  python -m   pytest "), vec!["python", "-m", "pytest"]);
    assert!(command_parts("   ").is_empty());
}

#[test]
fn selection_rule() {
    assert!(!decide_selection(true, None));
    assert!(!decide_selection(true, Some(true)));
    assert!(decide_selection(false, None));
    assert!(decide_selection(false, Some(true)));
    assert!(!decide_selection(false, Some(false)));
}

#[test]
fn file_selection_without_lists() {
    assert!(file_matches("anything/at/all.rs", &Config::default()));
    let cfg = Config { exclude: Some(vec!["*.md".to_string()]), ..Default::default() };
    assert!(!file_matches("README.md", &cfg));
    assert!(file_matches("src/a.py", &cfg));
}

#[test]
fn configured_language() {
    assert_eq!(configured_lang(&Config::default(), "a/b.go"), "go");
    let cfg = Config { lang: Some("rust".to_string()), ..Default::default() };
    assert_eq!(configured_lang(&cfg, "a/b.go"), "rust");
}
