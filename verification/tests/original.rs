use min_loc::compress::{extract_code_block, module_path_from_file};
use min_loc::config::{file_matches, lang_from_path, test_cmd_for_lang, Config};
use min_loc::counting::count_loc;
use min_loc::testing::{header_file_name, java_test_rel_path};

#[test]
fn module_path_python_dotted() {
    assert_eq!(
        module_path_from_file("src/utils/helpers.py", "python"),
        "src.utils.helpers"
    );
}

#[test]
fn module_path_js_relative_stem() {
    assert_eq!(module_path_from_file("lib/math.js", "javascript"), "./math");
    assert_eq!(module_path_from_file("lib/math.ts", "typescript"), "./math");
}

#[test]
fn module_path_java_class_name() {
    assert_eq!(
        module_path_from_file("src/main/java/com/x/Foo.java", "java"),
        "Foo"
    );
}

#[test]
fn module_path_c_family_matches_workspace_header() {
    assert_eq!(module_path_from_file("src/shapes.cpp", "cpp"), "shapes.hpp");
    assert_eq!(module_path_from_file("mathutils.c", "c"), "mathutils.h");
}

#[test]
fn module_path_go_package_from_dir() {
    assert_eq!(
        module_path_from_file("pkg/geometry/shapes.go", "go"),
        "geometry"
    );
    assert_eq!(module_path_from_file("main.go", "go"), "main");
}

#[test]
fn extract_code_block_strips_fences() {
    assert_eq!(extract_code_block("```python\nx = 1\n```"), "x = 1");
    assert_eq!(extract_code_block("x = 1"), "x = 1");
    assert_eq!(extract_code_block("```\ny = 2\n```\n"), "y = 2");
}

#[test]
fn lang_from_path_maps_known_extensions() {
    assert_eq!(lang_from_path("src/app.py"), "python");
    assert_eq!(lang_from_path("lib.rs"), "rust");
    assert_eq!(lang_from_path("a/b/index.js"), "javascript");
    assert_eq!(lang_from_path("index.ts"), "typescript");
    assert_eq!(lang_from_path("main.go"), "go");
    assert_eq!(lang_from_path("Foo.java"), "java");
    assert_eq!(lang_from_path("util.c"), "c");
    assert_eq!(lang_from_path("util.cpp"), "cpp");
    assert_eq!(lang_from_path("util.hpp"), "cpp");
}

#[test]
fn test_cmd_override_wins() {
    let cfg = Config {
        test_cmd: Some("just test".to_string()),
        ..Default::default()
    };
    assert_eq!(test_cmd_for_lang(&cfg, "rust"), "just test");
}

#[test]
fn test_cmd_defaults_per_lang() {
    let cfg = Config::default();
    assert_eq!(test_cmd_for_lang(&cfg, "rust"), "cargo test");
    assert_eq!(test_cmd_for_lang(&cfg, "typescript"), "npx jest");
    assert_eq!(test_cmd_for_lang(&cfg, "cpp"), "g++ -std=c++17");
    assert_eq!(test_cmd_for_lang(&cfg, "c"), "gcc -std=c17");
    assert_eq!(test_cmd_for_lang(&cfg, "python"), "pytest");
}

#[test]
fn file_matches_respects_include_and_exclude() {
    let cfg = Config {
        includes: Some(vec!["**/*.py".to_string()]),
        exclude: Some(vec!["**/tests/*".to_string()]),
        ..Default::default()
    };
    assert!(file_matches("src/app.py", &cfg));
    assert!(!file_matches("src/tests/test_app.py", &cfg));
    assert!(!file_matches("src/app.rs", &cfg));
}

#[test]
fn counts_python_lines_and_imports() {
    let code = "import os\nfrom sys import argv\n\ndef f():\n    return 1\n";
    let stats = count_loc(code, "python");
    assert_eq!(stats.total, 5);
    assert_eq!(stats.non_blank, 4);
    assert_eq!(stats.non_import, 2);
}

#[test]
fn counts_java_imports() {
    let code = "import java.util.List;\nclass A {}\n";
    assert_eq!(count_loc(code, "java").non_import, 1);
}

#[test]
fn counts_c_family_includes() {
    let code = "#include <stdio.h>\nint main() { return 0; }\n";
    assert_eq!(count_loc(code, "c").non_import, 1);
    assert_eq!(count_loc(code, "cpp").non_import, 1);
}

#[test]
fn counts_js_imports_and_requires() {
    let code = "import x from 'x';\nconst y = require('y');\nconst z = 1;\n";
    assert_eq!(count_loc(code, "javascript").non_import, 1);
}

#[test]
fn java_test_path_mirrors_maven_layout() {
    assert_eq!(
        java_test_rel_path("src/main/java/com/x/Foo.java"),
        "src/test/java/com/x/FooTest.java"
    );
    assert_eq!(
        java_test_rel_path("src/main/java/Foo.java"),
        "src/test/java/FooTest.java"
    );
}

#[test]
fn java_test_path_sits_next_to_non_maven_source() {
    assert_eq!(java_test_rel_path("Foo.java"), "FooTest.java");
    assert_eq!(java_test_rel_path("lib/Foo.java"), "lib/FooTest.java");
}

#[test]
fn header_name_matches_lang() {
    assert_eq!(
        header_file_name("src/geometry/shapes.cpp", "cpp"),
        "shapes.hpp"
    );
    assert_eq!(header_file_name("mathutils.c", "c"), "mathutils.h");
    assert_eq!(header_file_name("include/vec.hpp", "cpp"), "vec.hpp");
}
