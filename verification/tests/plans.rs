use min_loc::testing::{
    compile_failure, copy_command_args, header_file_name, empty_command, plan_test_run, Arg, Invocation, RunSteps, TestPlan,
};

fn text(s: &str) -> Arg {
    Arg::Text(s.to_string())
}

fn in_copy(s: &str) -> Arg {
    Arg::InCopy(s.to_string())
}

fn writes(p: &TestPlan) -> Vec<(String, String, String)> {
    p.writes
        .iter()
        .map(|w| (w.rel_path.clone(), w.contents.clone(), w.failure.clone()))
        .collect()
}

fn tests_step(p: TestPlan) -> Invocation {
    match p.steps {
        RunSteps::Tests(i) => i,
        other => panic!("expected one test command, got {:?}", other),
    }
}

fn w(a: &str, b: &str, c: &str) -> (String, String, String) {
    (a.to_string(), b.to_string(), c.to_string())
}

#[test]
fn python_plan() {
    let p = plan_test_run("python", "pkg/m.py", "python -m pytest", "x = 1", "def t(): pass");
    assert_eq!(
        writes(&p),
        vec![
            w("pkg/m.py", "x = 1", "failed to write source"),
            w("pkg/test_m.py", "def t(): pass", "failed to write tests"),
        ]
    );
    let i = tests_step(p);
    assert_eq!(i.program, text("python"));
    assert_eq!(
        i.args,
        vec![text("-m"), text("pytest"), in_copy("pkg/test_m.py"), text("--tb=short"), text("-q")]
    );
    assert_eq!(i.env, Some(("PYTHONPATH".to_string(), in_copy(""))));
}

#[test]
fn rust_plan() {
    let p = plan_test_run("rust", "src/lib.rs", "cargo test", "fn f() {}", "#[test]\nfn t() {}");
    assert_eq!(p.writes.len(), 1);
    assert_eq!(p.writes[0].rel_path, "src/lib.rs");
    assert!(p.writes[0].contents.starts_with("fn f() {}\n\n"));
    let i = tests_step(p);
    assert_eq!(i.program, text("cargo"));
    assert_eq!(i.args, vec![text("test")]);
    assert!(i.env.is_none());
}

#[test]
fn js_java_go_plans() {
    let p = plan_test_run("typescript", "lib/math.ts", "npx jest", "c", "t");
    assert_eq!(p.writes[1].rel_path, "lib/math.test.ts");
    assert_eq!(tests_step(p).args, vec![text("jest"), text("--no-cache")]);

    let p = plan_test_run("java", "src/main/java/A.java", "mvn test", "c", "t");
    assert_eq!(p.writes[1].rel_path, "src/test/java/ATest.java");
    assert_eq!(tests_step(p).args, vec![text("test")]);

    let p = plan_test_run("go", "pkg/geo/shapes.go", "go test", "package geo", "func T() {}");
    assert_eq!(
        writes(&p)[1],
        w("pkg/geo/shapes_test.go", "package geo\n\nfunc T() {}", "failed to write tests")
    );
    assert_eq!(tests_step(p).args, vec![text("test"), in_copy("pkg/geo")]);
}

#[test]
fn cpp_plan_compiles_then_runs() {
    let p = plan_test_run("cpp", "src/shapes.cpp", "g++ -std=c++17", "int f();", "int main(){}");
    assert_eq!(
        writes(&p),
        vec![
            w("src/shapes.hpp", "int f();", "failed to write source header"),
            w("src/shapes_test.cpp", "int main(){}", "failed to write tests"),
        ]
    );
    match p.steps {
        RunSteps::CompileThenRun(compile, run) => {
            assert_eq!(compile.program, text("g++"));
            assert_eq!(
                compile.args,
                vec![
                    text("-std=c++17"),
                    text("-o"),
                    in_copy("shapes_test_runner"),
                    in_copy("src/shapes_test.cpp"),
                ]
            );
            assert_eq!(run.program, in_copy("shapes_test_runner"));
            assert!(run.args.is_empty());
        }
        other => panic!("expected compile then run, got {:?}", other),
    }
}

#[test]
fn empty_command_plan() {
    let p = plan_test_run("python", "m.py", "   ", "x", "t");
    assert_eq!(p.writes.len(), 2);
    assert!(matches!(p.steps, RunSteps::EmptyCommand));
    let r = empty_command();
    assert!(!r.passed);
    assert_eq!(r.output, "empty test command");
    let r = compile_failure("error: x");
    assert!(!r.passed);
    assert_eq!(r.output, "compilation failed: error: x");
}

#[test]
fn copy_arguments_exclude_the_language_outputs() {
    assert_eq!(
        copy_command_args("/a", "/b", "python"),
        vec![
            "-a", "--quiet", "--exclude", ".git", "--exclude", "__pycache__", "--exclude",
            "*.pyc", "--exclude", ".venv", "/a/", "/b/",
        ]
    );
    assert_eq!(
        copy_command_args("src", "/tmp/x", "rust"),
        vec!["-a", "--quiet", "--exclude", ".git", "--exclude", "target", "src/", "/tmp/x/"]
    );
    assert_eq!(
        copy_command_args("p", "q", "go"),
        vec!["-a", "--quiet", "--exclude", ".git", "p/", "q/"]
    );
}

#[test]
fn header_name_depends_on_the_file_name_only() {
    assert_eq!(header_file_name("deep/dir/x.cpp", "cpp"), header_file_name("x.cpp", "cpp"));
    assert_eq!(header_file_name("a/b/m.c", "c"), "m.h");
    assert_eq!(header_file_name("a/b/m.c", "zig"), "m.hpp");
}
