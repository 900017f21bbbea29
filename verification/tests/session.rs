use min_loc::compress::{
    answer_declines, extract_code_block, compress_prompt, model_reply, says_no, tests_prompt, triage_prompt, Action,
    CompressResult, Event, Session, Stage,
};
use min_loc::testing::TestResult;

fn ran(passed: bool, output: &str) -> Event {
    Event::TestsRan(TestResult { passed, output: output.to_string() })
}

fn reply(text: &str) -> Event {
    Event::ModelReplied(Ok(text.to_string()))
}

fn step(s: &mut Session, e: Event) -> Action {
    assert!(s.accepts(&e));
    s.step(e)
}

fn ask(a: Action) -> String {
    match a {
        Action::AskModel(p) => p,
        other => panic!("expected a question for the model, got {:?}", other),
    }
}

fn run_tests(a: Action) -> (String, String) {
    match a {
        Action::RunTests { code, tests } => (code, tests),
        other => panic!("expected a test run, got {:?}", other),
    }
}

fn finished(a: Action) -> Result<CompressResult, String> {
    match a {
        Action::Finish(r) => r,
        other => panic!("expected the end, got {:?}", other),
    }
}

const CODE: &str = "x = 1\ny = 2\nz = 3\n";

/// A session brought to its first compression round.
fn session_in_loop(code: &str) -> (Session, String) {
    let (mut s, first) = Session::start(code, "python", "pkg/m.py");
    assert!(ask(first).contains(code));
    assert!(matches!(step(&mut s, reply("YES")), Action::CreateWorkspace));
    let prompt = ask(step(&mut s, Event::WorkspaceCreated(Ok(()))));
    assert!(prompt.contains("Import from the module 'pkg.m'"));
    let (empty, tests) = run_tests(step(&mut s, reply("```python\ndef test_x(): pass\n```")));
    assert_eq!(empty, "");
    assert_eq!(tests, "def test_x(): pass");
    let (code_run, _) = run_tests(step(&mut s, ran(false, "boom")));
    assert_eq!(code_run, code);
    let prompt = ask(step(&mut s, ran(true, "ok")));
    (s, prompt)
}

#[test]
fn start_asks_for_triage() {
    let (s, a) = Session::start(CODE, "python", "m.py");
    assert_eq!(s.stage(), Stage::Triage);
    assert_eq!(s.original_loc(), 3);
    assert_eq!(ask(a), triage_prompt(CODE));
}

#[test]
fn triage_no_keeps_the_code() {
    let (mut s, _) = Session::start(CODE, "python", "m.py");
    let r = finished(step(&mut s, reply("  no, it is minimal")));
    let r = r.unwrap();
    assert_eq!(r.code, CODE);
    assert_eq!((r.original_loc, r.final_loc, r.rounds), (3, 3, 0));
    assert_eq!(s.stage(), Stage::Done);
}

#[test]
fn triage_failure_goes_on() {
    let (mut s, _) = Session::start(CODE, "python", "m.py");
    let a = step(&mut s, Event::ModelReplied(Err("model returned empty output".to_string())));
    assert!(matches!(a, Action::CreateWorkspace));
}

#[test]
fn workspace_failure_ends_the_session() {
    let (mut s, _) = Session::start(CODE, "python", "m.py");
    step(&mut s, reply("YES"));
    let r = finished(step(&mut s, Event::WorkspaceCreated(Err("rsync failed".to_string()))));
    assert_eq!(r.unwrap_err(), "rsync failed");
}

#[test]
fn test_generation_failure_ends_the_session() {
    let (mut s, _) = Session::start(CODE, "python", "m.py");
    step(&mut s, reply("YES"));
    step(&mut s, Event::WorkspaceCreated(Ok(())));
    let r = finished(step(&mut s, Event::ModelReplied(Err("model exited with error: x".to_string()))));
    assert_eq!(r.unwrap_err(), "model exited with error: x");
}

#[test]
fn trivial_tests_are_refused() {
    let (mut s, _) = Session::start(CODE, "python", "m.py");
    step(&mut s, reply("YES"));
    step(&mut s, Event::WorkspaceCreated(Ok(())));
    step(&mut s, reply("def test(): pass"));
    let r = finished(step(&mut s, ran(true, "")));
    assert_eq!(
        r.unwrap_err(),
        "generated tests pass with empty implementation (tests are trivial or broken)"
    );
}

#[test]
fn failing_code_is_refused() {
    let (mut s, _) = Session::start(CODE, "python", "m.py");
    step(&mut s, reply("YES"));
    step(&mut s, Event::WorkspaceCreated(Ok(())));
    step(&mut s, reply("def test(): pass"));
    step(&mut s, ran(false, ""));
    let r = finished(step(&mut s, ran(false, "1 failed")));
    assert_eq!(r.unwrap_err(), "code does not pass generated tests:\n1 failed");
}

#[test]
fn shorter_passing_version_is_kept() {
    let (mut s, prompt) = session_in_loop(CODE);
    assert_eq!(prompt, compress_prompt(CODE, "python"));
    assert_eq!(s.rounds(), 1);
    let (code, tests) = run_tests(step(&mut s, reply("```python\nx, y, z = 1, 2, 3\n```")));
    assert_eq!(code, "x, y, z = 1, 2, 3");
    assert_eq!(tests, "def test_x(): pass");
    let r = finished(step(&mut s, ran(true, ""))).unwrap();
    assert_eq!(r.code, "x, y, z = 1, 2, 3");
    assert_eq!((r.original_loc, r.final_loc, r.rounds), (3, 1, 1));
}

#[test]
fn two_stalls_stop_the_loop() {
    let (mut s, _) = session_in_loop(CODE);
    ask(step(&mut s, reply("a = 1\nb = 2\nc = 3")));
    assert_eq!(s.stalls(), 1);
    let (code, _) = run_tests(step(&mut s, reply("a = 1\nb = 2")));
    assert_eq!(code, "a = 1\nb = 2");
    let r = finished(step(&mut s, ran(false, "broken"))).unwrap();
    assert_eq!(r.code, CODE);
    assert_eq!((r.original_loc, r.final_loc, r.rounds), (3, 3, 2));
}

#[test]
fn model_failure_in_the_loop_keeps_the_best() {
    let (mut s, _) = session_in_loop(CODE);
    run_tests(step(&mut s, reply("x = 1\ny = 2")));
    ask(step(&mut s, ran(true, "")));
    let r = finished(step(&mut s, Event::ModelReplied(Err("timeout".to_string())))).unwrap();
    assert_eq!(r.code, "x = 1\ny = 2");
    assert_eq!((r.original_loc, r.final_loc, r.rounds), (3, 2, 2));
}

#[test]
fn at_most_five_rounds() {
    let code: String = (0..10).map(|i| format!("v{} = {}\n", i, i)).collect();
    let (mut s, _) = session_in_loop(&code);
    let mut lines = 10;
    let mut last = None;
    for _ in 0..5 {
        lines -= 1;
        let shorter: String = (0..lines).map(|i| format!("v{} = {}\n", i, i)).collect();
        run_tests(step(&mut s, reply(&shorter)));
        match step(&mut s, ran(true, "")) {
            Action::AskModel(_) => {}
            Action::Finish(r) => {
                last = Some(r);
                break;
            }
            other => panic!("unexpected {:?}", other),
        }
    }
    let r = last.expect("the session ends after five rounds").unwrap();
    assert_eq!((r.original_loc, r.final_loc, r.rounds), (10, 5, 5));
}

#[test]
fn declining_answers() {
    assert!(answer_declines("NO"));
    assert!(answer_declines("  no.\n"));
    assert!(answer_declines("Nope"));
    assert!(!answer_declines("YES"));
    assert!(!answer_declines("N"));
    assert!(answer_declines("\tnO, it is as short as it gets"));
    assert!(!answer_declines("yes, no doubt"));
    assert!(!answer_declines(" n o"));
    assert!(says_no("NO WAY"));
    assert!(!says_no("no"));
}

#[test]
fn model_reply_reads_the_run() {
    assert_eq!(model_reply("llm", false, "x", "bad"), Err("llm exited with error: bad".to_string()));
    assert_eq!(model_reply("llm", true, " \n ", ""), Err("llm returned empty output".to_string()));
    assert_eq!(model_reply("llm", true, "  code \n", "warn"), Ok("code".to_string()));
}

#[test]
fn prompts_fill_in_code_and_module() {
    let p = tests_prompt("print(1)", "java", "src/main/java/A.java");
    assert!(p.starts_with("Generate JUnit 5 tests for this Java code. The class under test is named 'A'."));
    assert!(p.ends_with("\n\nprint(1)"));
    let p = tests_prompt("x = '{module}'", "python", "m.py");
    assert!(p.ends_with("x = 'm'"));
    let p = compress_prompt("fn f() {}", "rust");
    assert!(p.starts_with("Rewrite this rust code"));
    assert!(p.ends_with("fn f() {}"));
    let p = triage_prompt("a");
    assert!(p.ends_with("Nothing else.\n\na"));
}

#[test]
fn kept_code_passed_the_session_tests() {
    // The submitted code is kept unless a shorter candidate passes the
    // very tests that the session generated.
    let (mut s, _) = session_in_loop(CODE);
    let (candidate, tests) = run_tests(step(&mut s, reply("```python\nx = 1\ny, z = 2, 3\n```")));
    assert_eq!(candidate, "x = 1\ny, z = 2, 3");
    assert_eq!(tests, "def test_x(): pass");
    let _ = ask(step(&mut s, ran(true, "ok")));
    assert_eq!(s.champion_loc(), 2);
    let r = finished(step(&mut s, Event::ModelReplied(Err("down".to_string())))).unwrap();
    assert_eq!(r.code, candidate);
    assert_eq!((r.original_loc, r.final_loc, r.rounds), (3, 2, 2));
}

#[test]
fn refused_candidates_leave_the_code_unchanged() {
    let (mut s, _) = session_in_loop(CODE);
    let (candidate, _) = run_tests(step(&mut s, reply("x = 1; y = 2\nz = 3")));
    assert_eq!(candidate, "x = 1; y = 2\nz = 3");
    let _ = ask(step(&mut s, ran(false, "failed")));
    let (candidate, _) = run_tests(step(&mut s, reply("x = 1; y = 2; z = 3")));
    assert_eq!(candidate, "x = 1; y = 2; z = 3");
    let r = finished(step(&mut s, ran(false, "failed"))).unwrap();
    assert_eq!(r.code, CODE);
    assert_eq!((r.original_loc, r.final_loc, r.rounds), (3, 3, 2));
}

#[test]
fn extracted_code_is_clean() {
    assert_eq!(extract_code_block("Here:\n```\nz\n```\nmore"), "z");
    for reply in ["Here:\n```\nz\n```\nmore", "  ```rust\n fn f() {}\n", "plain  ", "a ``` b ``` c"] {
        let once = extract_code_block(reply);
        assert!(!once.contains("```"));
        assert_eq!(once, once.trim());
        assert_eq!(extract_code_block(&once), once);
    }
}
