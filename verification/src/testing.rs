//! Where the generated tests go and how a test run is read: the file names
//! next to the code under test, the sources that hold the tests, the test
//! command's words, and the result of a run.
use vstd::prelude::*;
use vstd::string::StringExecFns;
use vstd::utf8::encode_utf8;
use crate::lang::{Lang, lang_named};
use crate::path::{
    file_stem, join, lemma_file_name_is_own, or_empty, parent, path_file_name, path_file_stem,
    path_join, path_parent,
};
use crate::text::{
    chars_of, extend_all, extend_range, extend_str, has_at, line_end, lines, split_words,
    string_of, trim_start, words, lemma_encode_concat,
};

verus! {

broadcast use vstd::string::group_string_axioms;

/// The result of one run of the tests.
#[derive(Debug)]
pub struct TestResult {
    pub passed: bool,
    pub output: String,
}

/// The stem of a path's file name, empty when it has none.
pub open spec fn stem_or_empty(p: Seq<char>) -> Seq<char> {
    or_empty(path_file_stem(p))
}

/// The parent of a path, empty when it has none.
pub open spec fn parent_or_empty(p: Seq<char>) -> Seq<char> {
    or_empty(path_parent(p))
}

fn stem_chars(p: &str) -> (r: Vec<char>)
    ensures
        r@ == stem_or_empty(p@),
{
    match file_stem(p) {
        Some(s) => chars_of(s.as_str()),
        None => Vec::new(),
    }
}

fn parent_text(p: &str) -> (r: String)
    ensures
        r@ == parent_or_empty(p@),
{
    match parent(p) {
        Some(s) => s,
        None => String::new(),
    }
}

/// Where the JUnit tests for a Java source go: `FooTest.java` beside
/// `Foo.java`, with a Maven `src/main/java` tree mirrored into `src/test/java`.
pub open spec fn java_test_path(p: Seq<char>) -> Seq<char> {
    let test_name = stem_or_empty(p) + "Test.java"@;
    let dir = parent_or_empty(p);
    let test_dir = if "src/main/java"@.is_prefix_of(dir) {
        "src/test/java"@ + dir.skip("src/main/java"@.len() as int)
    } else {
        dir
    };
    if test_dir.len() == 0 {
        test_name
    } else {
        test_dir + seq!['/'] + test_name
    }
}

/// The relative path of the test file for a Java source.
pub fn java_test_rel_path(file_rel_path: &str) -> (r: String)
    ensures
        r@ == java_test_path(file_rel_path@),
{
    let stem = stem_chars(file_rel_path);
    let mut test_name: Vec<char> = Vec::new();
    extend_all(&mut test_name, &stem);
    extend_str(&mut test_name, "Test.java");
    let dir = chars_of(parent_text(file_rel_path).as_str());
    let maven = chars_of("src/main/java");
    let mut test_dir: Vec<char> = Vec::new();
    assert(dir@.skip(0) =~= dir@);
    if has_at(&dir, 0, &maven) {
        extend_str(&mut test_dir, "src/test/java");
        extend_range(&mut test_dir, &dir, maven.len(), dir.len());
        assert(dir@.subrange(maven@.len() as int, dir@.len() as int) =~= dir@.skip(
            maven@.len() as int,
        ));
    } else {
        extend_all(&mut test_dir, &dir);
    }
    if test_dir.len() == 0 {
        string_of(&test_name)
    } else {
        test_dir.push('/');
        extend_all(&mut test_dir, &test_name);
        string_of(&test_dir)
    }
}

/// The header extension for the language named `lang`: `h` for C, `hpp`
/// otherwise.
pub open spec fn header_ext(lang: Seq<char>) -> Seq<char> {
    if lang == "c"@ {
        "h"@
    } else {
        "hpp"@
    }
}

/// The header that holds a C or C++ source for its tests.
pub open spec fn header_name(p: Seq<char>, lang: Seq<char>) -> Seq<char> {
    stem_or_empty(p) + seq!['.'] + header_ext(lang)
}

/// The header's name depends on the source's file name alone: its directory
/// is ignored.
pub proof fn lemma_header_depends_on_file_name(p: Seq<char>, lang: Seq<char>)
    ensures
        header_name(p, lang) == header_name(or_empty(path_file_name(p)), lang),
{
    lemma_file_name_is_own(p);
    if path_file_name(p) is None {
        assert(path_file_name(Seq::<char>::empty()) is None);
    }
}

/// The file name of the header for the source at `file_rel_path`.
pub fn header_file_name(file_rel_path: &str, lang: &str) -> (r: String)
    ensures
        r@ == header_name(file_rel_path@, lang@),
{
    let mut out = stem_chars(file_rel_path);
    out.push('.');
    if crate::text::same_text(lang, "c") {
        extend_str(&mut out, "h");
    } else {
        extend_str(&mut out, "hpp");
    }
    string_of(&out)
}

// ---------------------------------------------------------------------------
// The working copy
// ---------------------------------------------------------------------------

/// What copying the project leaves out, and what it links instead of copying.
pub struct CopyRules {
    pub excludes: Vec<String>,
    pub symlinks: Vec<String>,
}

/// The names that copying a project of the given language leaves out.
pub open spec fn excluded_names(lang: Lang) -> Seq<Seq<char>> {
    match lang {
        Lang::Rust => seq!["target"@],
        Lang::Python => seq!["__pycache__"@, "*.pyc"@, ".venv"@],
        Lang::JavaScript | Lang::TypeScript => seq!["node_modules"@],
        Lang::Java => seq!["target"@, "build"@, ".gradle"@],
        Lang::Cpp | Lang::C => seq!["build"@, "cmake-build-*"@],
        _ => Seq::empty(),
    }
}

/// The directories that the copy links to instead of copying them.
pub open spec fn linked_names(lang: Lang) -> Seq<Seq<char>> {
    match lang {
        Lang::Python => seq![".venv"@],
        Lang::JavaScript | Lang::TypeScript => seq!["node_modules"@],
        _ => Seq::empty(),
    }
}

/// The texts of a vector of strings.
pub open spec fn texts(v: Seq<String>) -> Seq<Seq<char>> {
    v.map_values(|s: String| s@)
}

fn strings_of(items: &[&str]) -> (r: Vec<String>)
    ensures
        texts(r@) == items@.map_values(|s: &str| s@),
{
    let mut r: Vec<String> = Vec::new();
    let mut i: usize = 0;
    while i < items.len()
        invariant
            0 <= i <= items.len(),
            r@.len() == i,
            texts(r@) == items@.take(i as int).map_values(|s: &str| s@),
        decreases items.len() - i,
    {
        let ghost before = r@;
        r.push(String::from_str(items[i]));
        assert(items@.take(i + 1) =~= items@.take(i as int).push(items@[i as int]));
        assert forall|k: int| 0 <= k < i implies #[trigger] r@[k]@ == items@[k]@ by {
            assert(r@[k] == before[k]);
            assert(texts(before)[k] == before[k]@);
            assert(items@.take(i as int).map_values(|s: &str| s@)[k] == items@[k]@);
        }
        assert(texts(r@) =~= items@.take(i + 1).map_values(|s: &str| s@));
        i = i + 1;
    }
    assert(items@.take(items.len() as int) =~= items@);
    r
}

/// The copy rules for a project in the language named `lang`.
pub fn copy_rules(lang: &str) -> (r: CopyRules)
    ensures
        texts(r.excludes@) == excluded_names(lang_named(lang@)),
        texts(r.symlinks@) == linked_names(lang_named(lang@)),
{
    let kind = Lang::from_name(lang);
    let (ex, ln): (Vec<String>, Vec<String>) = match kind {
        Lang::Rust => (strings_of(&["target"]), strings_of(&[])),
        Lang::Python => (strings_of(&["__pycache__", "*.pyc", ".venv"]), strings_of(&[".venv"])),
        Lang::JavaScript | Lang::TypeScript => (
            strings_of(&["node_modules"]),
            strings_of(&["node_modules"]),
        ),
        Lang::Java => (strings_of(&["target", "build", ".gradle"]), strings_of(&[])),
        Lang::Cpp | Lang::C => (strings_of(&["build", "cmake-build-*"]), strings_of(&[])),
        _ => (strings_of(&[]), strings_of(&[])),
    };
    assert(texts(ex@) =~= excluded_names(kind));
    assert(texts(ln@) =~= linked_names(kind));
    CopyRules { excludes: ex, symlinks: ln }
}

/// An `--exclude` flag for each name.
pub open spec fn exclude_flags(ns: Seq<Seq<char>>) -> Seq<Seq<char>>
    decreases ns.len(),
{
    if ns.len() == 0 {
        Seq::empty()
    } else {
        exclude_flags(ns.drop_last()) + seq!["--exclude"@, ns.last()]
    }
}

/// The arguments of `rsync` that copy the project at `src` to `dst`: archive
/// mode, quiet, without `.git` and the language's excluded names, each
/// directory given with a trailing `/` so that its contents are copied.
pub open spec fn copy_args(src: Seq<char>, dst: Seq<char>, lang: Lang) -> Seq<Seq<char>> {
    seq!["-a"@, "--quiet"@, "--exclude"@, ".git"@] + exclude_flags(excluded_names(lang)) + seq![
        src + "/"@,
        dst + "/"@,
    ]
}

fn push_text(r: &mut Vec<String>, s: &str)
    ensures
        texts(final(r)@) == texts(old(r)@).push(s@),
{
    r.push(s.to_string());
    assert(texts(r@) =~= texts(old(r)@).push(s@));
}

/// The arguments of the `rsync` run that copies the project at `src` (a
/// project in the language named `lang`) to `dst`.
pub fn copy_command_args(src: &str, dst: &str, lang: &str) -> (r: Vec<String>)
    ensures
        texts(r@) == copy_args(src@, dst@, lang_named(lang@)),
{
    let rules = copy_rules(lang);
    let ex = rules.excludes;
    let mut r: Vec<String> = Vec::new();
    push_text(&mut r, "-a");
    push_text(&mut r, "--quiet");
    push_text(&mut r, "--exclude");
    push_text(&mut r, ".git");
    let ghost head = texts(r@);
    assert(head =~= seq!["-a"@, "--quiet"@, "--exclude"@, ".git"@]);
    let mut i: usize = 0;
    assert(texts(ex@).take(0) =~= Seq::<Seq<char>>::empty());
    while i < ex.len()
        invariant
            0 <= i <= ex.len(),
            texts(r@) == head + exclude_flags(texts(ex@).take(i as int)),
        decreases ex.len() - i,
    {
        push_text(&mut r, "--exclude");
        push_text(&mut r, ex[i].as_str());
        let ghost t = texts(ex@).take(i + 1);
        assert(t.drop_last() =~= texts(ex@).take(i as int));
        assert(t.last() == ex@[i as int]@);
        assert(texts(r@) =~= head + exclude_flags(t));
        i = i + 1;
    }
    assert(texts(ex@).take(ex.len() as int) =~= texts(ex@));
    let mut from = src.to_string();
    from.append("/");
    let mut to = dst.to_string();
    to.append("/");
    let ghost mid = texts(r@);
    r.push(from);
    r.push(to);
    assert(texts(r@) =~= mid + seq![src@ + "/"@, dst@ + "/"@]);
    r
}

/// How the tests of a language are run.
#[derive(Clone, Copy, Debug, PartialEq, Eq, Structural)]
pub enum Runner {
    Rust,
    Cpp,
    Js,
    Java,
    Go,
    Python,
}

/// The runner for a language; python's for any language without one.
pub open spec fn runner_of(lang: Lang) -> Runner {
    match lang {
        Lang::Rust => Runner::Rust,
        Lang::Cpp | Lang::C => Runner::Cpp,
        Lang::JavaScript | Lang::TypeScript => Runner::Js,
        Lang::Java => Runner::Java,
        Lang::Go => Runner::Go,
        _ => Runner::Python,
    }
}

/// The runner for the language named `lang`.
pub fn runner_for(lang: &str) -> (r: Runner)
    ensures
        r == runner_of(lang_named(lang@)),
{
    match Lang::from_name(lang) {
        Lang::Rust => Runner::Rust,
        Lang::Cpp | Lang::C => Runner::Cpp,
        Lang::JavaScript | Lang::TypeScript => Runner::Js,
        Lang::Java => Runner::Java,
        Lang::Go => Runner::Go,
        _ => Runner::Python,
    }
}

// ---------------------------------------------------------------------------
// Test files
// ---------------------------------------------------------------------------

/// A Rust source with the tests appended in a test module.
pub open spec fn rust_test_source(code: Seq<char>, tests: Seq<char>) -> Seq<char> {
    code + "\n\n#[cfg(test)]\nmod tests {\n    use super::*;\n"@ + tests + "\n}"@
}

/// The Rust source that holds `code` and its tests.
pub fn rust_source_with_tests(code: &str, test_code: &str) -> (r: String)
    ensures
        r@ == rust_test_source(code@, test_code@),
{
    let mut out = chars_of(code);
    extend_str(&mut out, "\n\n#[cfg(test)]\nmod tests {\n    use super::*;\n");
    extend_str(&mut out, test_code);
    extend_str(&mut out, "\n}");
    string_of(&out)
}

/// Where pytest looks for the tests of a Python source: `test_<stem>.py`
/// beside it.
pub open spec fn python_test_path(p: Seq<char>) -> Seq<char> {
    path_join(parent_or_empty(p), "test_"@ + stem_or_empty(p) + ".py"@)
}

/// The relative path of the test file for a Python source.
pub fn python_test_rel_path(file_rel_path: &str) -> (r: String)
    ensures
        r@ == python_test_path(file_rel_path@),
{
    let mut name: Vec<char> = Vec::new();
    extend_str(&mut name, "test_");
    let stem = stem_chars(file_rel_path);
    extend_all(&mut name, &stem);
    extend_str(&mut name, ".py");
    let dir = parent_text(file_rel_path);
    let n = string_of(&name);
    join(dir.as_str(), n.as_str())
}

/// The extension of the Jest test file: `ts` for TypeScript, `js` otherwise.
pub open spec fn js_ext(lang: Seq<char>) -> Seq<char> {
    if lang == "typescript"@ {
        "ts"@
    } else {
        "js"@
    }
}

/// Where Jest looks for the tests of a source: `<stem>.test.<ext>` beside it.
pub open spec fn js_test_path(p: Seq<char>, lang: Seq<char>) -> Seq<char> {
    path_join(parent_or_empty(p), stem_or_empty(p) + ".test."@ + js_ext(lang))
}

/// The relative path of the test file for a JavaScript or TypeScript source.
pub fn js_test_rel_path(file_rel_path: &str, lang: &str) -> (r: String)
    ensures
        r@ == js_test_path(file_rel_path@, lang@),
{
    let mut name = stem_chars(file_rel_path);
    extend_str(&mut name, ".test.");
    if crate::text::same_text(lang, "typescript") {
        extend_str(&mut name, "ts");
    } else {
        extend_str(&mut name, "js");
    }
    let dir = parent_text(file_rel_path);
    let n = string_of(&name);
    join(dir.as_str(), n.as_str())
}

/// Where `go test` finds the tests of a source: `<stem>_test.go` beside it.
pub open spec fn go_test_path(p: Seq<char>) -> Seq<char> {
    path_join(parent_or_empty(p), stem_or_empty(p) + "_test.go"@)
}

/// The relative path of the test file for a Go source.
pub fn go_test_rel_path(file_rel_path: &str) -> (r: String)
    ensures
        r@ == go_test_path(file_rel_path@),
{
    let mut name = stem_chars(file_rel_path);
    extend_str(&mut name, "_test.go");
    let dir = parent_text(file_rel_path);
    let n = string_of(&name);
    join(dir.as_str(), n.as_str())
}

/// The first line of `ls` that declares a package, untrimmed.
pub open spec fn package_line(ls: Seq<Seq<char>>) -> Option<Seq<char>>
    decreases ls.len(),
{
    if ls.len() == 0 {
        None
    } else if "package "@.is_prefix_of(trim_start(ls[0])) {
        Some(ls[0])
    } else {
        package_line(ls.drop_first())
    }
}

/// The Go test source: the package line of the code (`package main` when it
/// has none), a blank line, and the tests.
pub open spec fn go_test_source(code: Seq<char>, tests: Seq<char>) -> Seq<char> {
    let pkg = match package_line(lines(code)) {
        Some(l) => l,
        None => "package main"@,
    };
    pkg + "\n\n"@ + tests
}

fn trim_start_from(v: &Vec<char>, lo: usize, hi: usize) -> (r: usize)
    requires
        lo <= hi <= v.len(),
    ensures
        lo <= r <= hi,
        v@.subrange(r as int, hi as int) == trim_start(v@.subrange(lo as int, hi as int)),
{
    let mut i = lo;
    while i < hi && crate::text::is_white_char(v[i])
        invariant
            lo <= i <= hi <= v.len(),
            trim_start(v@.subrange(lo as int, hi as int)) == trim_start(
                v@.subrange(i as int, hi as int),
            ),
        decreases hi - i,
    {
        assert(v@.subrange(i as int, hi as int).drop_first() =~= v@.subrange(i + 1, hi as int));
        i = i + 1;
    }
    i
}

/// The package line of the Go source `code`.
fn find_package_line(code: &Vec<char>) -> (r: Option<(usize, usize)>)
    ensures
        match r {
            Some((lo, hi)) => lo <= hi <= code.len() && package_line(lines(code@)) == Some(
                code@.subrange(lo as int, hi as int),
            ),
            None => package_line(lines(code@)) is None,
        },
{
    let v = code;
    let key = chars_of("package ");
    let mut pos: usize = 0;
    assert(v@.skip(0) =~= v@);
    while pos < v.len()
        invariant
            pos <= v.len(),
            v@ == code@,
            key@ == "package "@,
            package_line(lines(v@)) == package_line(lines(v@.skip(pos as int))),
        decreases v.len() - pos,
    {
        let ghost rest = lines(v@.skip(pos as int));
        let (end, found) = line_end(v, pos);
        let hi = if found && end > pos && v[end - 1] == '\r' {
            end - 1
        } else {
            end
        };
        assert(v@.subrange(pos as int, hi as int) == rest[0]) by {
            if found {
                if end > pos && v@[end - 1] == '\r' {
                    assert(v@.subrange(pos as int, end as int).drop_last() =~= v@.subrange(
                        pos as int,
                        hi as int,
                    ));
                }
            } else {
                assert(v@.skip(pos as int) =~= v@.subrange(pos as int, v.len() as int));
            }
        }
        let s = trim_start_from(v, pos, hi);
        let is_pkg = key.len() <= hi - s && has_at(v, s, &key);
        assert(is_pkg == "package "@.is_prefix_of(trim_start(rest[0]))) by {
            let t = v@.subrange(s as int, hi as int);
            if key@.len() <= hi - s {
                assert(v@.skip(s as int).subrange(0, key@.len() as int) =~= t.subrange(
                    0,
                    key@.len() as int,
                ));
            }
        }
        assert(rest.len() > 0);
        if is_pkg {
            assert(package_line(rest) == Some(rest[0]));
            assert(pos <= hi <= v.len());
            assert(package_line(lines(code@)) == Some(v@.subrange(pos as int, hi as int)));
            return Some((pos, hi));
        }
        assert(package_line(rest) == package_line(rest.drop_first()));
        assert(rest.drop_first() == lines(if found {
            v@.skip(end + 1)
        } else {
            v@.skip(v.len() as int)
        })) by {
            if found {
                assert(rest.drop_first() =~= lines(v@.skip(end + 1)));
            } else {
                assert(rest.drop_first() =~= Seq::<Seq<char>>::empty());
                assert(v@.skip(v.len() as int) =~= Seq::<char>::empty());
            }
        }
        pos = if found {
            end + 1
        } else {
            v.len()
        };
    }
    assert(v@.skip(pos as int) =~= Seq::<char>::empty());
    None
}

/// The Go test source for `code` and its tests.
pub fn go_source_with_tests(code: &str, test_code: &str) -> (r: String)
    ensures
        r@ == go_test_source(code@, test_code@),
{
    let v = chars_of(code);
    let mut out: Vec<char> = Vec::new();
    match find_package_line(&v) {
        Some((lo, hi)) => extend_range(&mut out, &v, lo, hi),
        None => extend_str(&mut out, "package main"),
    }
    extend_str(&mut out, "\n\n");
    extend_str(&mut out, test_code);
    string_of(&out)
}

/// The extension of a C or C++ test source: `c` for C, `cpp` otherwise.
pub open spec fn cpp_test_ext(lang: Seq<char>) -> Seq<char> {
    if lang == "c"@ {
        "c"@
    } else {
        "cpp"@
    }
}

/// The header beside a C or C++ source that receives the code.
pub open spec fn cpp_header_path(p: Seq<char>, lang: Seq<char>) -> Seq<char> {
    path_join(parent_or_empty(p), header_name(p, lang))
}

/// The test source beside a C or C++ source: `<stem>_test.<ext>`.
pub open spec fn cpp_test_path(p: Seq<char>, lang: Seq<char>) -> Seq<char> {
    path_join(parent_or_empty(p), stem_or_empty(p) + "_test."@ + cpp_test_ext(lang))
}

/// The name of the compiled test program: `<stem>_test_runner`.
pub open spec fn cpp_runner(p: Seq<char>) -> Seq<char> {
    stem_or_empty(p) + "_test_runner"@
}

/// The relative path of the header for a C or C++ source.
pub fn cpp_header_rel_path(file_rel_path: &str, lang: &str) -> (r: String)
    ensures
        r@ == cpp_header_path(file_rel_path@, lang@),
{
    let dir = parent_text(file_rel_path);
    let h = header_file_name(file_rel_path, lang);
    join(dir.as_str(), h.as_str())
}

/// The relative path of the test source for a C or C++ source.
pub fn cpp_test_rel_path(file_rel_path: &str, lang: &str) -> (r: String)
    ensures
        r@ == cpp_test_path(file_rel_path@, lang@),
{
    let mut name = stem_chars(file_rel_path);
    extend_str(&mut name, "_test.");
    if crate::text::same_text(lang, "c") {
        extend_str(&mut name, "c");
    } else {
        extend_str(&mut name, "cpp");
    }
    let dir = parent_text(file_rel_path);
    let n = string_of(&name);
    join(dir.as_str(), n.as_str())
}

/// The file name of the compiled C or C++ test program.
pub fn cpp_runner_name(file_rel_path: &str) -> (r: String)
    ensures
        r@ == cpp_runner(file_rel_path@),
{
    let mut name = stem_chars(file_rel_path);
    extend_str(&mut name, "_test_runner");
    string_of(&name)
}

// ---------------------------------------------------------------------------
// Running
// ---------------------------------------------------------------------------

/// The words of the test command: the program, then its arguments.
pub fn command_parts(test_cmd: &str) -> (r: Vec<String>)
    ensures
        texts(r@) == words(test_cmd@),
{
    let r = split_words(test_cmd);
    assert(texts(r@) =~= words(test_cmd@));
    r
}

/// A failed run with the given message.
pub fn fail(msg: &str) -> (r: TestResult)
    ensures
        !r.passed,
        r.output@ == msg@,
{
    TestResult { passed: false, output: msg.to_string() }
}

/// The failed run of an empty test command.
pub fn empty_command() -> (r: TestResult)
    ensures
        !r.passed,
        r.output@ == "empty test command"@,
{
    fail("empty test command")
}

/// The failed run of tests that did not compile, with the compiler's output.
pub fn compile_failure(output: &str) -> (r: TestResult)
    ensures
        !r.passed,
        r.output@ == "compilation failed: "@ + output@,
{
    let mut v: Vec<char> = Vec::new();
    extend_str(&mut v, "compilation failed: ");
    extend_str(&mut v, output);
    TestResult { passed: false, output: string_of(&v) }
}

/// What a finished test program printed: its standard output, followed by a
/// line break and its error output when that is not empty.
pub open spec fn combined_output(stdout: Seq<char>, stderr: Seq<char>) -> Seq<char> {
    if stderr.len() == 0 {
        stdout
    } else {
        stdout + seq!['\n'] + stderr
    }
}

/// Whether a text of more than `max_len` bytes can be cut after `max_len`
/// bytes without splitting a character.
pub open spec fn can_cut(s: Seq<char>, max_len: usize) -> bool {
    encode_utf8(s).len() <= max_len || vstd::utf8::is_char_boundary(encode_utf8(s), max_len as int)
}

/// `s` cut to its first `max_len` bytes, with a mark, when it is longer.
pub open spec fn truncated(s: Seq<char>, max_len: usize) -> Seq<u8> {
    if encode_utf8(s).len() <= max_len {
        encode_utf8(s)
    } else {
        encode_utf8(s).take(max_len as int) + encode_utf8("...[truncated]"@)
    }
}

/// `s` itself if it takes at most `max_len` bytes; otherwise its first
/// `max_len` bytes followed by `...[truncated]`. Cutting inside a character
/// would panic, so `max_len` must fall on a character boundary.
pub fn truncate(s: &str, max_len: usize) -> (r: String)
    requires
        can_cut(s@, max_len),
    ensures
        encode_utf8(r@) == truncated(s@, max_len),
{
    let len = s.as_bytes().len();
    if len <= max_len {
        s.to_string()
    } else {
        let (head, _tail) = s.split_at(max_len);
        let mut r = head.to_string();
        r.append("...[truncated]");
        proof {
            lemma_encode_concat(head@, "...[truncated]"@);
        }
        r
    }
}

/// The most output that a test result keeps, in bytes.
pub const MAX_OUTPUT: usize = 500;

/// The result of a test program that ran to its end.
pub fn finished_run(success: bool, stdout: &str, stderr: &str) -> (r: TestResult)
    requires
        can_cut(combined_output(stdout@, stderr@), MAX_OUTPUT),
    ensures
        r.passed == success,
        encode_utf8(r.output@) == truncated(combined_output(stdout@, stderr@), MAX_OUTPUT),
{
    proof {
        reveal_strlit("\n");
    }
    let combined = if stderr.is_empty() {
        stdout.to_string()
    } else {
        let mut c = stdout.to_string();
        c.append("\n");
        c.append(stderr);
        c
    };
    assert(combined@ =~= combined_output(stdout@, stderr@));
    let output = truncate(combined.as_str(), MAX_OUTPUT);
    TestResult { passed: success, output }
}

// ---------------------------------------------------------------------------
// The plan of a test run
// ---------------------------------------------------------------------------

/// A command-line argument: plain text, or a path inside the working copy
/// (the copy's root joined with it; the root itself when it is empty).
#[derive(Debug, PartialEq, Eq)]
pub enum Arg {
    Text(String),
    InCopy(String),
}

/// A program to run in the working copy, with its arguments and at most one
/// environment variable.
#[derive(Debug)]
pub struct Invocation {
    pub program: Arg,
    pub args: Vec<Arg>,
    pub env: Option<(String, Arg)>,
}

/// A file to write into the working copy, and the message of the failed run
/// when it cannot be written.
#[derive(Debug)]
pub struct FileWrite {
    pub rel_path: String,
    pub contents: String,
    pub failure: String,
}

/// How the tests run once the files are written.
#[derive(Debug)]
pub enum RunSteps {
    /// Run the test command.
    Tests(Invocation),
    /// Compile the tests, then run the program; a failed compile fails the run
    /// with `compilation failed: ` and its output.
    CompileThenRun(Invocation, Invocation),
    /// The test command has no words: the run fails with
    /// `empty test command`.
    EmptyCommand,
}

/// What a test run does: write the files in order (stopping at the first that
/// cannot be written), then take the steps.
#[derive(Debug)]
pub struct TestPlan {
    pub writes: Vec<FileWrite>,
    pub steps: RunSteps,
}

/// An argument by its characters.
pub ghost enum ArgModel {
    Text(Seq<char>),
    InCopy(Seq<char>),
}

/// An invocation by its characters.
pub ghost struct InvocationModel {
    pub program: ArgModel,
    pub args: Seq<ArgModel>,
    pub env: Option<(Seq<char>, ArgModel)>,
}

/// A file write by its characters.
pub ghost struct WriteModel {
    pub rel_path: Seq<char>,
    pub contents: Seq<char>,
    pub failure: Seq<char>,
}

/// The steps of a run by their characters.
pub ghost enum StepsModel {
    Tests(InvocationModel),
    CompileThenRun(InvocationModel, InvocationModel),
    EmptyCommand,
}

/// A test plan by its characters.
pub ghost struct PlanModel {
    pub writes: Seq<WriteModel>,
    pub steps: StepsModel,
}

impl View for Arg {
    type V = ArgModel;

    open spec fn view(&self) -> ArgModel {
        match self {
            Arg::Text(s) => ArgModel::Text(s@),
            Arg::InCopy(s) => ArgModel::InCopy(s@),
        }
    }
}

/// Arguments by their characters.
pub open spec fn args_view(args: Seq<Arg>) -> Seq<ArgModel> {
    args.map_values(|a: Arg| a@)
}

impl View for Invocation {
    type V = InvocationModel;

    open spec fn view(&self) -> InvocationModel {
        InvocationModel {
            program: self.program@,
            args: args_view(self.args@),
            env: match self.env {
                Some((k, v)) => Some((k@, v@)),
                None => None,
            },
        }
    }
}

impl View for FileWrite {
    type V = WriteModel;

    open spec fn view(&self) -> WriteModel {
        WriteModel { rel_path: self.rel_path@, contents: self.contents@, failure: self.failure@ }
    }
}

impl View for RunSteps {
    type V = StepsModel;

    open spec fn view(&self) -> StepsModel {
        match self {
            RunSteps::Tests(i) => StepsModel::Tests(i@),
            RunSteps::CompileThenRun(c, r) => StepsModel::CompileThenRun(c@, r@),
            RunSteps::EmptyCommand => StepsModel::EmptyCommand,
        }
    }
}

impl View for TestPlan {
    type V = PlanModel;

    open spec fn view(&self) -> PlanModel {
        PlanModel { writes: self.writes@.map_values(|w: FileWrite| w@), steps: self.steps@ }
    }
}

/// The message of a run whose source could not be written.
pub open spec fn source_failure(runner: Runner) -> Seq<char> {
    if runner == Runner::Cpp {
        "failed to write source header"@
    } else {
        "failed to write source"@
    }
}

/// The files a run writes: the code (for C and C++ into the header, for Rust
/// together with the tests), then the tests where they have a file of their
/// own.
pub open spec fn planned_writes(
    runner: Runner,
    lang: Seq<char>,
    p: Seq<char>,
    code: Seq<char>,
    tests: Seq<char>,
) -> Seq<WriteModel> {
    let tests_failure = "failed to write tests"@;
    match runner {
        Runner::Rust => seq![
            WriteModel {
                rel_path: p,
                contents: rust_test_source(code, tests),
                failure: source_failure(runner),
            },
        ],
        Runner::Python => seq![
            WriteModel { rel_path: p, contents: code, failure: source_failure(runner) },
            WriteModel { rel_path: python_test_path(p), contents: tests, failure: tests_failure },
        ],
        Runner::Js => seq![
            WriteModel { rel_path: p, contents: code, failure: source_failure(runner) },
            WriteModel { rel_path: js_test_path(p, lang), contents: tests, failure: tests_failure },
        ],
        Runner::Java => seq![
            WriteModel { rel_path: p, contents: code, failure: source_failure(runner) },
            WriteModel { rel_path: java_test_path(p), contents: tests, failure: tests_failure },
        ],
        Runner::Go => seq![
            WriteModel { rel_path: p, contents: code, failure: source_failure(runner) },
            WriteModel {
                rel_path: go_test_path(p),
                contents: go_test_source(code, tests),
                failure: tests_failure,
            },
        ],
        Runner::Cpp => seq![
            WriteModel {
                rel_path: cpp_header_path(p, lang),
                contents: code,
                failure: source_failure(runner),
            },
            WriteModel { rel_path: cpp_test_path(p, lang), contents: tests, failure: tests_failure },
        ],
    }
}

/// Words as plain arguments.
pub open spec fn text_args(ws: Seq<Seq<char>>) -> Seq<ArgModel> {
    ws.map_values(|w: Seq<char>| ArgModel::Text(w))
}

/// The test command (its first word the program) with `extra` arguments after
/// its own.
pub open spec fn command_with(
    ws: Seq<Seq<char>>,
    extra: Seq<ArgModel>,
    env: Option<(Seq<char>, ArgModel)>,
) -> InvocationModel {
    InvocationModel { program: ArgModel::Text(ws[0]), args: text_args(ws.skip(1)) + extra, env }
}

/// The steps of a run: pytest gets the test file, quiet short tracebacks and
/// the copy on `PYTHONPATH`; Jest runs without its cache; `go test` gets the
/// package directory; C and C++ tests are compiled into a program that then
/// runs; Rust and Java run the command as it is.
pub open spec fn planned_steps(
    runner: Runner,
    lang: Seq<char>,
    p: Seq<char>,
    ws: Seq<Seq<char>>,
) -> StepsModel {
    if ws.len() == 0 {
        StepsModel::EmptyCommand
    } else {
        match runner {
            Runner::Rust | Runner::Java => StepsModel::Tests(command_with(ws, Seq::empty(), None)),
            Runner::Python => StepsModel::Tests(
                command_with(
                    ws,
                    seq![
                        ArgModel::InCopy(python_test_path(p)),
                        ArgModel::Text("--tb=short"@),
                        ArgModel::Text("-q"@),
                    ],
                    Some(("PYTHONPATH"@, ArgModel::InCopy(Seq::empty()))),
                ),
            ),
            Runner::Js => StepsModel::Tests(
                command_with(ws, seq![ArgModel::Text("--no-cache"@)], None),
            ),
            Runner::Go => StepsModel::Tests(
                command_with(ws, seq![ArgModel::InCopy(parent_or_empty(p))], None),
            ),
            Runner::Cpp => StepsModel::CompileThenRun(
                command_with(
                    ws,
                    seq![
                        ArgModel::Text("-o"@),
                        ArgModel::InCopy(cpp_runner(p)),
                        ArgModel::InCopy(cpp_test_path(p, lang)),
                    ],
                    None,
                ),
                InvocationModel {
                    program: ArgModel::InCopy(cpp_runner(p)),
                    args: Seq::empty(),
                    env: None,
                },
            ),
        }
    }
}

/// The plan of a test run of `tests` against `code`, a source at `p` in the
/// language named `lang`, with the test command `cmd`.
pub open spec fn test_plan(
    lang: Seq<char>,
    p: Seq<char>,
    cmd: Seq<char>,
    code: Seq<char>,
    tests: Seq<char>,
) -> PlanModel {
    let runner = runner_of(lang_named(lang));
    PlanModel {
        writes: planned_writes(runner, lang, p, code, tests),
        steps: planned_steps(runner, lang, p, words(cmd)),
    }
}

/// A plan runs what it writes. The code is written first, in place of the
/// source (C and C++: into the header beside it; Rust: with the tests after
/// it); the tests go into a second file, except for Rust. The test command's
/// first word is the program; pytest is given the written test file and the
/// copy on `PYTHONPATH`, `go test` the source's directory, and C and C++
/// compile the written test file into a program that is then the one that
/// runs. A command without words plans no run.
pub proof fn lemma_plan_runs_what_it_writes(
    lang: Seq<char>,
    p: Seq<char>,
    cmd: Seq<char>,
    code: Seq<char>,
    tests: Seq<char>,
)
    ensures
        ({
            let plan = test_plan(lang, p, cmd, code, tests);
            let ws = plan.writes;
            let r = runner_of(lang_named(lang));
            let n = words(cmd).len();
            &&& r == Runner::Rust ==> ws.len() == 1 && ws[0].rel_path == p
                && code.is_prefix_of(ws[0].contents)
            &&& r != Runner::Rust ==> ws.len() == 2 && ws[0].contents == code
            &&& r != Runner::Rust && r != Runner::Cpp ==> ws[0].rel_path == p
            &&& r != Runner::Rust && r != Runner::Go ==> ws[1].contents == tests
            &&& r == Runner::Go ==> tests.is_suffix_of(ws[1].contents)
            &&& n == 0 ==> plan.steps == StepsModel::EmptyCommand
            &&& n > 0 && r == Runner::Python ==> (plan.steps matches StepsModel::Tests(inv) && {
                &&& inv.program == ArgModel::Text(words(cmd)[0])
                &&& inv.args.len() == n + 2
                &&& inv.args[n - 1] == ArgModel::InCopy(ws[1].rel_path)
                &&& inv.env == Some(("PYTHONPATH"@, ArgModel::InCopy(Seq::empty())))
            })
            &&& n > 0 && r == Runner::Go ==> (plan.steps matches StepsModel::Tests(inv) && {
                &&& inv.program == ArgModel::Text(words(cmd)[0])
                &&& inv.args.last() == ArgModel::InCopy(parent_or_empty(p))
            })
            &&& n > 0 && r == Runner::Cpp ==> (plan.steps matches StepsModel::CompileThenRun(
                compile,
                run,
            ) && {
                &&& compile.program == ArgModel::Text(words(cmd)[0])
                &&& compile.args.len() == n + 2
                &&& compile.args[n - 1] == ArgModel::Text("-o"@)
                &&& compile.args[n + 1int] == ArgModel::InCopy(ws[1].rel_path)
                &&& run.program == compile.args[n as int]
                &&& run.args.len() == 0
            })
        }),
{
    let plan = test_plan(lang, p, cmd, code, tests);
    let r = runner_of(lang_named(lang));
    if r == Runner::Rust {
        assert(code.is_prefix_of(plan.writes[0].contents)) by {
            let c = rust_test_source(code, tests);
            assert(c.subrange(0, code.len() as int) =~= code);
        }
    }
    if r == Runner::Go {
        let g = go_test_source(code, tests);
        assert(g.subrange(g.len() - tests.len(), g.len() as int) =~= tests);
    }
}

fn write_of(rel_path: String, contents: String, failure: &str) -> (w: FileWrite)
    ensures
        w@ == (WriteModel { rel_path: rel_path@, contents: contents@, failure: failure@ }),
{
    FileWrite { rel_path, contents, failure: failure.to_string() }
}

fn text_arg(s: &str) -> (a: Arg)
    ensures
        a@ == ArgModel::Text(s@),
{
    Arg::Text(s.to_string())
}

/// The test command with `extra` arguments after its own.
fn command_from(ws: &Vec<String>, extra: Vec<Arg>, env: Option<(String, Arg)>) -> (i: Invocation)
    requires
        ws@.len() > 0,
    ensures
        i@ == command_with(
            texts(ws@),
            args_view(extra@),
            match env {
                Some((k, v)) => Some((k@, v@)),
                None => None,
            },
        ),
{
    let mut args: Vec<Arg> = Vec::new();
    let mut k: usize = 1;
    while k < ws.len()
        invariant
            1 <= k <= ws.len(),
            args_view(args@) == text_args(texts(ws@).subrange(1, k as int)),
        decreases ws.len() - k,
    {
        let ghost before = args@;
        args.push(Arg::Text(ws[k].clone()));
        assert(args_view(args@) =~= args_view(before).push(ArgModel::Text(ws@[k as int]@)));
        assert(texts(ws@).subrange(1, k + 1) =~= texts(ws@).subrange(1, k as int).push(ws@[k as int]@));
        assert(text_args(texts(ws@).subrange(1, k + 1)) =~= text_args(texts(ws@).subrange(1, k as int)).push(ArgModel::Text(ws@[k as int]@)));
        k = k + 1;
    }
    let ghost own = args@;
    let mut extra = extra;
    let ghost extra0 = extra@;
    args.append(&mut extra);
    assert(args_view(args@) =~= args_view(own) + args_view(extra0));
    assert(texts(ws@).subrange(1, ws@.len() as int) =~= texts(ws@).skip(1));
    Invocation { program: Arg::Text(ws[0].clone()), args, env }
}

/// The plan of a test run of `test_code` against `code`, a source at
/// `file_rel_path` in the language named `lang`, with the test command
/// `test_cmd`.
pub fn plan_test_run(
    lang: &str,
    file_rel_path: &str,
    test_cmd: &str,
    code: &str,
    test_code: &str,
) -> (plan: TestPlan)
    ensures
        plan@ == test_plan(lang@, file_rel_path@, test_cmd@, code@, test_code@),
{
    let runner = runner_for(lang);
    let rel = file_rel_path.to_string();
    let mut writes: Vec<FileWrite> = Vec::new();
    match runner {
        Runner::Rust => {
            writes.push(write_of(rel, rust_source_with_tests(code, test_code), "failed to write source"));
        },
        Runner::Python => {
            writes.push(write_of(rel, code.to_string(), "failed to write source"));
            writes.push(write_of(python_test_rel_path(file_rel_path), test_code.to_string(), "failed to write tests"));
        },
        Runner::Js => {
            writes.push(write_of(rel, code.to_string(), "failed to write source"));
            writes.push(write_of(js_test_rel_path(file_rel_path, lang), test_code.to_string(), "failed to write tests"));
        },
        Runner::Java => {
            writes.push(write_of(rel, code.to_string(), "failed to write source"));
            writes.push(write_of(java_test_rel_path(file_rel_path), test_code.to_string(), "failed to write tests"));
        },
        Runner::Go => {
            writes.push(write_of(rel, code.to_string(), "failed to write source"));
            writes.push(write_of(go_test_rel_path(file_rel_path), go_source_with_tests(code, test_code), "failed to write tests"));
        },
        Runner::Cpp => {
            writes.push(write_of(cpp_header_rel_path(file_rel_path, lang), code.to_string(), "failed to write source header"));
            writes.push(write_of(cpp_test_rel_path(file_rel_path, lang), test_code.to_string(), "failed to write tests"));
        },
    }
    let ghost lang_v = lang@;
    assert(writes@.map_values(|w: FileWrite| w@) =~= planned_writes(runner, lang@, file_rel_path@, code@, test_code@));
    let ws = command_parts(test_cmd);
    let steps = if ws.len() == 0 {
        RunSteps::EmptyCommand
    } else {
        match runner {
            Runner::Rust | Runner::Java => {
                let none: Vec<Arg> = Vec::new();
                assert(args_view(none@) =~= Seq::<ArgModel>::empty());
                let i = command_from(&ws, none, None);
                RunSteps::Tests(i)
            },
            Runner::Python => {
                let mut extra: Vec<Arg> = Vec::new();
                extra.push(Arg::InCopy(python_test_rel_path(file_rel_path)));
                extra.push(text_arg("--tb=short"));
                extra.push(text_arg("-q"));
                let ghost e = extra@;
                let i = command_from(&ws, extra, Some(("PYTHONPATH".to_string(), Arg::InCopy(String::new()))));
                assert(args_view(e) =~= seq![
                    ArgModel::InCopy(python_test_path(file_rel_path@)),
                    ArgModel::Text("--tb=short"@),
                    ArgModel::Text("-q"@),
                ]);
                RunSteps::Tests(i)
            },
            Runner::Js => {
                let mut extra: Vec<Arg> = Vec::new();
                extra.push(text_arg("--no-cache"));
                let ghost e = extra@;
                let i = command_from(&ws, extra, None);
                assert(args_view(e) =~= seq![ArgModel::Text("--no-cache"@)]);
                RunSteps::Tests(i)
            },
            Runner::Go => {
                let mut extra: Vec<Arg> = Vec::new();
                extra.push(Arg::InCopy(parent_text(file_rel_path)));
                let ghost e = extra@;
                let i = command_from(&ws, extra, None);
                assert(args_view(e) =~= seq![ArgModel::InCopy(parent_or_empty(file_rel_path@))]);
                RunSteps::Tests(i)
            },
            Runner::Cpp => {
                let mut extra: Vec<Arg> = Vec::new();
                extra.push(text_arg("-o"));
                extra.push(Arg::InCopy(cpp_runner_name(file_rel_path)));
                extra.push(Arg::InCopy(cpp_test_rel_path(file_rel_path, lang)));
                let ghost e = extra@;
                let compile = command_from(&ws, extra, None);
                assert(args_view(e) =~= seq![
                    ArgModel::Text("-o"@),
                    ArgModel::InCopy(cpp_runner(file_rel_path@)),
                    ArgModel::InCopy(cpp_test_path(file_rel_path@, lang@)),
                ]);
                let run = Invocation {
                    program: Arg::InCopy(cpp_runner_name(file_rel_path)),
                    args: Vec::new(),
                    env: None,
                };
                assert(args_view(run.args@) =~= Seq::<ArgModel>::empty());
                RunSteps::CompileThenRun(compile, run)
            },
        }
    };
    TestPlan { writes, steps }
}

} // verus!
