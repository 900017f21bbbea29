//! The project configuration and what is read off it: which files the tool
//! looks at, the language of a file, the test command and the timeout.
use vstd::prelude::*;
use crate::lang::{Lang, lang_named};
use crate::path::{extension, last_index, path_extension};
use crate::text::{chars_of, copy_range, same_chars};

verus! {

broadcast use vstd::string::group_string_axioms;

/// The settings a project gives in its configuration file; each is optional.
#[derive(Debug)]
pub struct Config {
    pub lang: Option<String>,
    pub test_cmd: Option<String>,
    pub module_name: Option<String>,
    pub timeout: Option<u32>,
    pub includes: Option<Vec<String>>,
    pub exclude: Option<Vec<String>>,
}

impl Default for Config {
    fn default() -> (c: Self)
        ensures
            c.lang is None,
            c.test_cmd is None,
            c.module_name is None,
            c.timeout is None,
            c.includes is None,
            c.exclude is None,
    {
        Config {
            lang: None,
            test_cmd: None,
            module_name: None,
            timeout: None,
            includes: None,
            exclude: None,
        }
    }
}

// ---------------------------------------------------------------------------
// Selecting files
// ---------------------------------------------------------------------------

/// Whether the glob `pattern` matches `path`, as `glob_match::glob_match`
/// decides it.
pub uninterp spec fn glob_matches(pattern: Seq<char>, path: Seq<char>) -> bool;

/// Calls `glob_match::glob_match(pattern, path)`. The contract claims only
/// that its answer depends on the two texts alone; which paths a pattern
/// matches is left to the crate.
#[verifier::external_body]
fn glob(pattern: &str, path: &str) -> (r: bool)
    ensures
        r == glob_matches(pattern@, path@),
{
    glob_match::glob_match(pattern, path)
}

/// Whether one of `patterns` matches `path`.
pub open spec fn any_glob(patterns: Seq<String>, path: Seq<char>) -> bool {
    exists|i: int| 0 <= i < patterns.len() && #[trigger] glob_matches(patterns[i]@, path)
}

/// A file is selected when no exclude pattern matches it and, where there is
/// an include list, one of its patterns does.
pub open spec fn selected(path: Seq<char>, config: &Config) -> bool {
    &&& match config.exclude {
        Some(ex) => !any_glob(ex@, path),
        None => true,
    }
    &&& match config.includes {
        Some(inc) => any_glob(inc@, path),
        None => true,
    }
}

/// Whether one of `patterns` matches `path`.
fn matches_any(patterns: &Vec<String>, path: &str) -> (r: bool)
    ensures
        r == any_glob(patterns@, path@),
{
    let mut i: usize = 0;
    while i < patterns.len()
        invariant
            0 <= i <= patterns.len(),
            forall|j: int| 0 <= j < i ==> !#[trigger] glob_matches(patterns@[j]@, path@),
        decreases patterns.len() - i,
    {
        if glob(patterns[i].as_str(), path) {
            return true;
        }
        i = i + 1;
    }
    false
}

/// The selection rule, from whether an exclude pattern matched and, where
/// there is an include list, whether one of its patterns matched.
pub fn decide_selection(excluded: bool, included: Option<bool>) -> (r: bool)
    ensures
        r == (!excluded && match included {
            Some(hit) => hit,
            None => true,
        }),
{
    if excluded {
        return false;
    }
    match included {
        Some(hit) => hit,
        None => true,
    }
}

/// Whether the tool looks at the file at `file_path` (relative to the
/// project): excluded files never, then included ones, or all when there is
/// no include list.
pub fn file_matches(file_path: &str, config: &Config) -> (r: bool)
    ensures
        r == selected(file_path@, config),
{
    let excluded = match &config.exclude {
        Some(excludes) => matches_any(excludes, file_path),
        None => false,
    };
    if excluded {
        return decide_selection(true, None);
    }
    let included = match &config.includes {
        Some(includes) => Some(matches_any(includes, file_path)),
        None => None,
    };
    decide_selection(false, included)
}

/// A file that an exclude pattern matches is never selected, whatever the
/// include list says.
pub proof fn lemma_exclude_wins(path: Seq<char>, config: &Config, i: int)
    requires
        config.exclude matches Some(ex) && 0 <= i < ex@.len() && glob_matches(ex@[i]@, path),
    ensures
        !selected(path, config),
{
}

/// Where there is an include list, a file that none of its patterns matches
/// is never selected, whatever the exclude list.
pub proof fn lemma_include_list_limits(path: Seq<char>, config: &Config)
    requires
        config.includes matches Some(inc) && forall|i: int|
            0 <= i < inc@.len() ==> !#[trigger] glob_matches(inc@[i]@, path),
    ensures
        !selected(path, config),
{
}

/// A file that no exclude pattern matches is selected when one pattern of
/// the include list matches it, or when there is no include list.
pub proof fn lemma_included_is_selected(path: Seq<char>, config: &Config)
    requires
        config.exclude matches Some(ex) ==> forall|i: int|
            0 <= i < ex@.len() ==> !#[trigger] glob_matches(ex@[i]@, path),
        config.includes matches Some(inc) ==> exists|i: int|
            0 <= i < inc@.len() && #[trigger] glob_matches(inc@[i]@, path),
    ensures
        selected(path, config),
{
}

/// Without include and exclude lists every file is selected.
pub proof fn lemma_no_lists_select_all(path: Seq<char>, config: &Config)
    requires
        config.exclude is None,
        config.includes is None,
    ensures
        selected(path, config),
{
}

// ---------------------------------------------------------------------------
// Language, test command, timeout
// ---------------------------------------------------------------------------

/// What follows the last `.` of a path, or all of it when it has none.
pub open spec fn extension_of(path: Seq<char>) -> Seq<char> {
    path.skip(last_index(path, '.') + 1)
}

/// The language that a file extension stands for; python where none does.
pub open spec fn lang_for_extension(ext: Seq<char>) -> Seq<char> {
    if ext == "py"@ {
        "python"@
    } else if ext == "rs"@ {
        "rust"@
    } else if ext == "js"@ {
        "javascript"@
    } else if ext == "ts"@ {
        "typescript"@
    } else if ext == "go"@ {
        "go"@
    } else if ext == "java"@ {
        "java"@
    } else if ext == "c"@ {
        "c"@
    } else if ext == "cpp"@ || ext == "cc"@ || ext == "cxx"@ || ext == "hpp"@ || ext == "hxx"@
        || ext == "h"@ {
        "cpp"@
    } else {
        "python"@
    }
}

/// The last `.` of a path that ends in `.` and a text without `.` is that
/// `.`.
proof fn lemma_last_dot(q: Seq<char>, ext: Seq<char>)
    requires
        forall|i: int| 0 <= i < ext.len() ==> ext[i] != '.',
    ensures
        last_index(q + seq!['.'] + ext, '.') == q.len(),
        extension_of(q + seq!['.'] + ext) == ext,
    decreases ext.len(),
{
    let p = q + seq!['.'] + ext;
    if ext.len() > 0 {
        lemma_last_dot(q, ext.drop_last());
        assert(p.drop_last() =~= q + seq!['.'] + ext.drop_last());
        assert(p.last() == ext.last());
    }
    assert(p.skip(q.len() + 1int) =~= ext);
}

/// The languages that file extensions stand for, for a path ending in `.`
/// and the extension: `py` is python, `rs` rust, `js` javascript, `ts`
/// typescript, `go` go, `java` java, `c` c, and each of `cpp`, `cc`, `cxx`,
/// `hpp`, `hxx` and `h` is cpp; any other extension is python.
pub proof fn lemma_extension_table(q: Seq<char>, ext: Seq<char>)
    requires
        forall|i: int| 0 <= i < ext.len() ==> ext[i] != '.',
    ensures
        ({
            let lang = lang_for_extension(extension_of(q + seq!['.'] + ext));
            &&& ext == "py"@ ==> lang == "python"@
            &&& ext == "rs"@ ==> lang == "rust"@
            &&& ext == "js"@ ==> lang == "javascript"@
            &&& ext == "ts"@ ==> lang == "typescript"@
            &&& ext == "go"@ ==> lang == "go"@
            &&& ext == "java"@ ==> lang == "java"@
            &&& ext == "c"@ ==> lang == "c"@
            &&& ext == "cpp"@ ==> lang == "cpp"@
            &&& ext == "cc"@ ==> lang == "cpp"@
            &&& ext == "cxx"@ ==> lang == "cpp"@
            &&& ext == "hpp"@ ==> lang == "cpp"@
            &&& ext == "hxx"@ ==> lang == "cpp"@
            &&& ext == "h"@ ==> lang == "cpp"@
            &&& (ext != "py"@ && ext != "rs"@ && ext != "js"@ && ext != "ts"@ && ext != "go"@
                && ext != "java"@ && ext != "c"@ && ext != "cpp"@ && ext != "cc"@ && ext
                != "cxx"@ && ext != "hpp"@ && ext != "hxx"@ && ext != "h"@) ==> lang
                == "python"@
        }),
{
    lemma_last_dot(q, ext);
    reveal_strlit("py");
    reveal_strlit("rs");
    reveal_strlit("js");
    reveal_strlit("ts");
    reveal_strlit("go");
    reveal_strlit("java");
    reveal_strlit("c");
    reveal_strlit("cpp");
    reveal_strlit("cc");
    reveal_strlit("cxx");
    reveal_strlit("hpp");
    reveal_strlit("hxx");
    reveal_strlit("h");
    reveal_strlit("python");
    reveal_strlit("rust");
    reveal_strlit("javascript");
    reveal_strlit("typescript");
    assert("py"@ =~= seq!['p', 'y']);
    assert("rs"@ =~= seq!['r', 's']);
    assert("js"@ =~= seq!['j', 's']);
    assert("ts"@ =~= seq!['t', 's']);
    assert("go"@ =~= seq!['g', 'o']);
    assert("java"@ =~= seq!['j', 'a', 'v', 'a']);
    assert("c"@ =~= seq!['c']);
    assert("cpp"@ =~= seq!['c', 'p', 'p']);
    assert("cc"@ =~= seq!['c', 'c']);
    assert("cxx"@ =~= seq!['c', 'x', 'x']);
    assert("hpp"@ =~= seq!['h', 'p', 'p']);
    assert("hxx"@ =~= seq!['h', 'x', 'x']);
    assert("h"@ =~= seq!['h']);
}

/// A path without `.` is its own extension.
pub proof fn lemma_no_dot_extension(p: Seq<char>)
    requires
        forall|i: int| 0 <= i < p.len() ==> p[i] != '.',
    ensures
        last_index(p, '.') == -1,
        extension_of(p) == p,
    decreases p.len(),
{
    if p.len() > 0 {
        lemma_no_dot_extension(p.drop_last());
    }
    assert(p.skip(0) =~= p);
}

/// Whether `v` holds exactly the text `lit`.
pub fn chars_are(v: &Vec<char>, lit: &str) -> (r: bool)
    ensures
        r == (v@ == lit@),
{
    let l = chars_of(lit);
    same_chars(v, &l)
}

/// The language of the file at `file_path`, by its extension.
pub fn lang_from_path(file_path: &str) -> (lang: &'static str)
    ensures
        lang@ == lang_for_extension(extension_of(file_path@)),
{
    let p = chars_of(file_path);
    let mut j = p.len();
    assert(p@.take(j as int) =~= p@);
    while j > 0 && p[j - 1] != '.'
        invariant
            j <= p.len(),
            last_index(p@, '.') == last_index(p@.take(j as int), '.'),
        decreases j,
    {
        assert(p@.take(j as int).drop_last() =~= p@.take(j - 1));
        j = j - 1;
    }
    let ext = copy_range(&p, j, p.len());
    assert(ext@ =~= extension_of(file_path@));
    if chars_are(&ext, "py") {
        "python"
    } else if chars_are(&ext, "rs") {
        "rust"
    } else if chars_are(&ext, "js") {
        "javascript"
    } else if chars_are(&ext, "ts") {
        "typescript"
    } else if chars_are(&ext, "go") {
        "go"
    } else if chars_are(&ext, "java") {
        "java"
    } else if chars_are(&ext, "c") {
        "c"
    } else if chars_are(&ext, "cpp") || chars_are(&ext, "cc") || chars_are(&ext, "cxx")
        || chars_are(&ext, "hpp") || chars_are(&ext, "hxx") || chars_are(&ext, "h") {
        "cpp"
    } else {
        "python"
    }
}

/// The test command a language gets when the configuration names none.
pub open spec fn default_cmd(lang: Lang) -> Seq<char> {
    match lang {
        Lang::Rust => "cargo test"@,
        Lang::JavaScript | Lang::TypeScript => "npx jest"@,
        Lang::Java => "mvn test"@,
        Lang::Cpp => "g++ -std=c++17"@,
        Lang::C => "gcc -std=c17"@,
        Lang::Go => "go test"@,
        _ => "pytest"@,
    }
}

/// The test command each language runs when the configuration names none:
/// `cargo test` for rust, `npx jest` for javascript and typescript, `mvn test`
/// for java, `g++ -std=c++17` for cpp, `gcc -std=c17` for c, `go test` for
/// go, and `pytest` for python and any other name.
pub proof fn lemma_default_command_table(name: Seq<char>)
    ensures
        ({
            let cmd = default_cmd(lang_named(name));
            &&& name == "rust"@ ==> cmd == "cargo test"@
            &&& name == "javascript"@ ==> cmd == "npx jest"@
            &&& name == "typescript"@ ==> cmd == "npx jest"@
            &&& name == "java"@ ==> cmd == "mvn test"@
            &&& name == "cpp"@ ==> cmd == "g++ -std=c++17"@
            &&& name == "c"@ ==> cmd == "gcc -std=c17"@
            &&& name == "go"@ ==> cmd == "go test"@
            &&& (name != "rust"@ && name != "javascript"@ && name != "typescript"@ && name
                != "java"@ && name != "cpp"@ && name != "c"@ && name != "go"@) ==> cmd
                == "pytest"@
        }),
{
    reveal_strlit("python");
    reveal_strlit("rust");
    reveal_strlit("javascript");
    reveal_strlit("typescript");
    reveal_strlit("go");
    reveal_strlit("java");
    reveal_strlit("cpp");
    reveal_strlit("c");
    assert("python"@ =~= seq!['p', 'y', 't', 'h', 'o', 'n']);
    assert("rust"@ =~= seq!['r', 'u', 's', 't']);
    assert("javascript"@ =~= seq!['j', 'a', 'v', 'a', 's', 'c', 'r', 'i', 'p', 't']);
    assert("typescript"@ =~= seq!['t', 'y', 'p', 'e', 's', 'c', 'r', 'i', 'p', 't']);
    assert("go"@ =~= seq!['g', 'o']);
    assert("java"@ =~= seq!['j', 'a', 'v', 'a']);
    assert("cpp"@ =~= seq!['c', 'p', 'p']);
    assert("c"@ =~= seq!['c']);
}

/// The default test command of the language named `lang`.
pub fn default_test_cmd(lang: &str) -> (cmd: &'static str)
    ensures
        cmd@ == default_cmd(lang_named(lang@)),
{
    match Lang::from_name(lang) {
        Lang::Rust => "cargo test",
        Lang::JavaScript | Lang::TypeScript => "npx jest",
        Lang::Java => "mvn test",
        Lang::Cpp => "g++ -std=c++17",
        Lang::C => "gcc -std=c17",
        Lang::Go => "go test",
        _ => "pytest",
    }
}

/// The test command: the configured one, else the language's default.
pub fn test_cmd_for_lang(config: &Config, lang: &str) -> (cmd: String)
    ensures
        cmd@ == match config.test_cmd {
            Some(c) => c@,
            None => default_cmd(lang_named(lang@)),
        },
{
    match &config.test_cmd {
        Some(c) => c.clone(),
        None => default_test_cmd(lang).to_string(),
    }
}

/// The test timeout in seconds: the configured one, else 30.
pub fn timeout_secs(config: &Config) -> (secs: u32)
    ensures
        secs == match config.timeout {
            Some(t) => t,
            None => 30,
        },
{
    match config.timeout {
        Some(t) => t,
        None => 30,
    }
}

/// The language that the `check` command takes for a file extension;
/// python for any other.
pub open spec fn check_lang_for(ext: Option<Seq<char>>) -> Seq<char> {
    match ext {
        Some(e) => if e == "rs"@ {
            "rust"@
        } else if e == "js"@ {
            "javascript"@
        } else if e == "ts"@ {
            "typescript"@
        } else if e == "go"@ {
            "go"@
        } else {
            "python"@
        },
        None => "python"@,
    }
}

/// The language that the `check` command takes for the file at `file`.
pub fn check_lang(file: &str) -> (lang: &'static str)
    ensures
        lang@ == check_lang_for(path_extension(file@)),
{
    match extension(file) {
        Some(e) => {
            let v = chars_of(e.as_str());
            if chars_are(&v, "rs") {
                "rust"
            } else if chars_are(&v, "js") {
                "javascript"
            } else if chars_are(&v, "ts") {
                "typescript"
            } else if chars_are(&v, "go") {
                "go"
            } else {
                "python"
            }
        },
        None => "python",
    }
}

/// The language of a file for the hook: the configured one, else the one its
/// extension stands for.
pub fn configured_lang(config: &Config, file_path: &str) -> (lang: String)
    ensures
        lang@ == match config.lang {
            Some(l) => l@,
            None => lang_for_extension(extension_of(file_path@)),
        },
{
    match &config.lang {
        Some(l) => l.clone(),
        None => lang_from_path(file_path).to_string(),
    }
}

} // verus!
