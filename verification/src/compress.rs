//! The compression session: ask the model whether the code can be shorter,
//! have it write tests, check that the tests fail without the code and pass
//! with it, then ask for shorter versions, keeping one only when it has fewer
//! lines of code and passes the tests.
//!
//! The session is a state machine: `Session::start` and `Session::step` decide,
//! and the caller performs each `Action` (asking the model, preparing the
//! working copy, running the tests) and hands back what came of it as an
//! `Event`.
use vstd::prelude::*;
use crate::counting::{code_lines, count_loc};
use crate::lang::{Lang, lang_named};
use crate::path::{lemma_file_name_no_separator, lemma_file_name_of_join, or_empty, path_file_name, path_parent};
use crate::prompts::{
    C_COMPRESS_PROMPT, C_TESTS_PROMPT, CPP_COMPRESS_PROMPT, CPP_TESTS_PROMPT, GO_COMPRESS_PROMPT,
    GO_TESTS_PROMPT, JAVA_COMPRESS_PROMPT, JAVA_TESTS_PROMPT, JS_COMPRESS_PROMPT, JS_TESTS_PROMPT,
    PYTHON_COMPRESS_PROMPT, PYTHON_TESTS_PROMPT, RUST_COMPRESS_PROMPT, RUST_TESTS_PROMPT,
    TRIAGE_PROMPT, TS_COMPRESS_PROMPT, TS_TESTS_PROMPT,
};
use crate::testing::{
    cpp_header_path, header_ext, header_file_name, header_name, parent_or_empty, stem_or_empty,
    TestResult,
};
use crate::text::{
    lemma_no_find_before_first, lemma_no_find_in_subrange, lemma_trim_bounds,
    lemma_trim_idempotent, chars_of, copy_range, extend_str, find_from, find_in, lemma_find_in,
    replace_all, replace_text, string_of, string_of_range, trim, trim_range, lemma_find_in_at,
    lemma_trim_keeps, is_white,
};

verus! {

broadcast use vstd::string::group_string_axioms;

// ---------------------------------------------------------------------------
// Module paths
// ---------------------------------------------------------------------------

/// `s` with every `/` turned into `.`.
pub open spec fn dotted(s: Seq<char>) -> Seq<char> {
    s.map_values(|c: char| if c == '/' { '.' } else { c })
}

/// How the generated tests name the module under test, for a source at `p`
/// in the language named `lang`.
pub open spec fn module_ref(p: Seq<char>, lang: Seq<char>) -> Seq<char> {
    match lang_named(lang) {
        Lang::Python => dotted(
            if ".py"@.is_suffix_of(p) {
                p.take(p.len() - ".py"@.len())
            } else {
                p
            },
        ),
        Lang::JavaScript | Lang::TypeScript => "./"@ + stem_or_empty(p),
        Lang::Java => stem_or_empty(p),
        Lang::Cpp | Lang::C => header_name(p, lang),
        Lang::Go => {
            let dir = or_empty(
                match path_parent(p) {
                    Some(q) => path_file_name(q),
                    None => None,
                },
            );
            if dir.len() == 0 {
                "main"@
            } else {
                dir
            }
        },
        _ => "solution"@,
    }
}

/// The header that the generated C and C++ tests include under the module
/// name is the file that the working copy writes the code to.
pub proof fn lemma_header_is_module(p: Seq<char>, lang: Seq<char>)
    requires
        lang == "c"@ || lang == "cpp"@,
    ensures
        module_ref(p, lang) == header_name(p, lang),
        path_file_name(cpp_header_path(p, lang)) == Some(module_ref(p, lang)),
{
    reveal_strlit("c");
    reveal_strlit("cpp");
    reveal_strlit("h");
    reveal_strlit("hpp");
    reveal_strlit("python");
    reveal_strlit("rust");
    reveal_strlit("javascript");
    reveal_strlit("typescript");
    reveal_strlit("go");
    reveal_strlit("java");
    assert(lang_named(lang) == Lang::C || lang_named(lang) == Lang::Cpp) by {
        assert("c"@.len() == 1 && "cpp"@.len() == 3 && "python"@.len() == 6);
        assert("rust"@.len() == 4 && "javascript"@.len() == 10 && "typescript"@.len() == 10);
        assert("go"@.len() == 2 && "java"@.len() == 4);
        assert("cpp"@[0] == 'c' && "rust"@[0] == 'r' && "java"@[0] == 'j');
    }
    let n = header_name(p, lang);
    let stem = stem_or_empty(p);
    let ext = header_ext(lang);
    lemma_file_name_no_separator(p);
    assert(n =~= stem + seq!['.'] + ext);
    assert(ext.len() > 0 && ext.last() != '.' && forall|i: int| 0 <= i < ext.len() ==> ext[i] != '/');
    assert forall|i: int| 0 <= i < n.len() implies n[i] != '/' by {
        if i < stem.len() {
            assert(n[i] == stem[i]);
        } else if i > stem.len() {
            assert(n[i] == ext[i - stem.len() - 1]);
        }
    }
    assert(n.last() == ext.last());
    lemma_file_name_of_join(parent_or_empty(p), n);
}

/// A C or C++ test run writes the code, unchanged, into the header that the
/// generated tests include: a file named after the source's stem with `.h`
/// for C and `.hpp` for C++, the module name the tests are told to include;
/// the tests go into the second file.
pub proof fn lemma_cpp_plan_writes_included_header(
    lang: Seq<char>,
    p: Seq<char>,
    cmd: Seq<char>,
    code: Seq<char>,
    tests: Seq<char>,
)
    requires
        lang == "c"@ || lang == "cpp"@,
    ensures
        ({
            let ws = crate::testing::test_plan(lang, p, cmd, code, tests).writes;
            &&& ws.len() == 2
            &&& path_file_name(ws[0].rel_path) == Some(module_ref(p, lang))
            &&& lang == "c"@ ==> path_file_name(ws[0].rel_path) == Some(
                stem_or_empty(p) + ".h"@,
            )
            &&& lang == "cpp"@ ==> path_file_name(ws[0].rel_path) == Some(
                stem_or_empty(p) + ".hpp"@,
            )
            &&& ws[0].contents == code
            &&& ws[1].contents == tests
        }),
{
    lemma_header_is_module(p, lang);
    reveal_strlit(".h");
    reveal_strlit(".hpp");
    reveal_strlit("h");
    reveal_strlit("hpp");
    reveal_strlit("c");
    reveal_strlit("cpp");
    reveal_strlit("python");
    reveal_strlit("rust");
    reveal_strlit("javascript");
    reveal_strlit("typescript");
    reveal_strlit("go");
    reveal_strlit("java");
    assert(lang_named(lang) == Lang::C || lang_named(lang) == Lang::Cpp) by {
        assert("c"@.len() == 1 && "cpp"@.len() == 3 && "python"@.len() == 6);
        assert("rust"@.len() == 4 && "javascript"@.len() == 10 && "typescript"@.len() == 10);
        assert("go"@.len() == 2 && "java"@.len() == 4);
        assert("cpp"@[0] == 'c' && "rust"@[0] == 'r' && "java"@[0] == 'j');
    }
    assert(crate::testing::runner_of(lang_named(lang)) == crate::testing::Runner::Cpp);
    assert(".h"@ =~= seq!['.'] + "h"@);
    assert(".hpp"@ =~= seq!['.'] + "hpp"@);
    assert(stem_or_empty(p) + seq!['.'] + "h"@ =~= stem_or_empty(p) + ".h"@);
    assert(stem_or_empty(p) + seq!['.'] + "hpp"@ =~= stem_or_empty(p) + ".hpp"@);
}

fn dotted_chars(v: &Vec<char>, hi: usize) -> (r: Vec<char>)
    requires
        hi <= v.len(),
    ensures
        r@ == dotted(v@.take(hi as int)),
{
    let mut r: Vec<char> = Vec::new();
    let mut i: usize = 0;
    while i < hi
        invariant
            0 <= i <= hi <= v.len(),
            r@ == dotted(v@.take(i as int)),
        decreases hi - i,
    {
        let c = v[i];
        r.push(if c == '/' { '.' } else { c });
        assert(v@.take(i + 1) =~= v@.take(i as int).push(c));
        assert(r@ =~= dotted(v@.take(i + 1)));
        i = i + 1;
    }
    r
}

/// The module path that the generated tests import the code from.
pub fn module_path_from_file(file_rel_path: &str, lang: &str) -> (r: String)
    ensures
        r@ == module_ref(file_rel_path@, lang@),
{
    let p = chars_of(file_rel_path);
    match Lang::from_name(lang) {
        Lang::Python => {
            proof {
                reveal_strlit(".py");
            }
            let hi = if p.len() >= 3 && p[p.len() - 3] == '.' && p[p.len() - 2] == 'p' && p[p.len()
                - 1] == 'y' {
                assert(".py"@.is_suffix_of(p@)) by {
                    assert(p@.subrange(p.len() - 3, p.len() as int) =~= ".py"@);
                }
                p.len() - 3
            } else {
                assert(!".py"@.is_suffix_of(p@)) by {
                    if ".py"@.is_suffix_of(p@) {
                        assert(p@.subrange(p.len() - 3, p.len() as int)[0] == p@[p.len() - 3]);
                        assert(p@.subrange(p.len() - 3, p.len() as int)[1] == p@[p.len() - 2]);
                        assert(p@.subrange(p.len() - 3, p.len() as int)[2] == p@[p.len() - 1]);
                    }
                }
                assert(p@.take(p.len() as int) =~= p@);
                p.len()
            };
            let d = dotted_chars(&p, hi);
            string_of(&d)
        },
        Lang::JavaScript | Lang::TypeScript => {
            let mut out: Vec<char> = Vec::new();
            extend_str(&mut out, "./");
            match crate::path::file_stem(file_rel_path) {
                Some(s) => extend_str(&mut out, s.as_str()),
                None => {},
            }
            assert(out@ =~= module_ref(file_rel_path@, lang@));
            string_of(&out)
        },
        Lang::Java => match crate::path::file_stem(file_rel_path) {
            Some(s) => s,
            None => String::new(),
        },
        Lang::Cpp | Lang::C => header_file_name(file_rel_path, lang),
        Lang::Go => {
            let dir = match crate::path::parent(file_rel_path) {
                Some(q) => match crate::path::file_name(q.as_str()) {
                    Some(n) => n,
                    None => String::new(),
                },
                None => String::new(),
            };
            if dir.as_str().is_empty() {
                "main".to_string()
            } else {
                dir
            }
        },
        _ => "solution".to_string(),
    }
}

// ---------------------------------------------------------------------------
// Reading what the model writes
// ---------------------------------------------------------------------------

/// The code in a reply: the text of the first fenced block (what follows the
/// fence line up to the closing fence, or to the end), trimmed; the trimmed
/// reply when it has no fence.
pub open spec fn extract_block(reply: Seq<char>) -> Seq<char> {
    let text = trim(reply);
    match find_in(text, "```"@) {
        Some(start) => {
            let after = text.skip(start + "```"@.len());
            let code_start = match find_in(after, seq!['\n']) {
                Some(i) => i + 1,
                None => 0,
            };
            let body = after.skip(code_start);
            match find_in(body, "```"@) {
                Some(end) => trim(body.take(end)),
                None => trim(body),
            }
        },
        None => text,
    }
}

/// The code taken from a reply holds no fence and is trimmed, so taking the
/// code from it again gives it back.
pub proof fn lemma_extract_block_clean(reply: Seq<char>)
    ensures
        find_in(extract_block(reply), "```"@) is None,
        trim(extract_block(reply)) == extract_block(reply),
        extract_block(extract_block(reply)) == extract_block(reply),
{
    reveal_strlit("```");
    let fence = "```"@;
    let text = trim(reply);
    let r = extract_block(reply);
    match find_in(text, fence) {
        Some(start) => {
            lemma_find_in(text, fence);
            let after = text.skip(start + fence.len());
            let code_start = match find_in(after, seq!['\n']) {
                Some(i) => i + 1,
                None => 0,
            };
            lemma_find_in(after, seq!['\n']);
            let body = after.skip(code_start);
            match find_in(body, fence) {
                Some(end) => {
                    lemma_find_in(body, fence);
                    lemma_no_find_before_first(body, fence, end);
                    let (a, b) = lemma_trim_bounds(body.take(end));
                    lemma_no_find_in_subrange(body.take(end), fence, a, b);
                    lemma_trim_idempotent(body.take(end));
                },
                None => {
                    let (a, b) = lemma_trim_bounds(body);
                    lemma_no_find_in_subrange(body, fence, a, b);
                    lemma_trim_idempotent(body);
                },
            }
        },
        None => {
            lemma_trim_idempotent(reply);
        },
    }
    assert(find_in(r, fence) is None);
    assert(trim(r) == r);
}

/// `find_in` finds `p` at `i` when no earlier character is the first of `p`.
proof fn lemma_first_at(s: Seq<char>, p: Seq<char>, i: int)
    requires
        p.len() > 0,
        0 <= i,
        i + p.len() <= s.len(),
        s.subrange(i, i + p.len()) == p,
        forall|j: int| 0 <= j < i ==> s[j] != p[0],
    ensures
        find_in(s, p) == Some(i),
{
    assert forall|j: int| 0 <= j < i implies !p.is_prefix_of(#[trigger] s.skip(j)) by {
        assert(s.skip(j)[0] == s[j]);
    }
    lemma_find_in_at(s, p, i);
}

/// A reply without a backtick is taken whole, trimmed.
pub proof fn lemma_extract_unfenced(reply: Seq<char>)
    requires
        forall|i: int| 0 <= i < reply.len() ==> reply[i] != '`',
    ensures
        extract_block(reply) == trim(reply),
{
    reveal_strlit("```");
    let (a, b) = lemma_trim_bounds(reply);
    let text = trim(reply);
    lemma_find_in(text, "```"@);
    if let Some(i) = find_in(text, "```"@) {
        assert(text.subrange(i, i + 3)[0] == "```"@[0]);
        assert(text[i] == reply[a + i]);
    }
}

/// From a reply made of text without backticks, a fence with a tag on its
/// line, code without backticks, a closing fence and anything after it, the
/// code is taken, trimmed: what stands before the first fence and from the
/// closing fence on is dropped.
pub proof fn lemma_extract_fenced(pre: Seq<char>, tag: Seq<char>, body: Seq<char>, rest: Seq<char>)
    requires
        forall|i: int| 0 <= i < pre.len() ==> pre[i] != '`',
        forall|i: int| 0 <= i < tag.len() ==> tag[i] != '`' && tag[i] != '\n',
        forall|i: int| 0 <= i < body.len() ==> body[i] != '`',
    ensures
        extract_block(pre + "```"@ + tag + seq!['\n'] + body + "```"@ + rest) == trim(body),
{
    reveal_strlit("```");
    let fence = "```"@;
    assert(fence =~= seq!['`', '`', '`']);
    let reply = pre + fence + tag + seq!['\n'] + body + fence + rest;
    let p0 = pre.len() as int;
    let t0 = p0 + 3;
    let n0 = t0 + tag.len();
    let b0 = n0 + 1;
    let c0 = b0 + body.len();
    assert(reply[p0] == '`');
    assert(reply[c0 + 2] == '`');
    assert(!is_white('`'));
    let (a, b) = lemma_trim_keeps(reply, p0, c0 + 2);
    let text = trim(reply);
    assert(text == reply.subrange(a, b));
    // The opening fence.
    let i0 = p0 - a;
    assert forall|j: int| 0 <= j < i0 implies text[j] != fence[0] by {
        assert(text[j] == reply[a + j]);
        assert(reply[a + j] == pre[a + j]);
    }
    assert(text.subrange(i0, i0 + 3) =~= fence) by {
        assert forall|j: int| 0 <= j < 3 implies text.subrange(i0, i0 + 3)[j] == fence[j] by {
            assert(text[i0 + j] == reply[p0 + j]);
        }
    }
    lemma_first_at(text, fence, i0);
    // The end of the fence line.
    let after = text.skip(i0 + 3);
    let nl = seq!['\n'];
    assert forall|j: int| 0 <= j < tag.len() implies after[j] != nl[0] by {
        assert(after[j] == reply[t0 + j]);
        assert(reply[t0 + j] == tag[j]);
    }
    assert(after[tag.len() as int] == reply[n0]);
    assert(after.subrange(tag.len() as int, tag.len() + 1int) =~= nl);
    lemma_first_at(after, nl, tag.len() as int);
    // The closing fence.
    let body2 = after.skip(tag.len() + 1int);
    assert forall|j: int| 0 <= j < body.len() implies body2[j] == body[j] by {
        assert(body2[j] == reply[b0 + j]);
    }
    assert forall|j: int| 0 <= j < body.len() implies body2[j] != fence[0] by {
        assert(body2[j] == body[j]);
    }
    assert(body2.subrange(body.len() as int, body.len() + 3int) =~= fence) by {
        assert forall|j: int| 0 <= j < 3 implies body2.subrange(body.len() as int, body.len() + 3int)[j]
            == fence[j] by {
            assert(body2[body.len() + j] == reply[c0 + j]);
        }
    }
    lemma_first_at(body2, fence, body.len() as int);
    assert(body2.take(body.len() as int) =~= body);
}

/// The code in a reply of the model.
#[verifier::rlimit(80)]
#[verifier::spinoff_prover]
pub fn extract_code_block(s: &str) -> (r: String)
    ensures
        r@ == extract_block(s@),
{
    let v = chars_of(s);
    let (a, b) = trim_range(&v, 0, v.len());
    assert(v@.subrange(0, v.len() as int) =~= v@);
    let text = copy_range(&v, a, b);
    let fence = chars_of("```");
    let mut nl: Vec<char> = Vec::new();
    nl.push('\n');
    assert(nl@ =~= seq!['\n']);
    assert(text@.skip(0) =~= text@);
    match find_from(&text, 0, &fence) {
        None => string_of(&text),
        Some(start) => {
            proof {
                lemma_find_in(text@, fence@);
            }
            let after_start = start + fence.len();
            let code_start = match find_from(&text, after_start, &nl) {
                Some(i) => {
                    proof {
                        lemma_find_in(text@.skip(after_start as int), nl@);
                    }
                    i + 1
                },
                None => after_start,
            };
            let ghost after = text@.skip(start + fence@.len());
            assert(after.skip(code_start - after_start) =~= text@.skip(code_start as int));
            let ghost body = text@.skip(code_start as int);
            match find_from(&text, code_start, &fence) {
                Some(end) => {
                    proof {
                        lemma_find_in(body, fence@);
                    }
                    assert(body.take(end - code_start) =~= text@.subrange(
                        code_start as int,
                        end as int,
                    ));
                    let (x, y) = trim_range(&text, code_start, end);
                    string_of_range(&text, x, y)
                },
                None => {
                    assert(body =~= text@.subrange(code_start as int, text.len() as int));
                    let (x, y) = trim_range(&text, code_start, text.len());
                    string_of_range(&text, x, y)
                },
            }
        },
    }
}

/// What a run of the model's program comes to: its error output as an error
/// when it failed, an error when it printed nothing but whitespace, else what
/// it printed, trimmed. The errors name the program.
pub open spec fn reply_of(program: Seq<char>, success: bool, stdout: Seq<char>, stderr: Seq<char>) -> Result<
    Seq<char>,
    Seq<char>,
> {
    if !success {
        Err(program + " exited with error: "@ + stderr)
    } else if trim(stdout).len() == 0 {
        Err(program + " returned empty output"@)
    } else {
        Ok(trim(stdout))
    }
}

/// A `Result` of strings by their characters.
pub open spec fn result_text(r: Result<String, String>) -> Result<Seq<char>, Seq<char>> {
    match r {
        Ok(s) => Ok(s@),
        Err(e) => Err(e@),
    }
}

/// The reply of the model from how its program `program` ended and what it
/// printed.
pub fn model_reply(program: &str, success: bool, stdout: &str, stderr: &str) -> (r: Result<String, String>)
    ensures
        result_text(r) == reply_of(program@, success, stdout@, stderr@),
{
    if !success {
        let mut e = chars_of(program);
        extend_str(&mut e, " exited with error: ");
        extend_str(&mut e, stderr);
        return Err(string_of(&e));
    }
    let v = chars_of(stdout);
    let (a, b) = trim_range(&v, 0, v.len());
    assert(v@.subrange(0, v.len() as int) =~= v@);
    if a == b {
        let mut e = chars_of(program);
        extend_str(&mut e, " returned empty output");
        Err(string_of(&e))
    } else {
        Ok(string_of_range(&v, a, b))
    }
}

// ---------------------------------------------------------------------------
// Prompts
// ---------------------------------------------------------------------------

/// The triage instruction for `code`.
pub open spec fn triage_prompt_text(code: Seq<char>) -> Seq<char> {
    replace_all(TRIAGE_PROMPT@, "{code}"@, code)
}

/// The instruction that asks for tests in the given language.
pub open spec fn tests_template(lang: Lang) -> Seq<char> {
    match lang {
        Lang::Rust => RUST_TESTS_PROMPT@,
        Lang::JavaScript => JS_TESTS_PROMPT@,
        Lang::TypeScript => TS_TESTS_PROMPT@,
        Lang::Java => JAVA_TESTS_PROMPT@,
        Lang::Cpp => CPP_TESTS_PROMPT@,
        Lang::C => C_TESTS_PROMPT@,
        Lang::Go => GO_TESTS_PROMPT@,
        _ => PYTHON_TESTS_PROMPT@,
    }
}

/// The instruction that asks for a shorter rewrite in the given language.
pub open spec fn compress_template(lang: Lang) -> Seq<char> {
    match lang {
        Lang::Rust => RUST_COMPRESS_PROMPT@,
        Lang::JavaScript => JS_COMPRESS_PROMPT@,
        Lang::TypeScript => TS_COMPRESS_PROMPT@,
        Lang::Java => JAVA_COMPRESS_PROMPT@,
        Lang::Cpp => CPP_COMPRESS_PROMPT@,
        Lang::C => C_COMPRESS_PROMPT@,
        Lang::Go => GO_COMPRESS_PROMPT@,
        _ => PYTHON_COMPRESS_PROMPT@,
    }
}

/// The instruction that asks for tests of `code`: the code goes in first,
/// then the module path (so a `{module}` inside the code is filled in too).
pub open spec fn tests_prompt_text(code: Seq<char>, lang: Seq<char>, path: Seq<char>) -> Seq<char> {
    replace_all(
        replace_all(tests_template(lang_named(lang)), "{code}"@, code),
        "{module}"@,
        module_ref(path, lang),
    )
}

/// The instruction that asks for a shorter `code`.
pub open spec fn compress_prompt_text(code: Seq<char>, lang: Seq<char>) -> Seq<char> {
    replace_all(compress_template(lang_named(lang)), "{code}"@, code)
}

/// The triage instruction for `code`.
pub fn triage_prompt(code: &str) -> (r: String)
    ensures
        r@ == triage_prompt_text(code@),
{
    proof {
        reveal_strlit("{code}");
    }
    replace_text(TRIAGE_PROMPT, "{code}", code)
}

fn tests_template_text(lang: Lang) -> (t: &'static str)
    ensures
        t@ == tests_template(lang),
{
    match lang {
        Lang::Rust => RUST_TESTS_PROMPT,
        Lang::JavaScript => JS_TESTS_PROMPT,
        Lang::TypeScript => TS_TESTS_PROMPT,
        Lang::Java => JAVA_TESTS_PROMPT,
        Lang::Cpp => CPP_TESTS_PROMPT,
        Lang::C => C_TESTS_PROMPT,
        Lang::Go => GO_TESTS_PROMPT,
        _ => PYTHON_TESTS_PROMPT,
    }
}

fn compress_template_text(lang: Lang) -> (t: &'static str)
    ensures
        t@ == compress_template(lang),
{
    match lang {
        Lang::Rust => RUST_COMPRESS_PROMPT,
        Lang::JavaScript => JS_COMPRESS_PROMPT,
        Lang::TypeScript => TS_COMPRESS_PROMPT,
        Lang::Java => JAVA_COMPRESS_PROMPT,
        Lang::Cpp => CPP_COMPRESS_PROMPT,
        Lang::C => C_COMPRESS_PROMPT,
        Lang::Go => GO_COMPRESS_PROMPT,
        _ => PYTHON_COMPRESS_PROMPT,
    }
}

/// The instruction that asks for tests of `code`, a source at
/// `file_rel_path` in the language named `lang`.
pub fn tests_prompt(code: &str, lang: &str, file_rel_path: &str) -> (r: String)
    ensures
        r@ == tests_prompt_text(code@, lang@, file_rel_path@),
{
    proof {
        reveal_strlit("{code}");
        reveal_strlit("{module}");
    }
    let template = tests_template_text(Lang::from_name(lang));
    let module = module_path_from_file(file_rel_path, lang);
    let with_code = replace_text(template, "{code}", code);
    replace_text(with_code.as_str(), "{module}", module.as_str())
}

/// The instruction that asks for a shorter `code` in the language named
/// `lang`.
pub fn compress_prompt(code: &str, lang: &str) -> (r: String)
    ensures
        r@ == compress_prompt_text(code@, lang@),
{
    proof {
        reveal_strlit("{code}");
    }
    replace_text(compress_template_text(Lang::from_name(lang)), "{code}", code)
}

// ---------------------------------------------------------------------------
// The triage answer
// ---------------------------------------------------------------------------

/// The text `str::to_uppercase` makes of `s`.
pub uninterp spec fn uppercase(s: Seq<char>) -> Seq<char>;

/// Whether every character of `s` is ASCII.
pub open spec fn all_ascii(s: Seq<char>) -> bool {
    forall|i: int| 0 <= i < s.len() ==> (s[i] as u32) < 128
}

/// The ASCII upper case of `c`: `a` to `z` become `A` to `Z`, every other
/// character stays.
pub open spec fn ascii_upper(c: char) -> char {
    if 'a' <= c && c <= 'z' {
        ((c as u32) - 32) as char
    } else {
        c
    }
}

/// Calls `str::to_uppercase`. The contract claims that the result is a
/// function of the text and that on ASCII text it upper-cases the letters
/// `a` to `z` one for one and keeps every other character, as the Unicode
/// case mapping that std follows does; beyond ASCII the mapping is left to
/// std.
#[verifier::external_body]
fn to_upper(s: &str) -> (r: String)
    ensures
        r@ == uppercase(s@),
        all_ascii(s@) ==> r@ == s@.map_values(|c: char| ascii_upper(c)),
{
    s.to_uppercase()
}

/// Whether an upper-cased answer says no.
pub fn says_no(upper: &str) -> (r: bool)
    ensures
        r == "NO"@.is_prefix_of(upper@),
{
    let v = chars_of(upper);
    crate::counting::starts_with_text(&v, "NO")
}

/// The model declines when its answer, trimmed and upper-cased, starts with
/// `NO`.
pub open spec fn declines(answer: Seq<char>) -> bool {
    "NO"@.is_prefix_of(uppercase(trim(answer)))
}

/// Whether `t` starts with `no` in either case.
pub open spec fn starts_with_no(t: Seq<char>) -> bool {
    &&& t.len() >= 2
    &&& t[0] == 'n' || t[0] == 'N'
    &&& t[1] == 'o' || t[1] == 'O'
}

/// Whether the triage answer says that the code cannot be made shorter; on
/// an ASCII answer, exactly when it starts with `no` in either case once
/// trimmed.
pub fn answer_declines(answer: &str) -> (r: bool)
    ensures
        r == declines(answer@),
        all_ascii(answer@) ==> (r <==> starts_with_no(trim(answer@))),
{
    let v = chars_of(answer);
    let (a, b) = trim_range(&v, 0, v.len());
    assert(v@.subrange(0, v.len() as int) =~= v@);
    let trimmed = string_of_range(&v, a, b);
    let upper = to_upper(trimmed.as_str());
    let r = says_no(upper.as_str());
    proof {
        reveal_strlit("NO");
        if all_ascii(answer@) {
            let t = trimmed@;
            assert(all_ascii(t)) by {
                assert forall|i: int| 0 <= i < t.len() implies (t[i] as u32) < 128 by {
                    assert(t[i] == answer@[a + i]);
                }
            }
            if t.len() >= 2 {
                assert(upper@[0] == ascii_upper(t[0]));
                assert(upper@[1] == ascii_upper(t[1]));
                if r {
                    assert(upper@[0] == "NO"@[0]);
                    assert(upper@[1] == "NO"@[1]);
                }
                if starts_with_no(t) {
                    assert(upper@.subrange(0, 2) =~= "NO"@);
                }
            }
        }
    }
    r
}

// ---------------------------------------------------------------------------
// The session
// ---------------------------------------------------------------------------

/// How many shorter versions the session asks for at most.
pub const MAX_ROUNDS: u32 = 5;

/// How many attempts in a row may bring nothing before the session stops.
pub const MAX_STALLS: u32 = 2;

/// The outcome of a session: the code to keep, its lines of code before and
/// after, and how many shorter versions were asked for.
#[derive(Debug)]
pub struct CompressResult {
    pub code: String,
    pub original_loc: u32,
    pub final_loc: u32,
    pub rounds: u32,
}

/// What the session waits for.
#[derive(Clone, Copy, Debug, PartialEq, Eq, Structural)]
pub enum Stage {
    /// The triage answer.
    Triage,
    /// The working copy.
    Workspace,
    /// The generated tests.
    Tests,
    /// The tests run against an empty module.
    RedCheck,
    /// The tests run against the submitted code.
    GreenCheck,
    /// A shorter version.
    Compress,
    /// The tests run against the shorter version.
    Verify,
    /// Nothing: the session is over.
    Done,
}

/// What the caller is to do next.
#[derive(Debug)]
pub enum Action {
    /// Run the model on this instruction; answer with `Event::ModelReplied`.
    AskModel(String),
    /// Make the working copy of the project; answer with
    /// `Event::WorkspaceCreated`.
    CreateWorkspace,
    /// Run the tests against this code in the working copy; answer with
    /// `Event::TestsRan`.
    RunTests { code: String, tests: String },
    /// The session is over, with this outcome.
    Finish(Result<CompressResult, String>),
}

/// What came of an action.
#[derive(Debug)]
pub enum Event {
    ModelReplied(Result<String, String>),
    WorkspaceCreated(Result<(), String>),
    TestsRan(TestResult),
}

/// A compression session. `Session::start` makes one and `Session::step`
/// moves it on; every session keeps the invariant `wf`.
#[derive(Debug)]
pub struct Session {
    code: String,
    lang: String,
    file_rel_path: String,
    original_loc: u32,
    tests: String,
    champion: String,
    champion_loc: u32,
    candidate: String,
    candidate_loc: u32,
    rounds: u32,
    stalls: u32,
    stage: Stage,
}

/// A session by the characters of its texts.
pub ghost struct SessionModel {
    pub code: Seq<char>,
    pub lang: Seq<char>,
    pub path: Seq<char>,
    pub original_loc: u32,
    pub tests: Seq<char>,
    pub champion: Seq<char>,
    pub champion_loc: u32,
    pub candidate: Seq<char>,
    pub candidate_loc: u32,
    pub rounds: u32,
    pub stalls: u32,
    pub stage: Stage,
}

/// An action by the characters of its texts.
pub ghost enum ActionModel {
    AskModel(Seq<char>),
    CreateWorkspace,
    RunTests(Seq<char>, Seq<char>),
    /// The kept code, its lines of code before and after, the rounds.
    FinishOk(Seq<char>, u32, u32, u32),
    FinishErr(Seq<char>),
}

/// An event by the characters of its texts.
pub ghost enum EventModel {
    ModelReplied(Result<Seq<char>, Seq<char>>),
    /// The error, when making the working copy failed.
    WorkspaceCreated(Option<Seq<char>>),
    /// Whether the tests passed, and what they printed.
    TestsRan(bool, Seq<char>),
}

impl View for Session {
    type V = SessionModel;

    closed spec fn view(&self) -> SessionModel {
        SessionModel {
            code: self.code@,
            lang: self.lang@,
            path: self.file_rel_path@,
            original_loc: self.original_loc,
            tests: self.tests@,
            champion: self.champion@,
            champion_loc: self.champion_loc,
            candidate: self.candidate@,
            candidate_loc: self.candidate_loc,
            rounds: self.rounds,
            stalls: self.stalls,
            stage: self.stage,
        }
    }
}

impl View for Action {
    type V = ActionModel;

    open spec fn view(&self) -> ActionModel {
        match self {
            Action::AskModel(p) => ActionModel::AskModel(p@),
            Action::CreateWorkspace => ActionModel::CreateWorkspace,
            Action::RunTests { code, tests } => ActionModel::RunTests(code@, tests@),
            Action::Finish(Ok(r)) => ActionModel::FinishOk(
                r.code@,
                r.original_loc,
                r.final_loc,
                r.rounds,
            ),
            Action::Finish(Err(e)) => ActionModel::FinishErr(e@),
        }
    }
}

impl View for Event {
    type V = EventModel;

    open spec fn view(&self) -> EventModel {
        match self {
            Event::ModelReplied(r) => EventModel::ModelReplied(result_text(*r)),
            Event::WorkspaceCreated(Ok(())) => EventModel::WorkspaceCreated(None),
            Event::WorkspaceCreated(Err(e)) => EventModel::WorkspaceCreated(Some(e@)),
            Event::TestsRan(t) => EventModel::TestsRan(t.passed, t.output@),
        }
    }
}

/// The error of a session whose tests pass without the code.
pub open spec fn trivial_tests_msg() -> Seq<char> {
    "generated tests pass with empty implementation (tests are trivial or broken)"@
}

/// The error of a session whose tests fail on the submitted code.
pub open spec fn failing_code_msg(output: Seq<char>) -> Seq<char> {
    "code does not pass generated tests:\n"@ + output
}

/// The session ends with the current best code.
pub open spec fn finish_ok(s: SessionModel) -> (SessionModel, ActionModel) {
    (
        SessionModel { stage: Stage::Done, ..s },
        ActionModel::FinishOk(s.champion, s.original_loc, s.champion_loc, s.rounds),
    )
}

/// The head of the compression loop: another round while there are rounds
/// left, fewer stalls in a row than allowed and more than one line of code;
/// otherwise the end.
pub open spec fn loop_head(s: SessionModel) -> (SessionModel, ActionModel) {
    if s.rounds < MAX_ROUNDS && s.stalls < MAX_STALLS && s.champion_loc > 1 {
        (
            SessionModel { rounds: (s.rounds + 1) as u32, stage: Stage::Compress, ..s },
            ActionModel::AskModel(compress_prompt_text(s.champion, s.lang)),
        )
    } else {
        finish_ok(s)
    }
}

/// The event that each stage waits for.
pub open spec fn expects(stage: Stage, e: EventModel) -> bool {
    match stage {
        Stage::Triage | Stage::Tests | Stage::Compress => e is ModelReplied,
        Stage::Workspace => e is WorkspaceCreated,
        Stage::RedCheck | Stage::GreenCheck | Stage::Verify => e is TestsRan,
        Stage::Done => false,
    }
}

/// The session's next state and action, given what came of the last action.
pub open spec fn next(s: SessionModel, e: EventModel) -> (SessionModel, ActionModel) {
    match (s.stage, e) {
        (Stage::Triage, EventModel::ModelReplied(reply)) => {
            if reply matches Ok(answer) && declines(answer) {
                (
                    SessionModel { stage: Stage::Done, ..s },
                    ActionModel::FinishOk(s.code, s.original_loc, s.original_loc, 0),
                )
            } else {
                (SessionModel { stage: Stage::Workspace, ..s }, ActionModel::CreateWorkspace)
            }
        },
        (Stage::Workspace, EventModel::WorkspaceCreated(Some(err))) => (
            SessionModel { stage: Stage::Done, ..s },
            ActionModel::FinishErr(err),
        ),
        (Stage::Workspace, EventModel::WorkspaceCreated(None)) => (
            SessionModel { stage: Stage::Tests, ..s },
            ActionModel::AskModel(tests_prompt_text(s.code, s.lang, s.path)),
        ),
        (Stage::Tests, EventModel::ModelReplied(Err(err))) => (
            SessionModel { stage: Stage::Done, ..s },
            ActionModel::FinishErr(err),
        ),
        (Stage::Tests, EventModel::ModelReplied(Ok(reply))) => {
            let t = extract_block(reply);
            (
                SessionModel { tests: t, stage: Stage::RedCheck, ..s },
                ActionModel::RunTests(Seq::empty(), t),
            )
        },
        (Stage::RedCheck, EventModel::TestsRan(passed, _)) => {
            if passed {
                (
                    SessionModel { stage: Stage::Done, ..s },
                    ActionModel::FinishErr(trivial_tests_msg()),
                )
            } else {
                (
                    SessionModel { stage: Stage::GreenCheck, ..s },
                    ActionModel::RunTests(s.code, s.tests),
                )
            }
        },
        (Stage::GreenCheck, EventModel::TestsRan(passed, output)) => {
            if !passed {
                (
                    SessionModel { stage: Stage::Done, ..s },
                    ActionModel::FinishErr(failing_code_msg(output)),
                )
            } else {
                loop_head(s)
            }
        },
        (Stage::Compress, EventModel::ModelReplied(Err(_))) => finish_ok(s),
        (Stage::Compress, EventModel::ModelReplied(Ok(reply))) => {
            let c = extract_block(reply);
            let n = code_lines(c, s.lang) as u32;
            if n >= s.champion_loc {
                loop_head(SessionModel { stalls: (s.stalls + 1) as u32, ..s })
            } else {
                (
                    SessionModel { candidate: c, candidate_loc: n, stage: Stage::Verify, ..s },
                    ActionModel::RunTests(c, s.tests),
                )
            }
        },
        (Stage::Verify, EventModel::TestsRan(passed, _)) => {
            if !passed {
                loop_head(SessionModel { stalls: (s.stalls + 1) as u32, ..s })
            } else {
                loop_head(
                    SessionModel {
                        champion: s.candidate,
                        champion_loc: s.candidate_loc,
                        stalls: 0,
                        ..s
                    },
                )
            }
        },
        _ => (s, ActionModel::CreateWorkspace),
    }
}

/// What holds of a session in every state.
pub open spec fn wf(s: SessionModel) -> bool {
    &&& s.original_loc == code_lines(s.code, s.lang) as u32
    &&& s.champion_loc == code_lines(s.champion, s.lang) as u32
    &&& s.champion_loc <= s.original_loc
    &&& s.champion != s.code ==> s.champion_loc < s.original_loc
    &&& s.rounds <= MAX_ROUNDS
    &&& s.stalls <= MAX_STALLS
    &&& (s.stage == Stage::Compress || s.stage == Stage::Verify) ==> {
        &&& 1 <= s.rounds
        &&& s.stalls < MAX_STALLS
    }
    &&& s.stage == Stage::Verify ==> {
        &&& s.candidate_loc < s.champion_loc
        &&& s.candidate_loc == code_lines(s.candidate, s.lang) as u32
    }
    &&& (s.stage == Stage::Triage || s.stage == Stage::Workspace || s.stage == Stage::Tests
        || s.stage == Stage::RedCheck || s.stage == Stage::GreenCheck) ==> {
        &&& s.rounds == 0
        &&& s.stalls == 0
        &&& s.champion == s.code
    }
}

/// How much work a stage has left before the next round.
pub open spec fn stage_weight(stage: Stage) -> nat {
    match stage {
        Stage::Triage => 7,
        Stage::Workspace => 6,
        Stage::Tests => 5,
        Stage::RedCheck => 4,
        Stage::GreenCheck => 3,
        Stage::Compress => 2,
        Stage::Verify => 1,
        Stage::Done => 0,
    }
}

/// A bound on the steps a session has left.
pub open spec fn potential(s: SessionModel) -> nat {
    if s.stage == Stage::Done {
        0
    } else {
        (2 * (MAX_ROUNDS - s.rounds) + stage_weight(s.stage)) as nat
    }
}

/// Every step keeps the invariant, brings the session closer to its end (so
/// no session takes more than `potential` of its start, 17, steps), and ends
/// it exactly when it finishes.
pub proof fn lemma_next_keeps_wf(s: SessionModel, e: EventModel)
    requires
        wf(s),
        expects(s.stage, e),
    ensures
        wf(next(s, e).0),
        potential(next(s, e).0) < potential(s),
        next(s, e).0.stage == Stage::Done <==> (next(s, e).1 is FinishOk || next(s, e).1 is FinishErr),
        next(s, e).0.code == s.code,
        next(s, e).0.lang == s.lang,
        next(s, e).0.path == s.path,
{
}

/// A session that finishes well reports the code to keep with its true line
/// counts before and after, never more lines than before, and no more rounds
/// than allowed; the code is the submitted one unless it has fewer lines of
/// code.
pub proof fn lemma_finish_reports(s: SessionModel, e: EventModel)
    requires
        wf(s),
        expects(s.stage, e),
    ensures
        next(s, e).1 matches ActionModel::FinishOk(code, original, fin, rounds) ==> {
            &&& original == code_lines(s.code, s.lang) as u32
            &&& fin == code_lines(code, s.lang) as u32
            &&& fin <= original
            &&& rounds <= MAX_ROUNDS
            &&& (code == s.code || fin < original)
        },
{
}

/// The best code changes only when a shorter candidate has passed the tests.
pub proof fn lemma_champion_needs_passing_tests(s: SessionModel, e: EventModel)
    requires
        wf(s),
        expects(s.stage, e),
        next(s, e).0.champion != s.champion,
    ensures
        s.stage == Stage::Verify,
        e matches EventModel::TestsRan(passed, _) && passed,
        next(s, e).0.champion == s.candidate,
        next(s, e).0.champion_loc < s.champion_loc,
{
}

/// Every compression round asks the model to shorten the current best code,
/// in the session's language: a round that follows an improvement starts from
/// the improved code, not from the submitted one.
pub proof fn lemma_round_shortens_best_code(s: SessionModel, e: EventModel)
    requires
        wf(s),
        expects(s.stage, e),
        next(s, e).0.stage == Stage::Compress,
    ensures
        next(s, e).1 == ActionModel::AskModel(compress_prompt_text(next(s, e).0.champion, s.lang)),
        next(s, e).0.lang == s.lang,
        s.stage == Stage::Verify && (e matches EventModel::TestsRan(passed, _) && passed)
            ==> next(s, e).0.champion == s.candidate,
{
}

/// A new round is counted, and comes only while rounds are left, fewer than
/// the allowed attempts in a row brought nothing, and the best code has more
/// than one line of code. Conversely, once the submitted code has passed its
/// tests, the session ends well only when one of these stops it: all rounds
/// used, too many fruitless attempts in a row, one line of code left, or the
/// model failing to answer.
pub proof fn lemma_rounds_run_while_they_can(s: SessionModel, e: EventModel)
    requires
        wf(s),
        expects(s.stage, e),
    ensures
        next(s, e).0.stage == Stage::Compress ==> {
            &&& next(s, e).0.rounds == s.rounds + 1
            &&& next(s, e).0.rounds <= MAX_ROUNDS
            &&& next(s, e).0.stalls < MAX_STALLS
            &&& next(s, e).0.champion_loc > 1
        },
        (s.stage == Stage::GreenCheck || s.stage == Stage::Compress || s.stage == Stage::Verify)
            && next(s, e).1 is FinishOk ==> {
            ||| next(s, e).0.rounds == MAX_ROUNDS
            ||| next(s, e).0.stalls == MAX_STALLS
            ||| next(s, e).0.champion_loc <= 1
            ||| s.stage == Stage::Compress && e matches EventModel::ModelReplied(Err(_))
        },
        s.stage == Stage::Compress && (e matches EventModel::ModelReplied(Ok(reply))
            && code_lines(extract_block(reply), s.lang) as u32 >= s.champion_loc)
            ==> next(s, e).0.stalls == s.stalls + 1 && !(next(s, e).1 is RunTests),
        s.stage == Stage::Verify && (e matches EventModel::TestsRan(passed, _) && !passed)
            ==> next(s, e).0.stalls == s.stalls + 1 && next(s, e).0.champion == s.champion,
{
}

/// Every test run uses the tests the session generated, taken from the code
/// block of the model's answer: first against no code at all, which must
/// fail, then against the submitted code, then only against candidates with
/// fewer lines of code than the best so far.
pub proof fn lemma_test_runs_use_generated_tests(s: SessionModel, e: EventModel)
    requires
        wf(s),
        expects(s.stage, e),
    ensures
        s.stage == Stage::Tests && (e matches EventModel::ModelReplied(Ok(reply))) ==> {
            &&& next(s, e).0.tests == extract_block(e->ModelReplied_0->Ok_0)
            &&& next(s, e).1 == ActionModel::RunTests(Seq::empty(), next(s, e).0.tests)
        },
        s.stage != Stage::Tests ==> next(s, e).0.tests == s.tests,
        next(s, e).1 matches ActionModel::RunTests(c, t) ==> {
            &&& t == next(s, e).0.tests
            &&& s.stage == Stage::Tests && c.len() == 0
                || s.stage == Stage::RedCheck && c == s.code
                || s.stage == Stage::Compress && c == next(s, e).0.candidate
                    && code_lines(c, s.lang) as u32 == next(s, e).0.candidate_loc
                    && next(s, e).0.candidate_loc < s.champion_loc
        },
        s.stage == Stage::RedCheck && (e matches EventModel::TestsRan(passed, _) && passed)
            ==> next(s, e).1 == ActionModel::FinishErr(trivial_tests_msg()),
{
}

/// A finished session reports its best code with its true line counts.
proof fn lemma_finish_is_champion(s: SessionModel, e: EventModel)
    requires
        wf(s),
        expects(s.stage, e),
    ensures
        next(s, e).1 matches ActionModel::FinishOk(code, original, fin, _) ==> {
            &&& code == next(s, e).0.champion
            &&& fin == next(s, e).0.champion_loc
            &&& original == s.original_loc
        },
{
}

/// The state a session reaches from `s` through the events `es`, in order.
pub open spec fn run_events(s: SessionModel, es: Seq<EventModel>) -> SessionModel
    decreases es.len(),
{
    if es.len() == 0 {
        s
    } else {
        next(run_events(s, es.drop_last()), es.last()).0
    }
}

/// Whether each of the events `es` is of the kind that the session, started
/// in `s`, waits for when it comes.
pub open spec fn valid_events(s: SessionModel, es: Seq<EventModel>) -> bool
    decreases es.len(),
{
    if es.len() == 0 {
        true
    } else {
        valid_events(s, es.drop_last()) && expects(run_events(s, es.drop_last()).stage, es.last())
    }
}

/// The `i`-th of the events `es` is a passing run of the tests `tests`
/// against the candidate `code`, of `loc` lines of code: the step before it
/// asked for exactly that run, and the session waited for its outcome.
pub open spec fn passed_candidate(
    s: SessionModel,
    es: Seq<EventModel>,
    i: int,
    code: Seq<char>,
    loc: u32,
    tests: Seq<char>,
) -> bool {
    &&& 0 < i < es.len()
    &&& next(run_events(s, es.take(i - 1)), es[i - 1]).1 == ActionModel::RunTests(code, tests)
    &&& run_events(s, es.take(i)).stage == Stage::Verify
    &&& run_events(s, es.take(i)).candidate == code
    &&& run_events(s, es.take(i)).candidate_loc == loc
    &&& run_events(s, es.take(i)).tests == tests
    &&& es[i] matches EventModel::TestsRan(passed, _) && passed
}

/// A session waits for a candidate's test run only after asking for it.
proof fn lemma_verify_follows_run_request(s: SessionModel, e: EventModel)
    requires
        wf(s),
        expects(s.stage, e),
        next(s, e).0.stage == Stage::Verify,
    ensures
        next(s, e).1 == ActionModel::RunTests(next(s, e).0.candidate, next(s, e).0.tests),
{
}

/// Along any run of a session from its start, the invariant holds, and the
/// best code is the submitted code or a candidate that passed the session's
/// tests.
proof fn lemma_run_keeps_tested_code(s0: SessionModel, es: Seq<EventModel>)
    requires
        wf(s0),
        s0.stage == Stage::Triage,
        valid_events(s0, es),
    ensures
        wf(run_events(s0, es)),
        run_events(s0, es).code == s0.code,
        run_events(s0, es).lang == s0.lang,
        run_events(s0, es).champion == s0.code || exists|i: int|
            passed_candidate(
                s0,
                es,
                i,
                run_events(s0, es).champion,
                run_events(s0, es).champion_loc,
                run_events(s0, es).tests,
            ),
    decreases es.len(),
{
    if es.len() > 0 {
        let pre = es.drop_last();
        let e = es.last();
        lemma_run_keeps_tested_code(s0, pre);
        let cur = run_events(s0, pre);
        let nxt = next(cur, e).0;
        lemma_next_keeps_wf(cur, e);
        assert(run_events(s0, es) == nxt);
        if nxt.champion != s0.code {
            if nxt.champion != cur.champion {
                lemma_champion_needs_passing_tests(cur, e);
                let i = pre.len() as int;
                assert(i > 0);
                let before = pre.drop_last();
                assert(valid_events(s0, pre));
                assert(valid_events(s0, before) && expects(run_events(s0, before).stage, pre.last()));
                lemma_run_keeps_tested_code(s0, before);
                lemma_verify_follows_run_request(run_events(s0, before), pre.last());
                assert(es.take(i) =~= pre);
                assert(es.take(i - 1) =~= before);
                assert(es[i - 1] == pre.last());
                assert(passed_candidate(s0, es, i, nxt.champion, nxt.champion_loc, nxt.tests));
            } else {
                let i = choose|i: int|
                    passed_candidate(s0, pre, i, cur.champion, cur.champion_loc, cur.tests);
                assert(es.take(i) =~= pre.take(i));
                assert(es.take(i - 1) =~= pre.take(i - 1));
                assert(es[i] == pre[i]);
                assert(es[i - 1] == pre[i - 1]);
                assert(passed_candidate(s0, es, i, nxt.champion, nxt.champion_loc, nxt.tests));
            }
        }
    }
}

/// Over a whole session, from its start through any events of the kinds it
/// waits for: when it finishes well, it reports the submitted line count, and
/// the code it keeps is either the submitted code, with the same count, or a
/// candidate with fewer lines of code whose run of the session's tests passed.
/// So a session that reports no fewer lines keeps the submitted code.
pub proof fn lemma_session_keeps_tested_code(s0: SessionModel, es: Seq<EventModel>)
    requires
        wf(s0),
        s0.stage == Stage::Triage,
        valid_events(s0, es),
        es.len() > 0,
    ensures
        next(run_events(s0, es.drop_last()), es.last()).1 matches ActionModel::FinishOk(
            code,
            original,
            fin,
            _,
        ) ==> {
            &&& original == s0.original_loc
            &&& fin == code_lines(code, s0.lang) as u32
            &&& (fin == original ==> code == s0.code)
            &&& (code == s0.code && fin == original) || (fin < original && exists|i: int|
                passed_candidate(s0, es, i, code, fin, run_events(s0, es).tests))
        },
{
    let pre = es.drop_last();
    lemma_run_keeps_tested_code(s0, pre);
    lemma_run_keeps_tested_code(s0, es);
    lemma_finish_is_champion(run_events(s0, pre), es.last());
}

impl Session {
    /// Every session keeps the invariant.
    #[verifier::type_invariant]
    closed spec fn keeps_wf(self) -> bool {
        wf(self@)
    }

    /// A new session for `code`, a source at `file_rel_path` in the language
    /// named `lang`; its first action asks the model whether the code can be
    /// shorter.
    pub fn start(code: &str, lang: &str, file_rel_path: &str) -> (r: (Session, Action))
        ensures
            r.0@.code == code@,
            r.0@.lang == lang@,
            r.0@.path == file_rel_path@,
            r.0@.stage == Stage::Triage,
            wf(r.0@),
            potential(r.0@) == 17,
            r.1@ == ActionModel::AskModel(triage_prompt_text(code@)),
    {
        let loc = count_loc(code, lang).non_import;
        let s = Session {
            code: code.to_string(),
            lang: lang.to_string(),
            file_rel_path: file_rel_path.to_string(),
            original_loc: loc,
            tests: String::new(),
            champion: code.to_string(),
            champion_loc: loc,
            candidate: String::new(),
            candidate_loc: 0,
            rounds: 0,
            stalls: 0,
            stage: Stage::Triage,
        };
        (s, Action::AskModel(triage_prompt(code)))
    }

    /// What the session waits for.
    pub fn stage(&self) -> (r: Stage)
        ensures
            r == self@.stage,
    {
        self.stage
    }

    /// How many shorter versions the session has asked for.
    pub fn rounds(&self) -> (r: u32)
        ensures
            r == self@.rounds,
    {
        self.rounds
    }

    /// How many attempts in a row have brought nothing.
    pub fn stalls(&self) -> (r: u32)
        ensures
            r == self@.stalls,
    {
        self.stalls
    }

    /// The lines of code of the submitted code.
    pub fn original_loc(&self) -> (r: u32)
        ensures
            r == self@.original_loc,
    {
        self.original_loc
    }

    /// The lines of code of the best code so far.
    pub fn champion_loc(&self) -> (r: u32)
        ensures
            r == self@.champion_loc,
    {
        self.champion_loc
    }

    /// Whether the session waits for this kind of event.
    pub fn accepts(&self, event: &Event) -> (r: bool)
        ensures
            r == expects(self@.stage, event@),
    {
        match (self.stage, event) {
            (Stage::Triage, Event::ModelReplied(_)) => true,
            (Stage::Tests, Event::ModelReplied(_)) => true,
            (Stage::Compress, Event::ModelReplied(_)) => true,
            (Stage::Workspace, Event::WorkspaceCreated(_)) => true,
            (Stage::RedCheck, Event::TestsRan(_)) => true,
            (Stage::GreenCheck, Event::TestsRan(_)) => true,
            (Stage::Verify, Event::TestsRan(_)) => true,
            _ => false,
        }
    }

    /// This session with the fields that change from one state to the next
    /// replaced.
    fn with(
        &self,
        tests: String,
        champion: String,
        champion_loc: u32,
        candidate: String,
        candidate_loc: u32,
        rounds: u32,
        stalls: u32,
        stage: Stage,
    ) -> (r: Session)
        requires
            wf(
                SessionModel {
                    tests: tests@,
                    champion: champion@,
                    champion_loc,
                    candidate: candidate@,
                    candidate_loc,
                    rounds,
                    stalls,
                    stage,
                    ..self@
                },
            ),
        ensures
            r@ == (SessionModel {
                tests: tests@,
                champion: champion@,
                champion_loc,
                candidate: candidate@,
                candidate_loc,
                rounds,
                stalls,
                stage,
                ..self@
            }),
    {
        Session {
            code: self.code.clone(),
            lang: self.lang.clone(),
            file_rel_path: self.file_rel_path.clone(),
            original_loc: self.original_loc,
            tests,
            champion,
            champion_loc,
            candidate,
            candidate_loc,
            rounds,
            stalls,
            stage,
        }
    }

    /// This session moved to `stage`.
    fn moved(&self, stage: Stage) -> (r: Session)
        requires
            wf(SessionModel { stage, ..self@ }),
        ensures
            r@ == (SessionModel { stage, ..self@ }),
    {
        self.with(
            self.tests.clone(),
            self.champion.clone(),
            self.champion_loc,
            self.candidate.clone(),
            self.candidate_loc,
            self.rounds,
            self.stalls,
            stage,
        )
    }

    /// The end of the loop, with the best code and stall count given.
    fn finish_with(&self, champion: String, champion_loc: u32, stalls: u32) -> (r: (Session, Action))
        requires
            wf(finish_ok(SessionModel { champion: champion@, champion_loc, stalls, ..self@ }).0),
        ensures
            (r.0@, r.1@) == finish_ok(SessionModel { champion: champion@, champion_loc, stalls, ..self@ }),
    {
        let result = CompressResult {
            code: champion.clone(),
            original_loc: self.original_loc,
            final_loc: champion_loc,
            rounds: self.rounds,
        };
        let next = self.with(
            self.tests.clone(),
            champion,
            champion_loc,
            self.candidate.clone(),
            self.candidate_loc,
            self.rounds,
            stalls,
            Stage::Done,
        );
        (next, Action::Finish(Ok(result)))
    }

    /// The head of the loop, with the best code and stall count given.
    fn round_with(&self, champion: String, champion_loc: u32, stalls: u32) -> (r: (Session, Action))
        requires
            self@.rounds <= MAX_ROUNDS,
            wf(loop_head(SessionModel { champion: champion@, champion_loc, stalls, ..self@ }).0),
        ensures
            (r.0@, r.1@) == loop_head(SessionModel { champion: champion@, champion_loc, stalls, ..self@ }),
    {
        if self.rounds < MAX_ROUNDS && stalls < MAX_STALLS && champion_loc > 1 {
            let prompt = compress_prompt(champion.as_str(), self.lang.as_str());
            let next = self.with(
                self.tests.clone(),
                champion,
                champion_loc,
                self.candidate.clone(),
                self.candidate_loc,
                self.rounds + 1,
                stalls,
                Stage::Compress,
            );
            (next, Action::AskModel(prompt))
        } else {
            self.finish_with(champion, champion_loc, stalls)
        }
    }

    /// The session that follows this one, and the next action, given what
    /// came of the last action.
    fn successor(&self, event: Event) -> (r: (Session, Action))
        requires
            wf(self@),
            expects(self@.stage, event@),
        ensures
            (r.0@, r.1@) == next(self@, event@),
    {
        proof {
            lemma_next_keeps_wf(self@, event@);
        }
        match (self.stage, event) {
            (Stage::Triage, Event::ModelReplied(reply)) => {
                let no = match &reply {
                    Ok(answer) => answer_declines(answer.as_str()),
                    Err(_) => false,
                };
                if no {
                    let result = CompressResult {
                        code: self.code.clone(),
                        original_loc: self.original_loc,
                        final_loc: self.original_loc,
                        rounds: 0,
                    };
                    (self.moved(Stage::Done), Action::Finish(Ok(result)))
                } else {
                    (self.moved(Stage::Workspace), Action::CreateWorkspace)
                }
            },
            (Stage::Workspace, Event::WorkspaceCreated(Err(err))) => {
                (self.moved(Stage::Done), Action::Finish(Err(err)))
            },
            (Stage::Workspace, Event::WorkspaceCreated(Ok(()))) => {
                let prompt = tests_prompt(
                    self.code.as_str(),
                    self.lang.as_str(),
                    self.file_rel_path.as_str(),
                );
                (self.moved(Stage::Tests), Action::AskModel(prompt))
            },
            (Stage::Tests, Event::ModelReplied(Err(err))) => {
                (self.moved(Stage::Done), Action::Finish(Err(err)))
            },
            (Stage::Tests, Event::ModelReplied(Ok(reply))) => {
                let t = extract_code_block(reply.as_str());
                let next = self.with(
                    t.clone(),
                    self.champion.clone(),
                    self.champion_loc,
                    self.candidate.clone(),
                    self.candidate_loc,
                    self.rounds,
                    self.stalls,
                    Stage::RedCheck,
                );
                (next, Action::RunTests { code: String::new(), tests: t })
            },
            (Stage::RedCheck, Event::TestsRan(result)) => {
                if result.passed {
                    let msg =
                        "generated tests pass with empty implementation (tests are trivial or broken)".to_string();
                    (self.moved(Stage::Done), Action::Finish(Err(msg)))
                } else {
                    let action = Action::RunTests {
                        code: self.code.clone(),
                        tests: self.tests.clone(),
                    };
                    (self.moved(Stage::GreenCheck), action)
                }
            },
            (Stage::GreenCheck, Event::TestsRan(result)) => {
                if !result.passed {
                    let mut msg: Vec<char> = Vec::new();
                    extend_str(&mut msg, "code does not pass generated tests:\n");
                    extend_str(&mut msg, result.output.as_str());
                    (self.moved(Stage::Done), Action::Finish(Err(string_of(&msg))))
                } else {
                    self.round_with(self.champion.clone(), self.champion_loc, self.stalls)
                }
            },
            (Stage::Compress, Event::ModelReplied(Err(_))) => {
                self.finish_with(self.champion.clone(), self.champion_loc, self.stalls)
            },
            (Stage::Compress, Event::ModelReplied(Ok(reply))) => {
                let c = extract_code_block(reply.as_str());
                let n = count_loc(c.as_str(), self.lang.as_str()).non_import;
                if n >= self.champion_loc {
                    self.round_with(self.champion.clone(), self.champion_loc, self.stalls + 1)
                } else {
                    let next = self.with(
                        self.tests.clone(),
                        self.champion.clone(),
                        self.champion_loc,
                        c.clone(),
                        n,
                        self.rounds,
                        self.stalls,
                        Stage::Verify,
                    );
                    (next, Action::RunTests { code: c, tests: self.tests.clone() })
                }
            },
            (Stage::Verify, Event::TestsRan(result)) => {
                if !result.passed {
                    self.round_with(self.champion.clone(), self.champion_loc, self.stalls + 1)
                } else {
                    self.round_with(self.candidate.clone(), self.candidate_loc, 0)
                }
            },
            _ => (self.moved(self.stage), Action::CreateWorkspace),
        }
    }

    /// Takes what came of the last action and decides the next one.
    pub fn step(&mut self, event: Event) -> (a: Action)
        requires
            expects(old(self)@.stage, event@),
        ensures
            (final(self)@, a@) == next(old(self)@, event@),
            wf(final(self)@),
            potential(final(self)@) < potential(old(self)@),
            final(self)@.stage == Stage::Done <==> a is Finish,
    {
        proof {
            use_type_invariant(&*self);
            lemma_next_keeps_wf(self@, event@);
        }
        let (next, action) = self.successor(event);
        *self = next;
        action
    }
}

} // verus!
