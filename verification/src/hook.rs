//! The editor hook: what an edit request holds, which file it concerns, and
//! the answer that refuses the edit with a shorter version.
use vstd::prelude::*;
use crate::compress::CompressResult;
use crate::path::opt_text;
use crate::text::{
    chars_of, copy_range, decimal, extend_str, find_in, push_decimal,
    replace_first, replace_first_chars, same_text, string_of,
};

verus! {

broadcast use vstd::string::group_string_axioms;

// ---------------------------------------------------------------------------
// The request
// ---------------------------------------------------------------------------

/// An edit that the hook is asked about.
#[derive(Debug)]
pub enum ParsedToolInput {
    /// A whole file written anew.
    Write { file_path: String, content: String },
    /// A file changed in place.
    Edit { file_path: String, new_string: String },
}

/// The text fields of a tool's input; a field is absent when the input is not
/// an object, lacks it, or holds something other than a string there.
#[derive(Debug)]
pub struct ToolFields {
    pub file_path: Option<String>,
    pub content: Option<String>,
    pub new_string: Option<String>,
}

/// The edit that a tool call stands for: a `Write` needs a path and content,
/// an `Edit` a path and the new text; other tools are no edit.
pub fn parse_tool_input(tool_name: &str, fields: ToolFields) -> (r: Option<ParsedToolInput>)
    ensures
        match r {
            Some(ParsedToolInput::Write { file_path, content }) => {
                &&& tool_name@ == "Write"@
                &&& fields.file_path == Some(file_path)
                &&& fields.content == Some(content)
            },
            Some(ParsedToolInput::Edit { file_path, new_string }) => {
                &&& tool_name@ == "Edit"@
                &&& fields.file_path == Some(file_path)
                &&& fields.new_string == Some(new_string)
            },
            None => {
                ||| tool_name@ != "Write"@ && tool_name@ != "Edit"@
                ||| fields.file_path is None
                ||| tool_name@ == "Write"@ && fields.content is None
                ||| tool_name@ == "Edit"@ && fields.new_string is None
            },
        },
{
    if same_text(tool_name, "Write") {
        match (fields.file_path, fields.content) {
            (Some(file_path), Some(content)) => Some(ParsedToolInput::Write { file_path, content }),
            _ => None,
        }
    } else if same_text(tool_name, "Edit") {
        match (fields.file_path, fields.new_string) {
            (Some(file_path), Some(new_string)) => Some(
                ParsedToolInput::Edit { file_path, new_string },
            ),
            _ => None,
        }
    } else {
        None
    }
}

/// The content of a file after an edit, from what the file held (when it
/// could be read) and the new text: the first occurrence of the old content in
/// itself replaced by the new text.
pub fn edited_content(existing: Option<&str>, new_string: &str) -> (r: String)
    ensures
        r@ == match existing {
            Some(e) => replace_first(e@, e@, new_string@),
            None => new_string@,
        },
        r@ == new_string@,
{
    match existing {
        Some(e) => {
            let v = chars_of(e);
            let n = chars_of(new_string);
            let out = replace_first_chars(&v, &v, &n);
            proof {
                lemma_replace_whole(e@, new_string@);
            }
            string_of(&out)
        },
        None => new_string.to_string(),
    }
}

/// Replacing the first occurrence of a whole text in itself gives the
/// replacement: an edit replaces the file's content in full.
pub proof fn lemma_replace_whole(s: Seq<char>, r: Seq<char>)
    ensures
        replace_first(s, s, r) == r,
{
    assert(s.subrange(0, s.len() as int) =~= s);
    assert(find_in(s, s) == Some(0int));
    assert(s.take(0) + r + s.skip(s.len() as int) =~= r);
}

/// `s` without its leading `/` characters.
pub open spec fn strip_slashes(s: Seq<char>) -> Seq<char>
    decreases s.len(),
{
    if s.len() > 0 && s[0] == '/' {
        strip_slashes(s.drop_first())
    } else {
        s
    }
}

/// A path relative to `cwd`: `cwd` cut off its front where it is a prefix,
/// then the leading `/` characters.
pub open spec fn relative_to(file_path: Seq<char>, cwd: Seq<char>) -> Seq<char> {
    strip_slashes(
        if cwd.is_prefix_of(file_path) {
            file_path.skip(cwd.len() as int)
        } else {
            file_path
        },
    )
}

/// The path of a file relative to the project directory `cwd`.
pub fn make_relative(file_path: &str, cwd: &str) -> (r: String)
    ensures
        r@ == relative_to(file_path@, cwd@),
{
    let p = chars_of(file_path);
    let c = chars_of(cwd);
    assert(p@.skip(0) =~= p@);
    let start0: usize = if crate::text::has_at(&p, 0, &c) {
        c.len()
    } else {
        0
    };
    let mut i = start0;
    assert(p@.skip(start0 as int) == if cwd@.is_prefix_of(file_path@) {
        file_path@.skip(cwd@.len() as int)
    } else {
        file_path@
    });
    while i < p.len() && p[i] == '/'
        invariant
            start0 <= i <= p.len(),
            relative_to(file_path@, cwd@) == strip_slashes(p@.skip(i as int)),
        decreases p.len() - i,
    {
        assert(p@.skip(i as int).drop_first() =~= p@.skip(i + 1));
        i = i + 1;
    }
    let out = copy_range(&p, i, p.len());
    assert(out@ =~= p@.skip(i as int));
    string_of(&out)
}

/// A file under the working directory is named by what follows the
/// directory and its `/`; a relative path that does not start with `/` is
/// kept as it is.
pub proof fn lemma_relative_inside(cwd: Seq<char>, q: Seq<char>)
    requires
        q.len() == 0 || q[0] != '/',
    ensures
        relative_to(cwd + "/"@ + q, cwd) == q,
        !cwd.is_prefix_of(q) ==> relative_to(q, cwd) == q,
{
    reveal_strlit("/");
    let p = cwd + "/"@ + q;
    assert(cwd.is_prefix_of(p)) by {
        assert(p.subrange(0, cwd.len() as int) =~= cwd);
    }
    assert(p.skip(cwd.len() as int) =~= seq!['/'] + q);
    assert((seq!['/'] + q).drop_first() =~= q);
    assert(strip_slashes(q) == q);
    assert(strip_slashes(seq!['/'] + q) == strip_slashes(q));
}

/// A relative path never starts with `/`.
pub proof fn lemma_relative_has_no_leading_slash(file_path: Seq<char>, cwd: Seq<char>)
    ensures
        relative_to(file_path, cwd).len() > 0 ==> relative_to(file_path, cwd)[0] != '/',
{
    lemma_strip_slashes(
        if cwd.is_prefix_of(file_path) {
            file_path.skip(cwd.len() as int)
        } else {
            file_path
        },
    );
}

proof fn lemma_strip_slashes(s: Seq<char>)
    ensures
        strip_slashes(s).len() > 0 ==> strip_slashes(s)[0] != '/',
    decreases s.len(),
{
    if s.len() > 0 && s[0] == '/' {
        lemma_strip_slashes(s.drop_first());
    }
}

// ---------------------------------------------------------------------------
// The answer
// ---------------------------------------------------------------------------

/// The decision part of the hook's answer.
#[derive(Debug)]
pub struct HookDecision {
    pub hook_event_name: String,
    pub permission_decision: String,
    pub permission_decision_reason: String,
}

/// The hook's answer.
#[derive(Debug)]
pub struct HookResponse {
    pub hook_specific_output: HookDecision,
}

/// The answer that refuses an edit before the tool runs, for `reason`.
pub fn deny_response(reason: String) -> (r: HookResponse)
    ensures
        r.hook_specific_output.hook_event_name@ == "PreToolUse"@,
        r.hook_specific_output.permission_decision@ == "deny"@,
        r.hook_specific_output.permission_decision_reason == reason,
{
    HookResponse {
        hook_specific_output: HookDecision {
            hook_event_name: "PreToolUse".to_string(),
            permission_decision: "deny".to_string(),
            permission_decision_reason: reason,
        },
    }
}

/// Why the hook refuses an edit after a session: it found a shorter version,
/// or the session failed; none when the code is already as short as it gets.
pub open spec fn denial_text(outcome: Result<CompressResult, String>) -> Option<Seq<char>> {
    match outcome {
        Ok(r) => if r.final_loc < r.original_loc {
            Some(
                "min-loc: compressed from "@ + decimal(r.original_loc as nat) + " to "@ + decimal(
                    r.final_loc as nat,
                ) + " non-import lines in "@ + decimal(r.rounds as nat)
                    + " rounds. Replace your code with this shorter version:\n\n"@ + r.code@
                    + "\n"@,
            )
        } else {
            None
        },
        Err(e) => Some("min-loc: compression failed: "@ + e@),
    }
}

/// The reason to refuse an edit, given how the session for it ended.
pub fn denial_reason(outcome: &Result<CompressResult, String>) -> (r: Option<String>)
    ensures
        opt_text(r) == denial_text(*outcome),
{
    match outcome {
        Ok(res) => {
            if res.final_loc < res.original_loc {
                let mut v: Vec<char> = Vec::new();
                extend_str(&mut v, "min-loc: compressed from ");
                push_decimal(&mut v, res.original_loc);
                extend_str(&mut v, " to ");
                push_decimal(&mut v, res.final_loc);
                extend_str(&mut v, " non-import lines in ");
                push_decimal(&mut v, res.rounds);
                extend_str(&mut v, " rounds. Replace your code with this shorter version:\n\n");
                extend_str(&mut v, res.code.as_str());
                extend_str(&mut v, "\n");
                Some(string_of(&v))
            } else {
                None
            }
        },
        Err(e) => {
            let mut v: Vec<char> = Vec::new();
            extend_str(&mut v, "min-loc: compression failed: ");
            extend_str(&mut v, e.as_str());
            Some(string_of(&v))
        },
    }
}

} // verus!
