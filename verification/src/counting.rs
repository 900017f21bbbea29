//! Counting the lines of a source text: all of them, the non-blank ones, and
//! the non-blank ones that are not imports.
use vstd::prelude::*;
use crate::lang::{Lang, lang_named};
use crate::text::{
    chars_of, copy_range, find_from, find_in, has_at, line_end, lines, strip_cr, trim,
    trim_range, lemma_lines_len, lemma_find_in, lemma_trim_empty_iff_white, is_white,
};

verus! {

/// The line counts of a source text.
#[derive(Debug)]
pub struct LOCStats {
    pub total: u32,
    pub non_blank: u32,
    pub non_import: u32,
}

/// A line is blank when it holds nothing but whitespace.
pub open spec fn is_blank(line: Seq<char>) -> bool {
    trim(line).len() == 0
}

/// Whether a trimmed line imports something in the given language.
pub open spec fn is_import(line: Seq<char>, lang: Lang) -> bool {
    match lang {
        Lang::Python => "import "@.is_prefix_of(line) || "from "@.is_prefix_of(line),
        Lang::Rust => "use "@.is_prefix_of(line),
        Lang::JavaScript | Lang::TypeScript => "import "@.is_prefix_of(line) || (
        "const "@.is_prefix_of(line) && find_in(line, "require("@) is Some),
        Lang::Go | Lang::Java => "import "@.is_prefix_of(line),
        Lang::Cpp | Lang::C => "#include"@.is_prefix_of(line),
        Lang::Other => false,
    }
}

/// A line is code when it is not blank and, trimmed, is no import.
pub open spec fn is_code(line: Seq<char>, lang: Lang) -> bool {
    !is_blank(line) && !is_import(trim(line), lang)
}

/// The number of non-blank lines.
pub open spec fn count_non_blank(ls: Seq<Seq<char>>) -> nat
    decreases ls.len(),
{
    if ls.len() == 0 {
        0
    } else {
        (if is_blank(ls[0]) {
            0nat
        } else {
            1nat
        }) + count_non_blank(ls.drop_first())
    }
}

/// The number of code lines.
pub open spec fn count_code(ls: Seq<Seq<char>>, lang: Lang) -> nat
    decreases ls.len(),
{
    if ls.len() == 0 {
        0
    } else {
        (if is_code(ls[0], lang) {
            1nat
        } else {
            0nat
        }) + count_code(ls.drop_first(), lang)
    }
}

/// The number of code lines of a text in the language named `lang`: what
/// `count_loc(code, lang).non_import` gives, unless it has more lines than
/// `u32` holds.
pub open spec fn code_lines(code: Seq<char>, lang: Seq<char>) -> nat {
    count_code(lines(code), lang_named(lang))
}

/// The import rules of each language: Python imports start with `import `
/// or `from `, Rust ones with `use `, Go and Java ones with `import `, C and
/// C++ ones with `#include`; JavaScript and TypeScript share one rule, under
/// which a line starting with `import `, or starting with `const ` and
/// calling `require(`, is an import. No line imports in another language.
pub proof fn lemma_import_rules(l: Seq<char>)
    ensures
        "import "@.is_prefix_of(l) ==> {
            &&& is_import(l, Lang::Python)
            &&& is_import(l, Lang::JavaScript)
            &&& is_import(l, Lang::TypeScript)
            &&& is_import(l, Lang::Go)
            &&& is_import(l, Lang::Java)
        },
        "from "@.is_prefix_of(l) ==> is_import(l, Lang::Python),
        is_import(l, Lang::Python) <==> ("import "@.is_prefix_of(l) || "from "@.is_prefix_of(l)),
        is_import(l, Lang::Rust) <==> "use "@.is_prefix_of(l),
        ("const "@.is_prefix_of(l) && exists|i: int| 0 <= i && i + "require("@.len() <= l.len()
            && #[trigger] l.subrange(i, i + "require("@.len()) == "require("@)
            ==> is_import(l, Lang::JavaScript),
        is_import(l, Lang::TypeScript) == is_import(l, Lang::JavaScript),
        is_import(l, Lang::Go) <==> "import "@.is_prefix_of(l),
        is_import(l, Lang::Java) <==> "import "@.is_prefix_of(l),
        is_import(l, Lang::Cpp) <==> "#include"@.is_prefix_of(l),
        is_import(l, Lang::C) <==> "#include"@.is_prefix_of(l),
        !is_import(l, Lang::Other),
{
    let r = "require("@;
    if exists|i: int| 0 <= i && i + r.len() <= l.len() && #[trigger] l.subrange(i, i + r.len()) == r {
        let i = choose|i: int| 0 <= i && i + r.len() <= l.len() && #[trigger] l.subrange(i, i + r.len()) == r;
        lemma_find_in(l, r);
        assert(r.is_prefix_of(l.skip(i))) by {
            assert(l.skip(i).subrange(0, r.len() as int) =~= l.subrange(i, i + r.len()));
        }
    }
}

/// A non-blank line that, trimmed, imports something is no line of code; in
/// particular a JavaScript or TypeScript line starting with `import ` is
/// none.
pub proof fn lemma_import_is_not_code(line: Seq<char>, lang: Lang)
    requires
        is_import(trim(line), lang),
    ensures
        !is_code(line, lang),
        "import "@.is_prefix_of(trim(line)) ==> !is_code(line, Lang::TypeScript)
            && !is_code(line, Lang::JavaScript),
{
}

/// A line is blank exactly when all its characters are whitespace; a line
/// of code has a character that is not.
pub proof fn lemma_blank_is_all_white(line: Seq<char>, lang: Lang)
    ensures
        is_blank(line) <==> forall|i: int| 0 <= i < line.len() ==> is_white(#[trigger] line[i]),
        is_code(line, lang) ==> exists|i: int| 0 <= i < line.len() && !is_white(#[trigger] line[i]),
{
    lemma_trim_empty_iff_white(line);
}

/// No more lines are code than are non-blank.
pub proof fn lemma_counts_ordered(ls: Seq<Seq<char>>, lang: Lang)
    ensures
        count_code(ls, lang) <= count_non_blank(ls),
        count_non_blank(ls) <= ls.len(),
    decreases ls.len(),
{
    if ls.len() > 0 {
        lemma_counts_ordered(ls.drop_first(), lang);
    }
}

/// Whether `v` starts with the text `lit`.
pub fn starts_with_text(v: &Vec<char>, lit: &str) -> (r: bool)
    ensures
        r == lit@.is_prefix_of(v@),
{
    let p = chars_of(lit);
    assert(v@.skip(0) =~= v@);
    has_at(v, 0, &p)
}

/// Whether the text `lit` occurs in `v`.
pub fn contains_text(v: &Vec<char>, lit: &str) -> (r: bool)
    ensures
        r == (find_in(v@, lit@) is Some),
{
    let p = chars_of(lit);
    assert(v@.skip(0) =~= v@);
    find_from(v, 0, &p).is_some()
}

fn import_in(line: &Vec<char>, lang: Lang) -> (r: bool)
    ensures
        r == is_import(line@, lang),
{
    match lang {
        Lang::Python => starts_with_text(line, "import ") || starts_with_text(line, "from "),
        Lang::Rust => starts_with_text(line, "use "),
        Lang::JavaScript | Lang::TypeScript => starts_with_text(line, "import ") || (
        starts_with_text(line, "const ") && contains_text(line, "require(")),
        Lang::Go | Lang::Java => starts_with_text(line, "import "),
        Lang::Cpp | Lang::C => starts_with_text(line, "#include"),
        Lang::Other => false,
    }
}

/// Whether the (trimmed) line imports something in the language named `lang`.
pub fn is_import_line(line: &str, lang: &str) -> (r: bool)
    ensures
        r == is_import(line@, lang_named(lang@)),
{
    let v = chars_of(line);
    import_in(&v, Lang::from_name(lang))
}

/// Counts the lines of `code`: all of them, the non-blank ones, and the
/// non-blank ones that are no import in the language named `lang`. Each count
/// is kept modulo 2^32, as a cast to `u32` keeps it.
pub fn count_loc(code: &str, lang: &str) -> (stats: LOCStats)
    ensures
        stats.total == lines(code@).len() as u32,
        stats.non_blank == count_non_blank(lines(code@)) as u32,
        stats.non_import == count_code(lines(code@), lang_named(lang@)) as u32,
{
    let v = chars_of(code);
    let kind = Lang::from_name(lang);
    let mut pos: usize = 0;
    let mut total: usize = 0;
    let mut non_blank: usize = 0;
    let mut non_import: usize = 0;
    let ghost all = lines(v@);
    assert(v@.skip(0) =~= v@);
    while pos < v.len()
        invariant
            pos <= v.len(),
            v@ == code@,
            kind == lang_named(lang@),
            all == lines(v@),
            non_import <= non_blank <= total <= pos,
            total + lines(v@.skip(pos as int)).len() == all.len(),
            non_blank + count_non_blank(lines(v@.skip(pos as int))) == count_non_blank(all),
            non_import + count_code(lines(v@.skip(pos as int)), kind) == count_code(all, kind),
        decreases v.len() - pos,
    {
        let ghost rest = lines(v@.skip(pos as int));
        let (end, found) = line_end(&v, pos);
        let hi = if found && end > pos && v[end - 1] == '\r' {
            end - 1
        } else {
            end
        };
        let ghost line = if found {
            strip_cr(v@.subrange(pos as int, end as int))
        } else {
            v@.skip(pos as int)
        };
        assert(v@.subrange(pos as int, hi as int) == line) by {
            if found {
                if end > pos && v@[end - 1] == '\r' {
                    assert(v@.subrange(pos as int, end as int).drop_last() =~= v@.subrange(
                        pos as int,
                        hi as int,
                    ));
                }
            } else {
                assert(v@.skip(pos as int) =~= v@.subrange(pos as int, v.len() as int));
            }
        }
        let (a, b) = trim_range(&v, pos, hi);
        assert(rest.drop_first() == lines(if found {
            v@.skip(end + 1)
        } else {
            v@.skip(v.len() as int)
        })) by {
            if found {
                assert(rest.drop_first() =~= lines(v@.skip(end + 1)));
            } else {
                assert(rest.drop_first() =~= Seq::<Seq<char>>::empty());
                assert(v@.skip(v.len() as int) =~= Seq::<char>::empty());
            }
        }
        assert(rest[0] == line);
        total = total + 1;
        if a < b {
            non_blank = non_blank + 1;
            let t = copy_range(&v, a, b);
            if !import_in(&t, kind) {
                non_import = non_import + 1;
            }
        }
        pos = if found {
            end + 1
        } else {
            v.len()
        };
    }
    assert(v@.skip(pos as int) =~= Seq::<char>::empty());
    proof {
        lemma_lines_len(v@);
    }
    LOCStats {
        total: total as u32,
        non_blank: non_blank as u32,
        non_import: non_import as u32,
    }
}

} // verus!
