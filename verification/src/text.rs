//! Text primitives over characters: whitespace, trimming, searching,
//! replacing, line and word splitting, decimal rendering.
//!
//! Every executable function here works on `Vec<char>` (or `&str`) and is
//! specified over `Seq<char>`.
use vstd::prelude::*;
use vstd::utf8::encode_utf8;

verus! {

broadcast use vstd::string::group_string_axioms;

// ---------------------------------------------------------------------------
// Whitespace and trimming
// ---------------------------------------------------------------------------

/// The Unicode `White_Space` property, which is what `char::is_whitespace`
/// and the trimming and splitting functions of `str` go by.
pub open spec fn is_white(c: char) -> bool {
    ||| ('\u{9}' <= c && c <= '\u{d}')
    ||| c == ' '
    ||| c == '\u{85}'
    ||| c == '\u{a0}'
    ||| c == '\u{1680}'
    ||| ('\u{2000}' <= c && c <= '\u{200a}')
    ||| c == '\u{2028}'
    ||| c == '\u{2029}'
    ||| c == '\u{202f}'
    ||| c == '\u{205f}'
    ||| c == '\u{3000}'
}

/// Leading whitespace removed.
pub open spec fn trim_start(s: Seq<char>) -> Seq<char>
    decreases s.len(),
{
    if s.len() > 0 && is_white(s[0]) {
        trim_start(s.drop_first())
    } else {
        s
    }
}

/// Trailing whitespace removed.
pub open spec fn trim_end(s: Seq<char>) -> Seq<char>
    decreases s.len(),
{
    if s.len() > 0 && is_white(s.last()) {
        trim_end(s.drop_last())
    } else {
        s
    }
}

/// Leading and trailing whitespace removed (`str::trim`).
pub open spec fn trim(s: Seq<char>) -> Seq<char> {
    trim_end(trim_start(s))
}

/// Whether `c` is whitespace.
pub fn is_white_char(c: char) -> (r: bool)
    ensures
        r == is_white(c),
{
    ('\u{9}' <= c && c <= '\u{d}') || c == ' ' || c == '\u{85}' || c == '\u{a0}' || c
        == '\u{1680}' || ('\u{2000}' <= c && c <= '\u{200a}') || c == '\u{2028}' || c
        == '\u{2029}' || c == '\u{202f}' || c == '\u{205f}' || c == '\u{3000}'
}

/// The bounds of the trimmed part of `v[lo..hi]`.
pub fn trim_range(v: &Vec<char>, lo: usize, hi: usize) -> (r: (usize, usize))
    requires
        lo <= hi <= v.len(),
    ensures
        lo <= r.0 <= r.1 <= hi,
        v@.subrange(r.0 as int, r.1 as int) == trim(v@.subrange(lo as int, hi as int)),
{
    let mut i: usize = lo;
    while i < hi && is_white_char(v[i])
        invariant
            lo <= i <= hi <= v.len(),
            trim_start(v@.subrange(lo as int, hi as int)) == trim_start(
                v@.subrange(i as int, hi as int),
            ),
        decreases hi - i,
    {
        assert(v@.subrange(i as int, hi as int).drop_first() =~= v@.subrange(
            i + 1,
            hi as int,
        ));
        i = i + 1;
    }
    let mut j: usize = hi;
    while j > i && is_white_char(v[j - 1])
        invariant
            lo <= i <= j <= hi <= v.len(),
            trim_start(v@.subrange(lo as int, hi as int)) == v@.subrange(i as int, hi as int),
            trim_end(v@.subrange(i as int, hi as int)) == trim_end(
                v@.subrange(i as int, j as int),
            ),
        decreases j - i,
    {
        assert(v@.subrange(i as int, j as int).drop_last() =~= v@.subrange(
            i as int,
            j - 1,
        ));
        j = j - 1;
    }
    (i, j)
}

/// Trimming leaves nothing exactly when every character is whitespace.
pub proof fn lemma_trim_empty_iff_white(s: Seq<char>)
    ensures
        trim(s).len() == 0 <==> forall|i: int| 0 <= i < s.len() ==> is_white(#[trigger] s[i]),
{
    lemma_trim_start_empty(s);
    let t = trim_start(s);
    lemma_trim_start_fixed(s);
    if t.len() > 0 {
        lemma_trim_end_keeps_first(t);
    }
}

proof fn lemma_trim_start_empty(s: Seq<char>)
    ensures
        trim_start(s).len() == 0 <==> forall|i: int| 0 <= i < s.len() ==> is_white(#[trigger] s[i]),
    decreases s.len(),
{
    if s.len() > 0 && is_white(s[0]) {
        lemma_trim_start_empty(s.drop_first());
        if trim_start(s).len() == 0 {
            assert forall|i: int| 0 <= i < s.len() implies is_white(#[trigger] s[i]) by {
                if i > 0 {
                    assert(s[i] == s.drop_first()[i - 1]);
                }
            }
        } else {
            if forall|i: int| 0 <= i < s.len() ==> is_white(#[trigger] s[i]) {
                assert forall|i: int| 0 <= i < s.drop_first().len() implies is_white(
                    #[trigger] s.drop_first()[i],
                ) by {
                    assert(s.drop_first()[i] == s[i + 1]);
                }
            }
        }
    }
}

proof fn lemma_trim_end_keeps_first(t: Seq<char>)
    requires
        t.len() > 0,
        !is_white(t[0]),
    ensures
        trim_end(t).len() > 0,
    decreases t.len(),
{
    if is_white(t.last()) {
        assert(t.len() > 1);
        assert(t.drop_last()[0] == t[0]);
        lemma_trim_end_keeps_first(t.drop_last());
    }
}

/// Trimming keeps every character from the first to the last that is not
/// whitespace: for such characters at `k` and `k2`, `trim(s)` is `s[a..b]`
/// with `a <= k` and `k2 < b`.
pub proof fn lemma_trim_keeps(s: Seq<char>, k: int, k2: int) -> (r: (int, int))
    requires
        0 <= k <= k2 < s.len(),
        !is_white(s[k]),
        !is_white(s[k2]),
    ensures
        0 <= r.0 <= k,
        k2 < r.1 <= s.len(),
        trim(s) == s.subrange(r.0, r.1),
{
    let a = lemma_trim_start_before(s, k);
    let t = s.skip(a);
    assert(t[k2 - a] == s[k2]);
    let m = lemma_trim_end_after(t, k2 - a);
    assert(t.take(m) =~= s.subrange(a, a + m));
    (a, a + m)
}

proof fn lemma_trim_start_before(s: Seq<char>, k: int) -> (a: int)
    requires
        0 <= k < s.len(),
        !is_white(s[k]),
    ensures
        0 <= a <= k,
        trim_start(s) == s.skip(a),
    decreases s.len(),
{
    if s.len() > 0 && is_white(s[0]) {
        assert(s.drop_first()[k - 1] == s[k]);
        let a = lemma_trim_start_before(s.drop_first(), k - 1);
        assert(s.drop_first().skip(a) =~= s.skip(a + 1));
        a + 1
    } else {
        assert(s.skip(0) =~= s);
        0
    }
}

proof fn lemma_trim_end_after(t: Seq<char>, k: int) -> (m: int)
    requires
        0 <= k < t.len(),
        !is_white(t[k]),
    ensures
        k < m <= t.len(),
        trim_end(t) == t.take(m),
    decreases t.len(),
{
    if is_white(t.last()) {
        assert(t.drop_last()[k] == t[k]);
        let m = lemma_trim_end_after(t.drop_last(), k);
        assert(t.drop_last().take(m) =~= t.take(m));
        m
    } else {
        assert(t.take(t.len() as int) =~= t);
        t.len() as int
    }
}

/// `trim` removes nothing from a text that it has already trimmed.
pub proof fn lemma_trim_idempotent(s: Seq<char>)
    ensures
        trim(trim(s)) == trim(s),
{
    lemma_trim_start_fixed(s);
    lemma_trim_start_of_trim_end(trim_start(s));
    lemma_trim_end_fixed(trim_start(s));
}

/// Trimming keeps a part of the text: `trim(s)` is `s[a..b]`.
pub proof fn lemma_trim_bounds(s: Seq<char>) -> (r: (int, int))
    ensures
        0 <= r.0 <= r.1 <= s.len(),
        trim(s) == s.subrange(r.0, r.1),
{
    let a = lemma_trim_start_skip(s);
    let t = s.skip(a);
    lemma_trim_end_fixed(t);
    let b = trim_end(t).len() as int;
    assert(trim(s) =~= s.subrange(a, a + b));
    (a, a + b)
}

proof fn lemma_trim_start_skip(s: Seq<char>) -> (a: int)
    ensures
        0 <= a <= s.len(),
        trim_start(s) == s.skip(a),
    decreases s.len(),
{
    if s.len() > 0 && is_white(s[0]) {
        let a = lemma_trim_start_skip(s.drop_first());
        assert(s.drop_first().skip(a) =~= s.skip(a + 1));
        a + 1
    } else {
        assert(s.skip(0) =~= s);
        0
    }
}

proof fn lemma_trim_start_fixed(s: Seq<char>)
    ensures
        trim_start(trim_start(s)) == trim_start(s),
        trim_start(s).len() > 0 ==> !is_white(trim_start(s)[0]),
    decreases s.len(),
{
    if s.len() > 0 && is_white(s[0]) {
        lemma_trim_start_fixed(s.drop_first());
    }
}

proof fn lemma_trim_end_fixed(s: Seq<char>)
    ensures
        trim_end(trim_end(s)) == trim_end(s),
        trim_end(s).len() > 0 ==> !is_white(trim_end(s).last()),
        trim_end(s).is_prefix_of(s),
    decreases s.len(),
{
    if s.len() > 0 && is_white(s.last()) {
        lemma_trim_end_fixed(s.drop_last());
    }
}

/// Trimming the end of a text that starts with no whitespace leaves a text that
/// starts with no whitespace either.
proof fn lemma_trim_start_of_trim_end(s: Seq<char>)
    requires
        trim_start(s) == s,
    ensures
        trim_start(trim_end(s)) == trim_end(s),
{
    lemma_trim_end_fixed(s);
    let t = trim_end(s);
    if t.len() > 0 {
        assert(t[0] == s[0]);
        if is_white(s[0]) {
            assert(s.len() > 0);
            lemma_trim_start_shorter(s.drop_first());
            assert(trim_start(s).len() < s.len());
        }
    }
}

proof fn lemma_trim_start_shorter(s: Seq<char>)
    ensures
        trim_start(s).len() <= s.len(),
    decreases s.len(),
{
    if s.len() > 0 && is_white(s[0]) {
        lemma_trim_start_shorter(s.drop_first());
    }
}

// ---------------------------------------------------------------------------
// Building text
// ---------------------------------------------------------------------------

/// Appends one character to a `String`.
/// Calls `String::push`, which its documentation says appends the given
/// `char` to the end of the string; that is all the contract claims.
#[verifier::external_body]
fn push_char(s: &mut String, c: char)
    ensures
        final(s)@ == old(s)@.push(c),
{
    s.push(c);
}

/// The characters of `s`, one by one.
pub fn chars_of(s: &str) -> (v: Vec<char>)
    ensures
        v@ == s@,
{
    let mut v: Vec<char> = Vec::new();
    for c in it: s.chars()
        invariant
            v@ == it.history(),
            it.seq() == s@,
    {
        v.push(c);
    }
    v
}

/// The `String` made of `v[lo..hi]`.
pub fn string_of_range(v: &Vec<char>, lo: usize, hi: usize) -> (s: String)
    requires
        lo <= hi <= v.len(),
    ensures
        s@ == v@.subrange(lo as int, hi as int),
{
    let mut s = String::new();
    let mut i: usize = lo;
    while i < hi
        invariant
            lo <= i <= hi <= v.len(),
            s@ == v@.subrange(lo as int, i as int),
        decreases hi - i,
    {
        push_char(&mut s, v[i]);
        assert(v@.subrange(lo as int, i + 1) =~= v@.subrange(lo as int, i as int).push(v@[i as int]));
        i = i + 1;
    }
    s
}

/// The `String` made of all of `v`.
pub fn string_of(v: &Vec<char>) -> (s: String)
    ensures
        s@ == v@,
{
    let s = string_of_range(v, 0, v.len());
    assert(v@.subrange(0, v@.len() as int) =~= v@);
    s
}

/// `v[lo..hi]` as a vector of its own.
pub fn copy_range(v: &Vec<char>, lo: usize, hi: usize) -> (r: Vec<char>)
    requires
        lo <= hi <= v.len(),
    ensures
        r@ == v@.subrange(lo as int, hi as int),
{
    let mut r: Vec<char> = Vec::new();
    let mut i: usize = lo;
    while i < hi
        invariant
            lo <= i <= hi <= v.len(),
            r@ == v@.subrange(lo as int, i as int),
        decreases hi - i,
    {
        r.push(v[i]);
        assert(v@.subrange(lo as int, i + 1) =~= v@.subrange(lo as int, i as int).push(v@[i as int]));
        i = i + 1;
    }
    r
}

/// Appends `v[lo..hi]` to `out`.
pub fn extend_range(out: &mut Vec<char>, v: &Vec<char>, lo: usize, hi: usize)
    requires
        lo <= hi <= v.len(),
    ensures
        final(out)@ == old(out)@ + v@.subrange(lo as int, hi as int),
{
    let mut i: usize = lo;
    while i < hi
        invariant
            lo <= i <= hi <= v.len(),
            out@ == old(out)@ + v@.subrange(lo as int, i as int),
        decreases hi - i,
    {
        out.push(v[i]);
        assert(v@.subrange(lo as int, i + 1) =~= v@.subrange(lo as int, i as int).push(v@[i as int]));
        i = i + 1;
    }
}

/// Appends all of `v` to `out`.
pub fn extend_all(out: &mut Vec<char>, v: &Vec<char>)
    ensures
        final(out)@ == old(out)@ + v@,
{
    extend_range(out, v, 0, v.len());
    assert(v@.subrange(0, v@.len() as int) =~= v@);
}

/// Appends the characters of `s` to `out`.
pub fn extend_str(out: &mut Vec<char>, s: &str)
    ensures
        final(out)@ == old(out)@ + s@,
{
    let v = chars_of(s);
    extend_all(out, &v);
}

/// Whether two texts are equal, character by character.
pub fn same_text(a: &str, b: &str) -> (r: bool)
    ensures
        r == (a@ == b@),
{
    let x = chars_of(a);
    let y = chars_of(b);
    same_chars(&x, &y)
}

/// Whether two character vectors are equal.
pub fn same_chars(x: &Vec<char>, y: &Vec<char>) -> (r: bool)
    ensures
        r == (x@ == y@),
{
    if x.len() != y.len() {
        return false;
    }
    let mut i: usize = 0;
    while i < x.len()
        invariant
            x.len() == y.len(),
            0 <= i <= x.len(),
            forall|k: int| 0 <= k < i ==> x@[k] == y@[k],
        decreases x.len() - i,
    {
        if x[i] != y[i] {
            return false;
        }
        i = i + 1;
    }
    assert(x@ =~= y@);
    true
}

// ---------------------------------------------------------------------------
// Searching
// ---------------------------------------------------------------------------

/// The index of the first occurrence of `p` in `s` (`str::find`).
pub open spec fn find_in(s: Seq<char>, p: Seq<char>) -> Option<int>
    decreases s.len(),
{
    if p.is_prefix_of(s) {
        Some(0)
    } else if s.len() == 0 {
        None
    } else {
        shift(find_in(s.drop_first(), p), 1)
    }
}

/// An optional index moved by `d`.
pub open spec fn shift(o: Option<int>, d: int) -> Option<int> {
    match o {
        Some(i) => Some(i + d),
        None => None,
    }
}

/// What `find_in` finds is an occurrence, and there is none before it.
pub proof fn lemma_find_in(s: Seq<char>, p: Seq<char>)
    ensures
        find_in(s, p) matches Some(i) ==> {
            &&& 0 <= i
            &&& i + p.len() <= s.len()
            &&& s.subrange(i, i + p.len()) == p
            &&& forall|j: int| 0 <= j < i ==> !p.is_prefix_of(#[trigger] s.skip(j))
        },
        find_in(s, p) is None ==> forall|j: int|
            0 <= j <= s.len() ==> !p.is_prefix_of(#[trigger] s.skip(j)),
    decreases s.len(),
{
    if p.is_prefix_of(s) {
        assert(s.skip(0) =~= s);
    } else if s.len() == 0 {
        assert forall|j: int| 0 <= j <= s.len() implies !p.is_prefix_of(#[trigger] s.skip(j)) by {
            assert(s.skip(j) =~= s);
        }
    } else {
        let t = s.drop_first();
        lemma_find_in(t, p);
        assert forall|j: int| 1 <= j <= s.len() implies #[trigger] s.skip(j) =~= t.skip(j - 1) by {}
        assert(s.skip(0) =~= s);
        if let Some(i) = find_in(t, p) {
            assert(s.subrange(i + 1, i + 1 + p.len()) =~= t.subrange(i, i + p.len()));
            assert forall|j: int| 0 <= j < i + 1 implies !p.is_prefix_of(#[trigger] s.skip(j)) by {
                if j > 0 {
                    assert(s.skip(j) =~= t.skip(j - 1));
                }
            }
        } else {
            assert forall|j: int| 0 <= j <= s.len() implies !p.is_prefix_of(#[trigger] s.skip(j)) by {
                if j > 0 {
                    assert(s.skip(j) =~= t.skip(j - 1));
                }
            }
        }
    }
}

/// A text in which `p` does not occur has no part in which it occurs.
pub proof fn lemma_no_find_in_subrange(s: Seq<char>, p: Seq<char>, a: int, b: int)
    requires
        find_in(s, p) is None,
        0 <= a <= b <= s.len(),
    ensures
        find_in(s.subrange(a, b), p) is None,
{
    let t = s.subrange(a, b);
    lemma_find_in(s, p);
    lemma_find_in(t, p);
    if let Some(i) = find_in(t, p) {
        assert(s.skip(a + i).subrange(0, p.len() as int) =~= t.subrange(i, i + p.len()));
        assert(p.is_prefix_of(s.skip(a + i)));
    }
}

/// Before its first occurrence, `p` does not occur.
pub proof fn lemma_no_find_before_first(s: Seq<char>, p: Seq<char>, e: int)
    requires
        find_in(s, p) == Some(e),
        p.len() > 0,
    ensures
        find_in(s.take(e), p) is None,
{
    lemma_find_in(s, p);
    let t = s.take(e);
    lemma_find_in(t, p);
    if let Some(i) = find_in(t, p) {
        assert(s.skip(i).subrange(0, p.len() as int) =~= t.subrange(i, i + p.len()));
        assert(p.is_prefix_of(s.skip(i)));
    }
}

/// Whether `p` occurs in `v` at index `i`.
pub fn has_at(v: &Vec<char>, i: usize, p: &Vec<char>) -> (r: bool)
    requires
        i <= v.len(),
    ensures
        r == p@.is_prefix_of(v@.skip(i as int)),
{
    if p.len() > v.len() - i {
        return false;
    }
    let mut k: usize = 0;
    while k < p.len()
        invariant
            i + p.len() <= v.len(),
            0 <= k <= p.len(),
            forall|m: int| 0 <= m < k ==> p@[m] == v@[i + m],
        decreases p.len() - k,
    {
        if v[i + k] != p[k] {
            assert(v@.skip(i as int)[k as int] == v@[i + k]);
            return false;
        }
        k = k + 1;
    }
    assert(p@ =~= v@.skip(i as int).subrange(0, p@.len() as int));
    true
}

/// The first occurrence of `p` in `v` at or after `from`.
pub fn find_from(v: &Vec<char>, from: usize, p: &Vec<char>) -> (r: Option<usize>)
    requires
        from <= v.len(),
    ensures
        match r {
            Some(i) => from <= i <= v.len() && find_in(v@.skip(from as int), p@) == Some(
                i - from,
            ),
            None => find_in(v@.skip(from as int), p@) is None,
        },
{
    let mut j: usize = from;
    loop
        invariant
            from <= j <= v.len(),
            find_in(v@.skip(from as int), p@) == shift(find_in(v@.skip(j as int), p@), j - from),
        decreases v.len() - j,
    {
        if has_at(v, j, p) {
            return Some(j);
        }
        if j >= v.len() {
            return None;
        }
        assert(v@.skip(j as int).drop_first() =~= v@.skip(j + 1));
        j = j + 1;
    }
}

// ---------------------------------------------------------------------------
// Replacing
// ---------------------------------------------------------------------------

/// Every occurrence of the non-empty `p` in `s`, taken from left to right
/// without overlap, replaced by `r` (`str::replace`).
pub open spec fn replace_all(s: Seq<char>, p: Seq<char>, r: Seq<char>) -> Seq<char>
    decreases s.len(),
{
    if p.len() == 0 {
        s
    } else {
        match find_in(s, p) {
            Some(i) => if 0 <= i && i + p.len() <= s.len() {
                s.take(i) + r + replace_all(s.skip(i + p.len()), p, r)
            } else {
                s
            },
            None => s,
        }
    }
}

/// `replace_all` on vectors.
pub fn replace_all_chars(v: &Vec<char>, p: &Vec<char>, r: &Vec<char>) -> (out: Vec<char>)
    requires
        p.len() > 0,
    ensures
        out@ == replace_all(v@, p@, r@),
{
    let mut out: Vec<char> = Vec::new();
    let mut pos: usize = 0;
    assert(v@.skip(0) =~= v@);
    loop
        invariant
            p.len() > 0,
            pos <= v.len(),
            replace_all(v@, p@, r@) == out@ + replace_all(v@.skip(pos as int), p@, r@),
        decreases v.len() - pos,
    {
        let ghost rest = v@.skip(pos as int);
        match find_from(v, pos, p) {
            None => {
                extend_range(&mut out, v, pos, v.len());
                assert(v@.subrange(pos as int, v.len() as int) =~= rest);
                assert(out@ =~= replace_all(v@, p@, r@));
                return out;
            },
            Some(i) => {
                proof {
                    lemma_find_in(rest, p@);
                }
                extend_range(&mut out, v, pos, i);
                extend_all(&mut out, r);
                assert(v@.subrange(pos as int, i as int) =~= rest.take(i - pos));
                assert(rest.skip(i - pos + p.len()) =~= v@.skip(i + p.len()));
                assert(replace_all(rest, p@, r@) == rest.take(i - pos) + r@ + replace_all(
                    rest.skip(i - pos + p.len()),
                    p@,
                    r@,
                ));
                pos = i + p.len();
            },
        }
    }
}

/// `str::replace` of a non-empty pattern.
pub fn replace_text(s: &str, p: &str, r: &str) -> (out: String)
    requires
        p@.len() > 0,
    ensures
        out@ == replace_all(s@, p@, r@),
{
    let v = chars_of(s);
    let pv = chars_of(p);
    let rv = chars_of(r);
    let o = replace_all_chars(&v, &pv, &rv);
    string_of(&o)
}

/// The first occurrence of `p` in `s` replaced by `r` (`str::replacen` with a
/// count of one); an empty `p` occurs at the start.
pub open spec fn replace_first(s: Seq<char>, p: Seq<char>, r: Seq<char>) -> Seq<char> {
    match find_in(s, p) {
        Some(i) => s.take(i) + r + s.skip(i + p.len()),
        None => s,
    }
}

/// `replace_first` on vectors.
pub fn replace_first_chars(v: &Vec<char>, p: &Vec<char>, r: &Vec<char>) -> (out: Vec<char>)
    ensures
        out@ == replace_first(v@, p@, r@),
{
    assert(v@.skip(0) =~= v@);
    match find_from(v, 0, p) {
        None => copy_range(v, 0, v.len()),
        Some(i) => {
            proof {
                lemma_find_in(v@, p@);
            }
            let mut out = copy_range(v, 0, i);
            extend_all(&mut out, r);
            extend_range(&mut out, v, i + p.len(), v.len());
            out
        },
    }
}

// ---------------------------------------------------------------------------
// Lines
// ---------------------------------------------------------------------------

/// A line with the `\r` of a `\r\n` ending removed.
pub open spec fn strip_cr(l: Seq<char>) -> Seq<char> {
    if l.len() > 0 && l.last() == '\r' {
        l.drop_last()
    } else {
        l
    }
}

/// The lines of `s` (`str::lines`): split at each `\n`; a line that ended in
/// `\r\n` loses the `\r`; a final line ending adds no empty line.
pub open spec fn lines(s: Seq<char>) -> Seq<Seq<char>>
    decreases s.len(),
{
    if s.len() == 0 {
        Seq::empty()
    } else {
        match find_in(s, seq!['\n']) {
            Some(i) => if 0 <= i < s.len() {
                seq![strip_cr(s.take(i))] + lines(s.skip(i + 1))
            } else {
                seq![s]
            },
            None => seq![s],
        }
    }
}

/// The end of the line that starts at `pos` in `v` (the index of its `\n`,
/// or the end of `v`), and whether a `\n` ends it.
pub fn line_end(v: &Vec<char>, pos: usize) -> (r: (usize, bool))
    requires
        pos < v.len(),
    ensures
        pos <= r.0 <= v.len(),
        r.1 ==> r.0 < v.len(),
        lines(v@.skip(pos as int)) == if r.1 {
            seq![strip_cr(v@.subrange(pos as int, r.0 as int))] + lines(v@.skip(r.0 + 1))
        } else {
            seq![v@.skip(pos as int)]
        },
        !r.1 ==> r.0 == v.len(),
{
    let mut nl: Vec<char> = Vec::new();
    nl.push('\n');
    assert(nl@ =~= seq!['\n']);
    let ghost rest = v@.skip(pos as int);
    match find_from(v, pos, &nl) {
        Some(i) => {
            proof {
                lemma_find_in(rest, nl@);
            }
            assert(rest.take(i - pos) =~= v@.subrange(pos as int, i as int));
            assert(rest.skip(i - pos + 1) =~= v@.skip(i + 1));
            (i, true)
        },
        None => (v.len(), false),
    }
}

/// Each line of a text takes at least one of its characters.
pub proof fn lemma_lines_len(s: Seq<char>)
    ensures
        lines(s).len() <= s.len(),
    decreases s.len(),
{
    if s.len() > 0 {
        lemma_find_in(s, seq!['\n']);
        if let Some(i) = find_in(s, seq!['\n']) {
            if 0 <= i < s.len() {
                lemma_lines_len(s.skip(i + 1));
            }
        }
    }
}

/// A final line ending changes nothing (as `str::lines` documents): adding
/// `\r\n` to a non-empty text that does not end in `\n` keeps its lines, and so
/// does adding `\n` where the text does not end in `\r` either.
pub proof fn lemma_lines_final_ending(s: Seq<char>)
    requires
        s.len() > 0,
        s.last() != '\n',
    ensures
        s.last() != '\r' ==> lines(s + seq!['\n']) == lines(s),
        lines(s + seq!['\r', '\n']) == lines(s),
{
    if s.last() != '\r' {
        lemma_lines_final_ending_with(s, seq!['\n']);
    }
    lemma_lines_final_ending_with(s, seq!['\r', '\n']);
}

/// `find_in` finds the first occurrence.
pub proof fn lemma_find_in_at(s: Seq<char>, p: Seq<char>, i: int)
    requires
        0 <= i,
        i + p.len() <= s.len(),
        s.subrange(i, i + p.len()) == p,
        forall|j: int| 0 <= j < i ==> !p.is_prefix_of(#[trigger] s.skip(j)),
    ensures
        find_in(s, p) == Some(i),
    decreases i,
{
    if i == 0 {
        assert(s.subrange(0, p.len() as int) =~= p);
    } else {
        assert(s.skip(0) =~= s);
        let t = s.drop_first();
        assert forall|j: int| 0 <= j < i - 1 implies !p.is_prefix_of(#[trigger] t.skip(j)) by {
            assert(t.skip(j) =~= s.skip(j + 1));
        }
        assert(t.subrange(i - 1, i - 1 + p.len()) =~= s.subrange(i, i + p.len()));
        lemma_find_in_at(t, p, i - 1);
    }
}

proof fn lemma_lines_final_ending_with(s: Seq<char>, e: Seq<char>)
    requires
        s.len() > 0,
        s.last() != '\n',
        (e == seq!['\n'] && s.last() != '\r') || e == seq!['\r', '\n'],
    ensures
        lines(s + e) == lines(s),
    decreases s.len(),
{
    let nl = seq!['\n'];
    let t = s + e;
    lemma_find_in(s, nl);
    match find_in(s, nl) {
        Some(i) => {
            assert(s.subrange(i, i + 1)[0] == s[i]);
            assert(s[i] == '\n');
            assert(i < s.len() - 1);
            assert(t.subrange(i, i + 1) =~= s.subrange(i, i + 1));
            assert forall|j: int| 0 <= j < i implies !nl.is_prefix_of(#[trigger] t.skip(j)) by {
                assert(!nl.is_prefix_of(s.skip(j)));
                assert(t.skip(j)[0] == s.skip(j)[0]);
                assert(s.skip(j).subrange(0, 1)[0] == s.skip(j)[0]);
                assert(t.skip(j).subrange(0, 1)[0] == t.skip(j)[0]);
                if nl.is_prefix_of(t.skip(j)) {
                    assert(s.skip(j).subrange(0, 1) =~= nl);
                }
            }
            lemma_find_in_at(t, nl, i);
            let rest = s.skip(i + 1);
            assert(t.take(i) =~= s.take(i));
            assert(t.skip(i + 1) =~= rest + e);
            assert(rest.last() == s.last());
            lemma_lines_final_ending_with(rest, e);
        },
        None => {
            let k: int = if e == seq!['\n'] {
                s.len() as int
            } else {
                (s.len() + 1) as int
            };
            assert forall|j: int| 0 <= j < k implies !nl.is_prefix_of(#[trigger] t.skip(j)) by {
                assert(t.skip(j).subrange(0, 1)[0] == t.skip(j)[0]);
                if j < s.len() {
                    assert(!nl.is_prefix_of(s.skip(j)));
                    assert(t.skip(j)[0] == s.skip(j)[0]);
                    assert(s.skip(j).subrange(0, 1)[0] == s.skip(j)[0]);
                    if nl.is_prefix_of(t.skip(j)) {
                        assert(s.skip(j).subrange(0, 1) =~= nl);
                    }
                } else {
                    assert(t.skip(j)[0] == '\r');
                }
            }
            assert(t.subrange(k, k + 1) =~= nl);
            lemma_find_in_at(t, nl, k);
            assert(t.skip(k + 1).len() == 0);
            assert(strip_cr(t.take(k)) =~= s);
            assert(lines(t.skip(k + 1)) =~= Seq::<Seq<char>>::empty());
            assert(lines(t) =~= seq![s]);
        },
    }
}

// ---------------------------------------------------------------------------
// Words
// ---------------------------------------------------------------------------

/// The words of `s` after the word `cur` that is being read: maximal runs of
/// characters that are not whitespace.
pub open spec fn words_after(s: Seq<char>, cur: Seq<char>) -> Seq<Seq<char>>
    decreases s.len(),
{
    if s.len() == 0 {
        if cur.len() > 0 {
            seq![cur]
        } else {
            Seq::empty()
        }
    } else if is_white(s[0]) {
        (if cur.len() > 0 {
            seq![cur]
        } else {
            Seq::empty()
        }) + words_after(s.drop_first(), Seq::empty())
    } else {
        words_after(s.drop_first(), cur.push(s[0]))
    }
}

/// The words of `s` (`str::split_whitespace`).
pub open spec fn words(s: Seq<char>) -> Seq<Seq<char>> {
    words_after(s, Seq::empty())
}

/// The words of `s`.
pub fn split_words(s: &str) -> (r: Vec<String>)
    ensures
        r@.len() == words(s@).len(),
        forall|i: int| 0 <= i < r@.len() ==> #[trigger] r@[i]@ == words(s@)[i],
{
    let v = chars_of(s);
    let mut out: Vec<String> = Vec::new();
    let mut cur: Vec<char> = Vec::new();
    let mut i: usize = 0;
    assert(v@.skip(0) =~= v@);
    while i < v.len()
        invariant
            0 <= i <= v.len(),
            v@ == s@,
            words(s@) == out@.map_values(|x: String| x@) + words_after(v@.skip(i as int), cur@),
        decreases v.len() - i,
    {
        let ghost before = out@.map_values(|x: String| x@);
        assert(v@.skip(i as int).drop_first() =~= v@.skip(i + 1));
        if is_white_char(v[i]) {
            if cur.len() > 0 {
                let w = string_of(&cur);
                out.push(w);
                assert(out@.map_values(|x: String| x@) =~= before + seq![cur@]);
            } else {
                assert(out@.map_values(|x: String| x@) =~= before + Seq::<Seq<char>>::empty());
            }
            cur = Vec::new();
            assert(cur@ =~= Seq::<char>::empty());
        } else {
            cur.push(v[i]);
        }
        i = i + 1;
    }
    let ghost before = out@.map_values(|x: String| x@);
    if cur.len() > 0 {
        let w = string_of(&cur);
        out.push(w);
        assert(out@.map_values(|x: String| x@) =~= before + seq![cur@]);
    } else {
        assert(before + Seq::<Seq<char>>::empty() =~= before);
    }
    assert(words(s@) =~= out@.map_values(|x: String| x@));
    assert forall|k: int| 0 <= k < out@.len() implies #[trigger] out@[k]@ == words(s@)[k] by {
        assert(out@.map_values(|x: String| x@)[k] == out@[k]@);
    }
    out
}

// ---------------------------------------------------------------------------
// Numbers
// ---------------------------------------------------------------------------

/// The decimal digit for `d < 10`.
pub open spec fn digit(d: nat) -> char {
    if d == 0 {
        '0'
    } else if d == 1 {
        '1'
    } else if d == 2 {
        '2'
    } else if d == 3 {
        '3'
    } else if d == 4 {
        '4'
    } else if d == 5 {
        '5'
    } else if d == 6 {
        '6'
    } else if d == 7 {
        '7'
    } else if d == 8 {
        '8'
    } else {
        '9'
    }
}

/// `n` written in decimal, as `{}` formats an unsigned integer.
pub open spec fn decimal(n: nat) -> Seq<char>
    decreases n,
{
    if n < 10 {
        seq![digit(n)]
    } else {
        decimal(n / 10).push(digit(n % 10))
    }
}

fn digit_char(d: u32) -> (c: char)
    requires
        d < 10,
    ensures
        c == digit(d as nat),
{
    if d == 0 {
        '0'
    } else if d == 1 {
        '1'
    } else if d == 2 {
        '2'
    } else if d == 3 {
        '3'
    } else if d == 4 {
        '4'
    } else if d == 5 {
        '5'
    } else if d == 6 {
        '6'
    } else if d == 7 {
        '7'
    } else if d == 8 {
        '8'
    } else {
        '9'
    }
}

/// Appends `n` in decimal to `out`.
pub fn push_decimal(out: &mut Vec<char>, n: u32)
    ensures
        final(out)@ == old(out)@ + decimal(n as nat),
    decreases n,
{
    if n >= 10 {
        push_decimal(out, n / 10);
    }
    out.push(digit_char(n % 10));
    proof {
        if n >= 10 {
            assert(decimal(n as nat) == decimal((n / 10) as nat).push(digit((n % 10) as nat)));
        }
    }
    assert(out@ =~= old(out)@ + decimal(n as nat));
}

// ---------------------------------------------------------------------------
// Bytes
// ---------------------------------------------------------------------------

/// UTF-8 encoding respects concatenation.
pub proof fn lemma_encode_concat(a: Seq<char>, b: Seq<char>)
    ensures
        encode_utf8(a + b) == encode_utf8(a) + encode_utf8(b),
    decreases a.len(),
{
    if a.len() == 0 {
        assert(a + b =~= b);
        assert(encode_utf8(a) =~= Seq::<u8>::empty());
        assert(encode_utf8(a) + encode_utf8(b) =~= encode_utf8(b));
    } else {
        lemma_encode_concat(a.drop_first(), b);
        assert((a + b).drop_first() =~= a.drop_first() + b);
        assert((a + b)[0] == a[0]);
        assert(encode_utf8(a + b) =~= encode_utf8(a) + encode_utf8(b));
    }
}

} // verus!
