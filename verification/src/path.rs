//! Relative and absolute paths written with `/`, taken apart as
//! `std::path::Path` takes them apart on Unix: the final component, the stem
//! of a file name, the parent, and joining.
//!
//! A path is read as a front (a root `/`, or a `.` that stands alone as the
//! first component) followed by a body of components separated by `/`. Empty
//! components and `.` components in the body count for nothing.
use vstd::prelude::*;
use crate::text::{chars_of, extend_all, string_of, string_of_range};

verus! {

broadcast use vstd::string::group_string_axioms;

/// The length of the front of a path: 1 for a root `/` or a leading `.`
/// component, 0 otherwise.
pub open spec fn body_start(p: Seq<char>) -> int {
    if p.len() > 0 && p[0] == '/' {
        1
    } else if p.len() > 0 && p[0] == '.' && (p.len() == 1 || p[1] == '/') {
        1
    } else {
        0
    }
}

/// `p` with its trailing separators and trailing `.` components removed,
/// never cutting into the first `k` characters.
pub open spec fn trim_back(p: Seq<char>, k: int) -> Seq<char>
    decreases p.len(),
{
    if p.len() > 0 && k < p.len() {
        if p.last() == '/' {
            trim_back(p.drop_last(), k)
        } else if p.last() == '.' && (p.len() - 1 == k || p[p.len() - 2] == '/') {
            trim_back(p.drop_last(), k)
        } else {
            p
        }
    } else {
        p
    }
}

/// Where the component that ends at `j` starts: after the last `/` before `j`,
/// but not before `k`.
pub open spec fn comp_start(t: Seq<char>, k: int, j: int) -> int
    decreases j,
{
    if j <= k || j <= 0 {
        k
    } else if t[j - 1] == '/' {
        j
    } else {
        comp_start(t, k, j - 1)
    }
}

/// The path without what trails its last component.
pub open spec fn trimmed(p: Seq<char>) -> Seq<char> {
    trim_back(p, body_start(p))
}

/// Whether the body of the path holds a component.
pub open spec fn has_body(p: Seq<char>) -> bool {
    trimmed(p).len() > body_start(p)
}

/// Where the last component of the body starts.
pub open spec fn last_start(p: Seq<char>) -> int {
    comp_start(trimmed(p), body_start(p), trimmed(p).len() as int)
}

/// The final component, when it is a name (`Path::file_name`): none for a
/// path that ends in `..`, nor for one made only of a root or a `.`.
pub open spec fn path_file_name(p: Seq<char>) -> Option<Seq<char>> {
    if has_body(p) {
        let n = trimmed(p).skip(last_start(p));
        if n == seq!['.', '.'] {
            None
        } else {
            Some(n)
        }
    } else {
        None
    }
}

/// The path without its final component (`Path::parent`): none for a path
/// that is empty or only a root.
pub open spec fn path_parent(p: Seq<char>) -> Option<Seq<char>> {
    if has_body(p) {
        Some(trim_back(trimmed(p).take(last_start(p)), body_start(p)))
    } else if body_start(p) == 1 && p[0] == '.' {
        Some(Seq::empty())
    } else {
        None
    }
}

/// The index of the last `c` in `s`, or -1.
pub open spec fn last_index(s: Seq<char>, c: char) -> int
    decreases s.len(),
{
    if s.len() == 0 {
        -1
    } else if s.last() == c {
        s.len() - 1
    } else {
        last_index(s.drop_last(), c)
    }
}

/// The stem of a file name: all of it when it holds no `.` or only a leading
/// one, otherwise the part before its last `.`.
pub open spec fn stem_of(name: Seq<char>) -> Seq<char> {
    let d = last_index(name, '.');
    if d <= 0 {
        name
    } else {
        name.take(d)
    }
}

/// `Path::file_stem`.
pub open spec fn path_file_stem(p: Seq<char>) -> Option<Seq<char>> {
    match path_file_name(p) {
        Some(n) => Some(stem_of(n)),
        None => None,
    }
}

/// The extension of a file name: what follows its last `.`, when it has one
/// that is not its first character.
pub open spec fn ext_of(name: Seq<char>) -> Option<Seq<char>> {
    let d = last_index(name, '.');
    if d <= 0 {
        None
    } else {
        Some(name.skip(d + 1))
    }
}

/// `Path::extension`.
pub open spec fn path_extension(p: Seq<char>) -> Option<Seq<char>> {
    match path_file_name(p) {
        Some(n) => ext_of(n),
        None => None,
    }
}

/// `Path::join` of a path that does not start with `/`: a `/` between the two
/// unless `base` is empty or already ends in one.
pub open spec fn path_join(base: Seq<char>, x: Seq<char>) -> Seq<char> {
    if x.len() > 0 && x[0] == '/' {
        x
    } else if base.len() > 0 && base.last() != '/' {
        base + seq!['/'] + x
    } else {
        base + x
    }
}

/// A component found by scanning back from `j` over no separator, to a
/// separator or to `k`, starts where the scan stopped.
pub proof fn lemma_comp_start_at(t: Seq<char>, k: int, j: int, s: int)
    requires
        0 <= k <= s <= j <= t.len(),
        forall|i: int| s <= i < j ==> t[i] != '/',
        s == k || t[s - 1] == '/',
    ensures
        comp_start(t, k, j) == s,
    decreases j,
{
    if j > s {
        lemma_comp_start_at(t, k, j - 1, s);
    }
}

/// A component holds no separator, and starts at `k` or after a separator.
pub proof fn lemma_comp_start_no_separator(t: Seq<char>, k: int, j: int)
    requires
        0 <= k <= j <= t.len(),
    ensures
        k <= comp_start(t, k, j) <= j,
        forall|i: int| comp_start(t, k, j) <= i < j ==> t[i] != '/',
        comp_start(t, k, j) == k || t[comp_start(t, k, j) - 1] == '/',
    decreases j,
{
    if j > k && j > 0 && t[j - 1] != '/' {
        lemma_comp_start_no_separator(t, k, j - 1);
    }
}

/// A file name holds no separator, and neither does its stem.
pub proof fn lemma_file_name_no_separator(p: Seq<char>)
    ensures
        path_file_name(p) matches Some(n) ==> forall|i: int| 0 <= i < n.len() ==> n[i] != '/',
        path_file_stem(p) matches Some(n) ==> forall|i: int| 0 <= i < n.len() ==> n[i] != '/',
{
    let k = body_start(p);
    lemma_trim_back_shorter(p, k);
    let t = trimmed(p);
    if has_body(p) {
        lemma_comp_start_no_separator(t, k, t.len() as int);
        let n = t.skip(last_start(p));
        assert forall|i: int| 0 <= i < n.len() implies n[i] != '/' by {
            assert(n[i] == t[last_start(p) + i]);
        }
        let d = last_index(n, '.');
        lemma_last_index_bounds(n, '.');
        if d > 0 {
            assert forall|i: int| 0 <= i < n.take(d).len() implies n.take(d)[i] != '/' by {
                assert(n.take(d)[i] == n[i]);
            }
        }
    }
}

proof fn lemma_trim_back_shorter(p: Seq<char>, k: int)
    ensures
        trim_back(p, k).len() <= p.len(),
        trim_back(p, k).is_prefix_of(p),
    decreases p.len(),
{
    if p.len() > 0 && k < p.len() {
        if p.last() == '/' || (p.last() == '.' && (p.len() - 1 == k || p[p.len() - 2] == '/')) {
            lemma_trim_back_shorter(p.drop_last(), k);
        }
    }
}

/// What `trim_back` leaves past the front ends in neither a separator nor a
/// `.` component.
pub proof fn lemma_trim_back_stops(p: Seq<char>, k: int)
    ensures
        trim_back(p, k).len() > 0 && k < trim_back(p, k).len() ==> {
            let r = trim_back(p, k);
            &&& r.last() != '/'
            &&& !(r.last() == '.' && (r.len() - 1 == k || r[r.len() - 2] == '/'))
        },
    decreases p.len(),
{
    if p.len() > 0 && k < p.len() {
        if p.last() == '/' || (p.last() == '.' && (p.len() - 1 == k || p[p.len() - 2] == '/')) {
            lemma_trim_back_stops(p.drop_last(), k);
        }
    }
}

/// A file name taken as a path is its own file name.
pub proof fn lemma_file_name_is_own(p: Seq<char>)
    ensures
        path_file_name(p) matches Some(n) ==> path_file_name(n) == Some(n),
{
    if let Some(n) = path_file_name(p) {
        let k = body_start(p);
        let t = trimmed(p);
        let len = t.len() as int;
        lemma_trim_back_shorter(p, k);
        lemma_trim_back_stops(p, k);
        lemma_comp_start_no_separator(t, k, len);
        let s = last_start(p);
        assert(t[len - 1] != '/');
        assert(s < len) by {
            lemma_comp_start_no_separator(t, k, len - 1);
        }
        assert(n =~= t.subrange(s, len));
        assert forall|i: int| 0 <= i < n.len() implies n[i] != '/' by {
            assert(n[i] == t[s + i]);
        }
        assert(n.last() == t.last());
        assert(n != seq!['.']) by {
            if n == seq!['.'] {
                assert(s == len - 1);
                assert(t.last() == '.');
            }
        }
        assert(body_start(n) == 0) by {
            if n.len() == 1 && n[0] == '.' {
                assert(n =~= seq!['.']);
            }
        }
        assert(trim_back(n, 0) == n) by {
            if n.last() == '.' && n.len() == 1 {
                assert(n =~= seq!['.']);
            }
        }
        lemma_comp_start_at(n, 0, n.len() as int, 0);
        assert(n.skip(0) =~= n);
    }
}

/// `last_index` finds an index of the text, or -1.
pub proof fn lemma_last_index_bounds(s: Seq<char>, c: char)
    ensures
        -1 <= last_index(s, c) < s.len(),
    decreases s.len(),
{
    if s.len() > 0 && s.last() != c {
        lemma_last_index_bounds(s.drop_last(), c);
    }
}

/// Joining a directory with a name that holds no separator and does not end
/// in `.` gives a path whose file name is that name.
pub proof fn lemma_file_name_of_join(d: Seq<char>, n: Seq<char>)
    requires
        n.len() > 0,
        forall|i: int| 0 <= i < n.len() ==> n[i] != '/',
        n.last() != '.',
    ensures
        path_file_name(path_join(d, n)) == Some(n),
{
    let x = path_join(d, n);
    let k = body_start(x);
    assert(x.last() == n.last());
    assert(trim_back(x, k) == x);
    let s = x.len() - n.len();
    assert(x.skip(s) =~= n);
    if d.len() == 0 {
        assert(x =~= n);
        assert(k == 0) by {
            if n.len() == 1 {
                assert(n[0] == n.last());
            }
        }
        lemma_comp_start_at(x, k, x.len() as int, s);
    } else {
        assert(x[s - 1] == '/');
        assert(forall|i: int| s <= i < x.len() ==> x[i] == n[i - s]);
        lemma_comp_start_at(x, k, x.len() as int, s);
    }
    assert(n != seq!['.', '.']) by {
        if n == seq!['.', '.'] {
            assert(n.last() == '.');
        }
    }
}

/// An optional `String` by its characters.
pub open spec fn opt_text(o: Option<String>) -> Option<Seq<char>> {
    match o {
        Some(s) => Some(s@),
        None => None,
    }
}

/// The text of an optional path part, empty when there is none (what
/// `unwrap_or_default` and `to_string_lossy` make of it).
pub open spec fn or_empty(o: Option<Seq<char>>) -> Seq<char> {
    match o {
        Some(s) => s,
        None => Seq::empty(),
    }
}

fn body_start_of(p: &Vec<char>) -> (k: usize)
    ensures
        k == body_start(p@),
{
    if p.len() > 0 && p[0] == '/' {
        1
    } else if p.len() > 0 && p[0] == '.' && (p.len() == 1 || p[1] == '/') {
        1
    } else {
        0
    }
}

/// The length of `trim_back(p[..len], k)`.
fn trim_back_len(p: &Vec<char>, len: usize, k: usize) -> (r: usize)
    requires
        len <= p.len(),
    ensures
        r <= len,
        k <= len ==> k <= r,
        p@.take(r as int) == trim_back(p@.take(len as int), k as int),
{
    let mut j = len;
    while j > k && (p[j - 1] == '/' || (p[j - 1] == '.' && (j - 1 == k || p[j - 2] == '/')))
        invariant
            j <= len <= p.len(),
            k <= len ==> k <= j,
            trim_back(p@.take(len as int), k as int) == trim_back(p@.take(j as int), k as int),
        decreases j,
    {
        assert(p@.take(j as int).drop_last() =~= p@.take(j - 1));
        assert(p@.take(j as int).last() == p@[j - 1]);
        if j >= 2 {
            assert(p@.take(j as int)[j - 2] == p@[j - 2]);
        }
        j = j - 1;
    }
    proof {
        if j > k {
            assert(p@.take(j as int).last() == p@[j - 1]);
            if j >= 2 {
                assert(p@.take(j as int)[j - 2] == p@[j - 2]);
            }
        }
    }
    j
}

/// `comp_start(p[..j], k, j)`.
fn comp_start_of(p: &Vec<char>, k: usize, j: usize) -> (r: usize)
    requires
        j <= p.len(),
        k <= j,
    ensures
        k <= r <= j,
        r == comp_start(p@.take(j as int), k as int, j as int),
{
    let mut i = j;
    while i > k && p[i - 1] != '/'
        invariant
            k <= i <= j <= p.len(),
            comp_start(p@.take(j as int), k as int, j as int) == comp_start(
                p@.take(j as int),
                k as int,
                i as int,
            ),
        decreases i,
    {
        assert(p@.take(j as int)[i - 1] == p@[i - 1]);
        i = i - 1;
    }
    proof {
        if i > k {
            assert(p@.take(j as int)[i - 1] == p@[i - 1]);
        }
    }
    i
}

/// The front length, the length of the trimmed path, and where its last
/// component starts.
fn parts_of(p: &Vec<char>) -> (r: (usize, usize, usize))
    ensures
        r.0 == body_start(p@),
        r.1 <= p.len(),
        p@.take(r.1 as int) == trimmed(p@),
        r.0 <= r.1 ==> r.0 <= r.2 <= r.1,
        r.0 <= r.1 ==> r.2 == last_start(p@),
{
    let k = body_start_of(p);
    assert(p@.take(p.len() as int) =~= p@);
    let t = trim_back_len(p, p.len(), k);
    if k <= t {
        let c = comp_start_of(p, k, t);
        (k, t, c)
    } else {
        (k, t, t)
    }
}

/// The final component of `path`, when it is a name.
pub fn file_name(path: &str) -> (r: Option<String>)
    ensures
        opt_text(r) == path_file_name(path@),
{
    let p = chars_of(path);
    let (k, t, c) = parts_of(&p);
    if t > k {
        let ghost n = trimmed(p@).skip(last_start(p@));
        assert(n =~= p@.subrange(c as int, t as int));
        if t - c == 2 && p[c] == '.' && p[c + 1] == '.' {
            assert(n =~= seq!['.', '.']);
            None
        } else {
            assert(n != seq!['.', '.']) by {
                if n == seq!['.', '.'] {
                    assert(n[0] == p@[c as int]);
                    assert(n[1] == p@[c + 1]);
                }
            }
            Some(string_of_range(&p, c, t))
        }
    } else {
        None
    }
}

/// The stem of the final component of `path`.
pub fn file_stem(path: &str) -> (r: Option<String>)
    ensures
        opt_text(r) == path_file_stem(path@),
{
    match file_name(path) {
        None => None,
        Some(name) => {
            let v = chars_of(name.as_str());
            let d = last_dot(&v);
            if d <= 1 {
                Some(name)
            } else {
                Some(string_of_range(&v, 0, d - 1))
            }
        },
    }
}

/// The extension of the final component of `path`.
pub fn extension(path: &str) -> (r: Option<String>)
    ensures
        opt_text(r) == path_extension(path@),
{
    match file_name(path) {
        None => None,
        Some(name) => {
            let v = chars_of(name.as_str());
            let d = last_dot(&v);
            if d <= 1 {
                None
            } else {
                Some(string_of_range(&v, d, v.len()))
            }
        },
    }
}

/// One more than `last_index(v, '.')`.
fn last_dot(v: &Vec<char>) -> (r: usize)
    ensures
        r <= v.len(),
        r - 1 == last_index(v@, '.'),
{
    let mut j = v.len();
    assert(v@.take(j as int) =~= v@);
    while j > 0 && v[j - 1] != '.'
        invariant
            j <= v.len(),
            last_index(v@, '.') == last_index(v@.take(j as int), '.'),
        decreases j,
    {
        assert(v@.take(j as int).drop_last() =~= v@.take(j - 1));
        j = j - 1;
    }
    j
}

/// The path without its final component.
pub fn parent(path: &str) -> (r: Option<String>)
    ensures
        opt_text(r) == path_parent(path@),
{
    let p = chars_of(path);
    let (k, t, c) = parts_of(&p);
    if t > k {
        let e = trim_back_len(&p, c, k);
        assert(p@.take(c as int) =~= trimmed(p@).take(last_start(p@)));
        assert(p@.take(e as int) =~= p@.subrange(0, e as int));
        Some(string_of_range(&p, 0, e))
    } else if k == 1 && p[0] == '.' {
        Some(String::new())
    } else {
        None
    }
}

/// `base` joined with `x`.
pub fn join(base: &str, x: &str) -> (r: String)
    ensures
        r@ == path_join(base@, x@),
{
    let b = chars_of(base);
    let xs = chars_of(x);
    if xs.len() > 0 && xs[0] == '/' {
        return string_of(&xs);
    }
    let mut out: Vec<char> = Vec::new();
    extend_all(&mut out, &b);
    if b.len() > 0 && b[b.len() - 1] != '/' {
        out.push('/');
    }
    extend_all(&mut out, &xs);
    assert(out@ =~= path_join(base@, x@));
    string_of(&out)
}

} // verus!
