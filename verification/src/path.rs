//! Unix-style path helpers on strings: last component, parent, joining and extensions.
use vstd::prelude::*;

use crate::text::{
    chars_of, find_char_from, lemma_find_char_from, push_chars, push_str, seq_eq, string_of,
    sub_vec,
};

verus! {

/// The index of the last occurrence of `c` before index `end`.
pub open spec fn rfind_char_before(s: Seq<char>, c: char, end: int) -> Option<int>
    decreases end,
{
    if end <= 0 || end > s.len() {
        None
    } else if s[end - 1] == c {
        Some(end - 1)
    } else {
        rfind_char_before(s, c, end - 1)
    }
}

/// The index of the last occurrence of `c`.
pub open spec fn rfind_char(s: Seq<char>, c: char) -> Option<int> {
    rfind_char_before(s, c, s.len() as int)
}

/// What [`rfind_char_before`] returns is an occurrence, and no later one exists.
pub proof fn lemma_rfind(s: Seq<char>, c: char, end: int)
    requires
        0 <= end <= s.len(),
    ensures
        rfind_char_before(s, c, end) matches Some(k) ==> 0 <= k < end && s[k] == c && forall|j: int|
            k < j < end ==> s[j] != c,
        rfind_char_before(s, c, end) is None ==> forall|j: int| 0 <= j < end ==> s[j] != c,
    decreases end,
{
    if end > 0 && s[end - 1] != c {
        lemma_rfind(s, c, end - 1);
    }
}

/// The last index of `c` in a character slice.
pub fn rfind(s: &[char], c: char) -> (r: Option<usize>)
    ensures
        r matches Some(k) ==> rfind_char(s@, c) == Some(k as int),
        r is None ==> rfind_char(s@, c) is None,
{
    let mut end: usize = s.len();
    while end > 0
        invariant
            end <= s@.len(),
            rfind_char(s@, c) == rfind_char_before(s@, c, end as int),
        decreases end,
    {
        if s[end - 1] == c {
            return Some(end - 1);
        }
        end = end - 1;
    }
    None
}

/// The stem and extension of a bare file name, as `Path::file_stem` and `Path::extension` split
/// it: the extension follows the last dot, unless that dot is the first character or the name is
/// `..`.
pub open spec fn split_file_name(n: Seq<char>) -> (Seq<char>, Option<Seq<char>>) {
    if n == ".."@ {
        (n, None)
    } else {
        match rfind_char(n, '.') {
            None => (n, None),
            Some(k) => if k == 0 {
                (n, None)
            } else {
                (n.take(k), Some(n.skip(k + 1)))
            },
        }
    }
}

/// Splits a bare file name into stem and extension.
pub fn file_stem_and_extension(n: &[char]) -> (r: (Vec<char>, Option<Vec<char>>))
    ensures
        r.0@ == split_file_name(n@).0,
        r.1 matches Some(e) ==> split_file_name(n@).1 == Some(e@),
        r.1 is None ==> split_file_name(n@).1 is None,
{
    let nl: usize = n.len();
    let dotdot = chars_of("..");
    if seq_eq(n, &dotdot) {
        return (sub_vec(n, 0, n.len()), None);
    }
    assert(n@.subrange(0, n@.len() as int) =~= n@);
    match rfind(n, '.') {
        None => (sub_vec(n, 0, n.len()), None),
        Some(k) => {
            proof {
                lemma_rfind(n@, '.', n@.len() as int);
            }
            if k == 0 {
                (sub_vec(n, 0, n.len()), None)
            } else {
                assert(k < nl);
                let stem = sub_vec(n, 0, k);
                let ext = sub_vec(n, k + 1, n.len());
                assert(stem@ =~= n@.take(k as int));
                assert(ext@ =~= n@.skip(k + 1));
                (stem, Some(ext))
            }
        },
    }
}

/// The last component of a Unix path: the text after the last `/` once trailing `/` and `/.`
/// are dropped; `None` for an empty component, `.` or `..`.
pub open spec fn path_file_name(p: Seq<char>) -> Option<Seq<char>> {
    let t = strip_trailing_sep(p);
    let name = match rfind_char(t, '/') {
        Some(k) => t.skip(k + 1),
        None => t,
    };
    if name.len() == 0 || name == "."@ || name == ".."@ {
        None
    } else {
        Some(name)
    }
}

/// The text before the last component of a Unix path, without the separator; `None` when the
/// path has no component before it.
pub open spec fn path_parent(p: Seq<char>) -> Seq<char> {
    let t = strip_trailing_sep(p);
    match rfind_char(t, '/') {
        Some(k) => if k == 0 {
            "/"@
        } else {
            t.take(k)
        },
        None => Seq::empty(),
    }
}

/// Drops trailing `/` characters and trailing `/.` components (keeping a lone `/`).
pub open spec fn strip_trailing_sep(p: Seq<char>) -> Seq<char>
    decreases p.len(),
{
    if p.len() > 1 && p.last() == '/' {
        strip_trailing_sep(p.drop_last())
    } else if p.len() > 1 && p.last() == '.' && p[p.len() - 2] == '/' {
        strip_trailing_sep(p.drop_last())
    } else {
        p
    }
}

/// Executable [`strip_trailing_sep`]: the length of the kept prefix.
fn trailing_sep_len(p: &[char]) -> (n: usize)
    ensures
        n <= p@.len(),
        strip_trailing_sep(p@) == p@.take(n as int),
{
    let mut n: usize = p.len();
    assert(p@.take(n as int) =~= p@);
    while n > 1 && (p[n - 1] == '/' || (p[n - 1] == '.' && p[n - 2] == '/'))
        invariant
            n <= p@.len(),
            strip_trailing_sep(p@) == strip_trailing_sep(p@.take(n as int)),
        decreases n,
    {
        assert(p@.take(n as int).drop_last() =~= p@.take(n - 1));
        n = n - 1;
    }
    n
}

/// Whether the path is the root `/` once trailing separators are dropped.
pub fn is_root_after_strip(p: &[char]) -> (b: bool)
    ensures
        b == (strip_trailing_sep(p@) == "/"@),
{
    let n = trailing_sep_len(p);
    proof {
        reveal_strlit("/");
    }
    if n == 1 && p[0] == '/' {
        assert(p@.take(1) =~= "/"@);
        true
    } else {
        assert(n != 1 ==> p@.take(n as int).len() != "/"@.len());
        assert(n == 1 ==> p@.take(n as int)[0] != "/"@[0]);
        false
    }
}

/// The last component of a path, as `Path::file_name` gives it for Unix paths.
pub fn file_name_of(p: &[char]) -> (r: Option<Vec<char>>)
    ensures
        r matches Some(v) ==> path_file_name(p@) == Some(v@),
        r is None ==> path_file_name(p@) is None,
{
    let n = trailing_sep_len(p);
    let t = sub_vec(p, 0, n);
    assert(t@ =~= p@.take(n as int));
    let name = match rfind(&t, '/') {
        Some(k) => {
            proof {
                lemma_rfind(t@, '/', t@.len() as int);
            }
            let v = sub_vec(&t, k + 1, t.len());
            assert(v@ =~= t@.skip(k + 1));
            v
        },
        None => {
            assert(t@.subrange(0, t@.len() as int) =~= t@);
            sub_vec(&t, 0, t.len())
        },
    };
    if name.len() == 0 || seq_eq(&name, &chars_of(".")) || seq_eq(&name, &chars_of("..")) {
        None
    } else {
        Some(name)
    }
}

/// The parent of a path, as text.
pub fn parent_of(p: &[char]) -> (r: Vec<char>)
    ensures
        r@ == path_parent(p@),
{
    let n = trailing_sep_len(p);
    let t = sub_vec(p, 0, n);
    assert(t@ =~= p@.take(n as int));
    match rfind(&t, '/') {
        Some(k) => {
            proof {
                lemma_rfind(t@, '/', t@.len() as int);
            }
            if k == 0 {
                chars_of("/")
            } else {
                let v = sub_vec(&t, 0, k);
                assert(v@ =~= t@.take(k as int));
                v
            }
        },
        None => Vec::new(),
    }
}

/// `Path::join` of a relative name: the name alone under an empty parent, otherwise the two
/// joined by one `/`.
pub open spec fn path_join(parent: Seq<char>, name: Seq<char>) -> Seq<char> {
    if parent.len() == 0 {
        name
    } else if parent.last() == '/' {
        parent + name
    } else {
        parent + seq!['/'] + name
    }
}

/// Joins a relative name to a parent path.
pub fn join_path(parent: &[char], name: &[char]) -> (r: Vec<char>)
    ensures
        r@ == path_join(parent@, name@),
{
    let mut out = sub_vec(parent, 0, parent.len());
    assert(out@ =~= parent@);
    if parent.len() > 0 && parent[parent.len() - 1] != '/' {
        out.push('/');
    }
    push_chars(&mut out, name);
    out
}

/// [`join_path`] on strings.
pub fn join_path_str(parent: &str, name: &str) -> (r: String)
    ensures
        r@ == path_join(parent@, name@),
{
    let p = chars_of(parent);
    let n = chars_of(name);
    let v = join_path(&p, &n);
    string_of(&v)
}

} // verus!
