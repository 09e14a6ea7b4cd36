//! Path strings: joining and parent directories, as std's `Path` does
//! for plain (`/`-separated, no `.` / `..` normalisation) paths.

use vstd::prelude::*;

use crate::text::{cat, cat3, chars_of, slice_chars, string_of};

verus! {

/// `base.join(rel)`: an absolute `rel` replaces `base`; an empty `base`
/// yields `rel`; otherwise the two are separated by exactly the one `/`
/// that `base` may already end with.
pub open spec fn path_join(base: Seq<char>, rel: Seq<char>) -> Seq<char> {
    if rel.len() > 0 && rel[0] == '/' {
        rel
    } else if base.len() == 0 {
        rel
    } else if base.last() == '/' {
        base + rel
    } else {
        base + "/"@ + rel
    }
}

/// Executable `path_join`.
pub fn join_path(base: &str, rel: &str) -> (r: String)
    ensures
        r@ == path_join(base@, rel@),
{
    let b = chars_of(base);
    let rv = chars_of(rel);
    if rv.len() > 0 && rv[0] == '/' {
        string_of(&rv)
    } else if b.len() == 0 {
        string_of(&rv)
    } else if b[b.len() - 1] == '/' {
        cat(base, rel)
    } else {
        cat3(base, "/", rel)
    }
}

/// Join several relative segments onto `base`, left to right.
pub open spec fn path_join_all(base: Seq<char>, segs: Seq<Seq<char>>) -> Seq<char>
    decreases segs.len(),
{
    if segs.len() == 0 {
        base
    } else {
        path_join_all(path_join(base, segs[0]), segs.subrange(1, segs.len() as int))
    }
}

/// Length of `s` once its trailing `/`s are dropped.
pub open spec fn trimmed_len(s: Seq<char>, n: int) -> int
    decreases n,
{
    if n <= 0 {
        0
    } else if s[n - 1] == '/' {
        trimmed_len(s, n - 1)
    } else {
        n
    }
}

/// Index just past the last `/` in `s[..n]`, or 0 when there is none.
pub open spec fn after_last_sep(s: Seq<char>, n: int) -> int
    decreases n,
{
    if n <= 0 {
        0
    } else if s[n - 1] == '/' {
        n
    } else {
        after_last_sep(s, n - 1)
    }
}

/// `Path::parent` for a plain path: `None` for the empty path and for
/// the root; otherwise the path with its last component (and the
/// separators around it) removed -- `""` for a single relative
/// component, `"/"` for a single absolute one.
pub open spec fn path_parent(p: Seq<char>) -> Option<Seq<char>> {
    let n = trimmed_len(p, p.len() as int);
    if n == 0 {
        None
    } else {
        let k = after_last_sep(p, n);
        if k == 0 {
            Some(Seq::<char>::empty())
        } else {
            let m = trimmed_len(p, k);
            if m == 0 {
                Some("/"@)
            } else {
                Some(p.subrange(0, m))
            }
        }
    }
}

/// Executable `trimmed_len`.
fn trimmed_len_of(s: &[char], n: usize) -> (r: usize)
    requires
        n <= s@.len(),
    ensures
        r as int == trimmed_len(s@, n as int),
        r <= n,
{
    let mut k = n;
    while k > 0 && s[k - 1] == '/'
        invariant
            k <= n <= s@.len(),
            trimmed_len(s@, k as int) == trimmed_len(s@, n as int),
        decreases k,
    {
        k = k - 1;
    }
    k
}

/// Executable `after_last_sep`.
fn after_last_sep_of(s: &[char], n: usize) -> (r: usize)
    requires
        n <= s@.len(),
    ensures
        r as int == after_last_sep(s@, n as int),
        r <= n,
{
    let mut k = n;
    while k > 0 && s[k - 1] != '/'
        invariant
            k <= n <= s@.len(),
            after_last_sep(s@, k as int) == after_last_sep(s@, n as int),
        decreases k,
    {
        k = k - 1;
    }
    k
}

/// Executable `path_parent`.
pub fn parent_of(p: &str) -> (r: Option<String>)
    ensures
        match r {
            Some(s) => path_parent(p@) == Some(s@),
            None => path_parent(p@) is None,
        },
{
    let v = chars_of(p);
    let n = trimmed_len_of(&v, v.len());
    if n == 0 {
        return None;
    }
    let k = after_last_sep_of(&v, n);
    if k == 0 {
        proof {
            reveal_strlit("");
        }
        let e: Vec<char> = Vec::new();
        return Some(string_of(&e));
    }
    let m = trimmed_len_of(&v, k);
    if m == 0 {
        Some(crate::text::owned("/"))
    } else {
        let sub = slice_chars(&v, 0, m);
        Some(string_of(&sub))
    }
}

/// `path.parent().unwrap_or(".")`.
pub open spec fn dir_of(p: Seq<char>) -> Seq<char> {
    match path_parent(p) {
        Some(d) => d,
        None => "."@,
    }
}

/// Executable `dir_of`.
pub fn dir_of_path(p: &str) -> (r: String)
    ensures
        r@ == dir_of(p@),
{
    match parent_of(p) {
        Some(d) => d,
        None => crate::text::owned("."),
    }
}

} // verus!
