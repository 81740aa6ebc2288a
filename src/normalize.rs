//! Stripping a location root from an absolute path, and deriving the
//! slash-normalized materialized and relative paths of what remains.
use crate::error::FilePathError;
use crate::text::{
    has_prefix, lemma_rfind, normalize_separators, owned, rfind_char, rfind_spec, single, slashes_normalized,
    text_eq,
};
use vstd::prelude::*;
use vstd::string::*;

verus! {

/// Whether `s` is an absolute path.
pub open spec fn is_absolute(s: Seq<char>) -> bool {
    s.len() > 0 && s[0] == '/'
}

/// Appends the component `cur` to the canonical text `out`. An empty
/// component, or a `.` that is not the first component of a relative path,
/// adds nothing.
pub open spec fn push_component(out: Seq<char>, cur: Seq<char>, absolute: bool) -> Seq<char> {
    if cur.len() == 0 {
        out
    } else if cur == single('.') && (absolute || out.len() > 0) {
        out
    } else if out.len() == 0 {
        if absolute {
            single('/') + cur
        } else {
            cur
        }
    } else {
        out + single('/') + cur
    }
}

/// The canonical text so far and the pending component, after reading the
/// first `i` characters of `s`.
pub open spec fn scan_path(s: Seq<char>, i: int) -> (Seq<char>, Seq<char>)
    decreases i,
{
    if i <= 0 || i > s.len() {
        (Seq::<char>::empty(), Seq::<char>::empty())
    } else {
        let st = scan_path(s, i - 1);
        if s[i - 1] == '/' {
            (push_component(st.0, st.1, is_absolute(s)), Seq::<char>::empty())
        } else {
            (st.0, st.1.push(s[i - 1]))
        }
    }
}

/// `s` as its list of components would print it: separators collapsed,
/// `.` components dropped (but a leading one of a relative path), no
/// separator at the end; the root of an absolute path is `/`.
#[verifier::opaque]
pub open spec fn canonical(s: Seq<char>) -> Seq<char> {
    let st = scan_path(s, s.len() as int);
    let f = push_component(st.0, st.1, is_absolute(s));
    if f.len() == 0 && is_absolute(s) {
        single('/')
    } else {
        f
    }
}

/// What remains of `path` once the location `root` is stripped from its
/// front, component by component: both are taken in canonical form, the
/// root itself leaves nothing, and otherwise the root's components must be
/// the first ones of the path.
pub open spec fn strip_root(root: Seq<char>, path: Seq<char>) -> Option<Seq<char>> {
    let r = canonical(root);
    let p = canonical(path);
    if p == r {
        Some(Seq::<char>::empty())
    } else if r == single('/') && p.len() > 1 && p[0] == '/' {
        Some(p.skip(1))
    } else if r.len() < p.len() && p.take(r.len() as int) == r && p[r.len() as int] == '/' {
        Some(p.skip(r.len() + 1 as int))
    } else {
        None
    }
}

/// Appends a component to a canonical text, as `push_component` says.
fn push_component_exec(out: &mut String, cur: &str, absolute: bool)
    ensures
        final(out)@ == push_component(old(out)@, cur@, absolute),
{
    proof {
        reveal_strlit(".");
        reveal_strlit("/");
        assert("."@ =~= single('.'));
        assert("/"@ =~= single('/'));
    }
    if cur.unicode_len() == 0 {
        return;
    }
    let empty_out = out.as_str().unicode_len() == 0;
    if text_eq(cur, ".") && (absolute || !empty_out) {
        return;
    }
    if empty_out {
        if absolute {
            out.append("/");
        }
        out.append(cur);
    } else {
        out.append("/");
        out.append(cur);
    }
}

/// The canonical form of the path `s`.
pub fn canonical_path(s: &str) -> (r: String)
    ensures
        r@ == canonical(s@),
{
    let n = s.unicode_len();
    let absolute = n > 0 && s.get_char(0) == '/';
    let mut out = String::new();
    let mut start: usize = 0;
    let mut i: usize = 0;
    while i < n
        invariant
            n == s@.len(),
            start <= i <= n,
            absolute == is_absolute(s@),
            scan_path(s@, i as int) == (out@, s@.subrange(start as int, i as int)),
        decreases n - i,
    {
        let c = s.get_char(i);
        if c == '/' {
            push_component_exec(&mut out, s.substring_char(start, i), absolute);
            start = i + 1;
            assert(s@.subrange(start as int, i + 1) =~= Seq::<char>::empty());
        } else {
            assert(s@.subrange(start as int, i + 1) =~= s@.subrange(start as int, i as int).push(c));
        }
        i = i + 1;
    }
    push_component_exec(&mut out, s.substring_char(start, n), absolute);
    proof {
        reveal(canonical);
    }
    if absolute && out.as_str().unicode_len() == 0 {
        proof {
            reveal_strlit("/");
            assert("/"@ =~= single('/'));
        }
        owned("/")
    } else {
        out
    }
}

/// The materialized path of the entry at root-relative `rest`: its parent
/// directory framed by slashes, or just `/` at the top level.
pub open spec fn materialized_of(rest: Seq<char>) -> Seq<char> {
    let j = rfind_spec(rest, '/');
    if j <= 0 {
        single('/')
    } else {
        single('/') + slashes_normalized(rest.take(j)) + single('/')
    }
}

/// The error for a path outside the location it was given with.
pub open spec fn is_outside_location_error(e: FilePathError, location_id: i32, path: Seq<char>) -> bool {
    match e {
        FilePathError::UnableToExtractMaterializedPath { location_id: l, path: p } => l
            == location_id && p@ == path,
        _ => false,
    }
}

/// The part of `path` under `root`, as `strip_root` describes it.
pub fn strip_location_root(root: &str, path: &str) -> (r: Option<String>)
    ensures
        match strip_root(root@, path@) {
            Some(rest) => r is Some && r->0@ == rest,
            None => r is None,
        },
{
    proof {
        reveal_strlit("/");
        assert("/"@ =~= single('/'));
    }
    let root = canonical_path(root);
    let path = canonical_path(path);
    let root = root.as_str();
    let path = path.as_str();
    let n = root.unicode_len();
    let m = path.unicode_len();
    if text_eq(root, path) {
        return Some(String::new());
    }
    if text_eq(root, "/") && m > 1 && path.get_char(0) == '/' {
        return Some(owned(path.substring_char(1, m)));
    }
    if n < m && has_prefix(path, root) && path.get_char(n) == '/' {
        return Some(owned(path.substring_char(n + 1, m)));
    }
    None
}

/// The materialized path of the entry at root-relative `rest`.
pub fn materialized_from_rest(rest: &str) -> (r: String)
    ensures
        r@ == materialized_of(rest@),
{
    proof {
        reveal_strlit("/");
    }
    let n = rest.unicode_len();
    match rfind_char(rest, '/', n) {
        Some(j) if j > 0 => {
            assert(rest@.take(n as int) =~= rest@);
            proof {
                lemma_rfind(rest@, '/');
            }
            let parent = normalize_separators(rest.substring_char(0, j));
            let mut out = owned("/");
            out.append(parent.as_str());
            out.append("/");
            out
        },
        _ => {
            assert(rest@.take(n as int) =~= rest@);
            assert("/"@ =~= single('/'));
            owned("/")
        },
    }
}

/// The path of `path` relative to the location `root`, with forward slashes.
pub fn extract_relative_path(location_id: i32, location_path: &str, path: &str) -> (r: Result<
    String,
    FilePathError,
>)
    ensures
        match strip_root(location_path@, path@) {
            Some(rest) => r is Ok && r->Ok_0@ == slashes_normalized(rest),
            None => r is Err && is_outside_location_error(r->Err_0, location_id, path@),
        },
{
    match strip_location_root(location_path, path) {
        Some(rest) => Ok(normalize_separators(rest.as_str())),
        None => Err(
            FilePathError::UnableToExtractMaterializedPath { location_id, path: owned(path) },
        ),
    }
}

/// The materialized path (the parent directory, framed by slashes) of `path`
/// within the location `root`, with forward slashes.
pub fn extract_normalized_materialized_path_str(
    location_id: i32,
    location_path: &str,
    path: &str,
) -> (r: Result<String, FilePathError>)
    ensures
        match strip_root(location_path@, path@) {
            Some(rest) => r is Ok && r->Ok_0@ == materialized_of(rest),
            None => r is Err && is_outside_location_error(r->Err_0, location_id, path@),
        },
{
    match strip_location_root(location_path, path) {
        Some(rest) => Ok(materialized_from_rest(rest.as_str())),
        None => Err(
            FilePathError::UnableToExtractMaterializedPath { location_id, path: owned(path) },
        ),
    }
}

} // verus!
