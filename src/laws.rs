//! Laws that relate the ways a key is built and transformed.
use crate::key::{
    file_name_of, is_framed, key_from_path, key_from_relative, key_from_stored, parent_defined,
    parent_key, root_key,
};
use crate::normalize::{canonical, materialized_of, scan_path, strip_root};
use crate::text::{
    lemma_normalized_unchanged, lemma_rfind, lemma_rfind_absent, lemma_rfind_at,
    lemma_rfind_concat, rfind_spec, single, slashes_normalized,
};
use vstd::prelude::*;

verus! {

/// The directory that holds `path`: its canonical form up to the last
/// separator, or the root `/` when that separator is the first character.
pub open spec fn parent_dir_of(path: Seq<char>) -> Seq<char> {
    let p = canonical(path);
    let i = rfind_spec(p, '/');
    if i > 0 {
        p.take(i)
    } else if i == 0 {
        single('/')
    } else {
        Seq::<char>::empty()
    }
}

/// An absolute path whose components are neither empty nor `.`, with no
/// separator at its end unless it is the root `/`.
pub open spec fn is_clean(s: Seq<char>) -> bool {
    &&& s.len() > 0 && s[0] == '/'
    &&& s.len() > 1 ==> s.last() != '/'
    &&& forall|i: int| 0 < i < s.len() && #[trigger] s[i] == '/' ==> s[i - 1] != '/'
    &&& forall|i: int|
        0 < i < s.len() && #[trigger] s[i] == '.' && s[i - 1] == '/' ==> i + 1 < s.len() && s[i
            + 1] != '/'
}

/// Reading a clean path, the text so far is everything before the last
/// separator read, and the pending component is what follows it.
proof fn lemma_scan_clean(s: Seq<char>, i: int)
    requires
        is_clean(s),
        1 <= i <= s.len(),
    ensures
        rfind_spec(s.take(i), '/') >= 0,
        scan_path(s, i) == (s.take(rfind_spec(s.take(i), '/')), s.subrange(
            rfind_spec(s.take(i), '/') + 1,
            i,
        )),
    decreases i,
{
    if i == 1 {
        lemma_rfind_at(s.take(1), '/', 0);
        assert(scan_path(s, 0) == (Seq::<char>::empty(), Seq::<char>::empty()));
        assert(s.take(0) =~= Seq::<char>::empty());
        assert(s.subrange(1, 1) =~= Seq::<char>::empty());
    } else {
        lemma_scan_clean(s, i - 1);
        let b0 = rfind_spec(s.take(i - 1), '/');
        lemma_rfind(s.take(i - 1), '/');
        let cur = s.subrange(b0 + 1, i - 1);
        if s[i - 1] == '/' {
            assert(s[i - 2] != '/');
            assert(s.take(i - 1)[b0] == '/');
            assert(b0 < i - 2);
            assert(cur.len() > 0);
            if cur == single('.') {
                assert(cur[0] == s[b0 + 1]);
                assert(s[b0 + 1] == '.' && s[b0] == '/');
                assert(false);
            }
            if b0 == 0 {
                assert(single('/') + cur =~= s.take(i - 1));
            } else {
                assert(s.take(b0) + single('/') + cur =~= s.take(i - 1));
            }
            assert forall|x: int| i - 1 < x < s.take(i).len() implies s.take(i)[x] != '/' by {}
            lemma_rfind_at(s.take(i), '/', i - 1);
            assert(s.subrange(i, i) =~= Seq::<char>::empty());
        } else {
            assert(s.take(i).drop_last() =~= s.take(i - 1));
            assert(cur.push(s[i - 1]) =~= s.subrange(b0 + 1, i));
        }
    }
}

/// A clean path cut before one of its separators (not the first) is clean.
pub proof fn lemma_clean_prefix(s: Seq<char>, i: int)
    requires
        is_clean(s),
        0 < i < s.len(),
        s[i] == '/',
    ensures
        is_clean(s.take(i)),
{
    let q = s.take(i);
    assert forall|x: int| 0 < x < q.len() && #[trigger] q[x] == '/' implies q[x - 1] != '/' by {
        assert(q[x] == s[x] && q[x - 1] == s[x - 1]);
    }
    assert forall|x: int| 0 < x < q.len() && #[trigger] q[x] == '.' && q[x - 1] == '/' implies x
        + 1 < q.len() && q[x + 1] != '/' by {
        assert(q[x] == s[x] && q[x - 1] == s[x - 1]);
        if x + 1 < q.len() {
            assert(q[x + 1] == s[x + 1]);
        }
    }
}

/// A clean path is its own canonical form.
pub proof fn lemma_canonical_clean(s: Seq<char>)
    requires
        is_clean(s),
    ensures
        canonical(s) == s,
{
    reveal(canonical);
    let n = s.len() as int;
    lemma_scan_clean(s, n);
    assert(s.take(n) =~= s);
    let b = rfind_spec(s, '/');
    lemma_rfind(s, '/');
    if n == 1 {
        assert(s =~= single('/'));
        assert(s.take(0) =~= Seq::<char>::empty());
        assert(s.subrange(1, 1) =~= Seq::<char>::empty());
    } else {
        let cur = s.subrange(b + 1, n);
        assert(b < n - 1);
        if cur == single('.') {
            assert(cur.len() == 1);
            assert(b == n - 2);
            assert(s[b] == '/');
            assert(cur[0] == s[n - 1]);
            assert(s[n - 1] == '.' && s[n - 2] == '/');
            assert(false);
        }
        if b == 0 {
            assert(single('/') + cur =~= s);
        } else {
            assert(s.take(b) + single('/') + cur =~= s);
        }
    }
}

/// Every materialized path derived from a path under a root begins and ends
/// with a slash.
pub proof fn lemma_materialized_framed(rest: Seq<char>)
    ensures
        is_framed(materialized_of(rest)),
{
}

/// A materialized path framed by slashes can always be cut by `parent`, and
/// the parent's materialized path is framed too.
pub proof fn lemma_framed_parent(k: crate::key::PathKeyView)
    requires
        is_framed(k.materialized_path),
    ensures
        parent_defined(k.materialized_path),
        is_framed(parent_key(k).materialized_path),
{
    let mp = k.materialized_path;
    if mp != single('/') {
        let t = mp.len() - 1;
        if mp.len() == 1 {
            assert(mp =~= single('/'));
        }
        lemma_rfind(mp.take(t), '/');
        if rfind_spec(mp.take(t), '/') < 0 {
            assert(mp.take(t)[0] == '/');
        }
    }
}

/// The parent of the root key is the root key.
pub proof fn lemma_parent_of_root(location_id: i32)
    ensures
        parent_key(root_key(location_id)) == root_key(location_id),
{
}

/// For a file strictly under the root, the parent of its key is the key of
/// the directory that holds it, wherever root and path are clean and the
/// path below the root has no backslash.
#[verifier::rlimit(50)]
pub proof fn lemma_parent_of_file_key(location_id: i32, root: Seq<char>, path: Seq<char>)
    requires
        is_clean(root),
        is_clean(path),
        strip_root(root, path) matches Some(rest) && rest.len() > 0 && !rest.contains('\\'),
    ensures
        key_from_path(location_id, root, path, false) is Some,
        key_from_path(location_id, root, parent_dir_of(path), true) is Some,
        parent_key(key_from_path(location_id, root, path, false)->0) == key_from_path(
            location_id,
            root,
            parent_dir_of(path),
            true,
        )->0,
{
    lemma_canonical_clean(root);
    lemma_canonical_clean(path);
    let rest = strip_root(root, path)->0;
    let head = if root == single('/') {
        root
    } else {
        root + single('/')
    };
    let h = head.len() as int;
    assert(path =~= head + rest);
    assert(head.last() == '/');
    lemma_rfind(rest, '/');
    lemma_rfind_at(head, '/', h - 1);
    lemma_rfind_concat(head, rest, '/');
    let j = rfind_spec(rest, '/');
    let q = parent_dir_of(path);
    let file = key_from_path(location_id, root, path, false)->0;
    let dir = key_from_path(location_id, root, q, true);
    assert(path[h] == rest[0]);
    assert(rest[0] != '/');
    if j < 0 {
        if root == single('/') {
            assert(q == root);
        } else {
            assert(q =~= root);
        }
        assert(strip_root(root, q) == Some(Seq::<char>::empty()));
        lemma_rfind_absent(Seq::<char>::empty(), '/');
        assert(slashes_normalized(Seq::<char>::empty()) =~= Seq::<char>::empty());
        assert(dir->0 == root_key(location_id));
    } else {
        assert(path[h + j] == '/');
        assert(j > 0);
        assert(path[h + j - 1] == rest[j - 1]);
        let par = rest.take(j);
        assert(q =~= head + par);
        lemma_clean_prefix(path, h + j);
        assert(path.take(h + j) =~= q);
        lemma_canonical_clean(q);
        if root == single('/') {
            assert(q.skip(1) =~= par);
        } else {
            let n = root.len() as int;
            assert(q.take(n) =~= root);
            assert(q.skip(n + 1) =~= par);
        }
        assert(strip_root(root, q) == Some(par));
        assert(!par.contains('\\')) by {
            if par.contains('\\') {
                let x = choose|x: int| 0 <= x < par.len() && par[x] == '\\';
                assert(rest[x] == '\\');
            }
        }
        lemma_normalized_unchanged(par);
        lemma_rfind(par, '/');
        lemma_rfind_concat(head, par, '/');
        let k = rfind_spec(par, '/');
        assert(file_name_of(q) =~= par.skip(k + 1));
        let mp = single('/') + par + single('/');
        assert(file.materialized_path == mp);
        assert(mp.take(mp.len() - 1) =~= single('/') + par);
        lemma_rfind_at(single('/'), '/', 0);
        lemma_rfind_concat(single('/'), par, '/');
        assert(par[0] == rest[0]);
        assert(k != 0);
        if k > 0 {
            assert(mp.take(k + 2) =~= single('/') + slashes_normalized(par.take(k)) + single(
                '/',
            ));
        } else {
            lemma_rfind_absent(par, '/');
            assert(mp.take(k + 2) =~= single('/'));
        }
        assert(mp.subrange(k + 2, mp.len() - 1) =~= par.skip(k + 1));
        assert(mp.subrange(1, mp.len() - 1) =~= par);
        assert(parent_key(file) == dir->0);
    }
}

/// Reading back the relative path of a stored file key gives back the same
/// key: materialized path, name, extension and kind. This holds for a file
/// whose materialized path is framed by slashes and does not begin with two,
/// with a non-empty name and no slash in name or extension (and not a
/// one-character relative path, which reads back as the root), an extension
/// without a dot, and, where the extension is empty, a name with no dot after
/// its first character.
pub proof fn lemma_stored_file_round_trip(
    location_id: i32,
    materialized_path: Seq<char>,
    name: Seq<char>,
    extension: Seq<char>,
)
    requires
        is_framed(materialized_path),
        materialized_path.len() >= 2 ==> materialized_path[1] != '/',
        name.len() > 0,
        !(materialized_path.len() == 1 && name.len() == 1 && extension.len() == 0),
        !name.contains('/'),
        !extension.contains('/'),
        !extension.contains('.'),
        extension.len() == 0 ==> rfind_spec(name, '.') <= 0,
    ensures
        ({
            let stored = key_from_stored(location_id, false, materialized_path, name, extension);
            let back = key_from_relative(location_id, stored.relative_path);
            &&& back.is_dir == false
            &&& back.name == name
            &&& back.extension == extension
            &&& back.materialized_path == materialized_path
        }),
{
    let stored = key_from_stored(location_id, false, materialized_path, name, extension);
    let rel = stored.relative_path;
    let u = materialized_path.skip(1);
    let w = if extension.len() > 0 {
        name + single('.') + extension
    } else {
        name
    };
    assert(rel =~= u + w);
    assert forall|x: int| 0 <= x < w.len() implies w[x] != '/' by {
        if extension.len() > 0 {
            if x < name.len() {
                assert(w[x] == name[x]);
                assert(name.contains(name[x]));
            } else if x > name.len() {
                assert(w[x] == extension[x - name.len() - 1]);
                assert(extension.contains(extension[x - name.len() - 1]));
            }
        } else {
            assert(name.contains(name[x]));
        }
    }
    lemma_rfind_absent(w, '/');
    assert(rel.last() == w.last());
    assert(w[0] != '/');
    if materialized_path.len() == 1 {
        assert(u =~= Seq::<char>::empty());
        assert(rel =~= w);
        assert(rel != single('/')) by {
            if rel == single('/') {
                assert(rel[0] == '/');
            }
        }
        assert(rel.skip(0) =~= w);
        assert(w.skip(0) =~= w);
    } else {
        assert(u.last() == '/');
        assert(u[0] != '/');
        assert(rel[0] == u[0]);
        assert(rel != single('/')) by {
            if rel == single('/') {
                assert(rel.len() >= u.len() + 1);
            }
        }
        lemma_rfind_at(u, '/', u.len() - 1);
        lemma_rfind_concat(u, w, '/');
        assert(rel.skip(u.len() as int) =~= w);
        assert(single('/') + rel.take(u.len() - 1) + single('/') =~= materialized_path);
    }
    if extension.len() > 0 {
        assert(w.last() == extension.last());
        assert(extension.contains(extension.last()));
        let nd = name + single('.');
        assert(w =~= nd + extension);
        assert forall|x: int| 0 <= x < extension.len() implies extension[x] != '.' by {
            assert(extension.contains(extension[x]));
        }
        lemma_rfind_absent(extension, '.');
        lemma_rfind_at(nd, '.', name.len() as int);
        lemma_rfind_concat(nd, extension, '.');
        assert(w.take(name.len() as int) =~= name);
        assert(w.skip(name.len() + 1 as int) =~= extension);
    } else {
        assert(name.contains(name.last()));
        assert(extension =~= Seq::<char>::empty());
    }
}

} // verus!
