//! The isolated path key: the identity of a filesystem entry within its
//! location, independent of the host's separator conventions.
use crate::error::FilePathError;
use crate::normalize::{
    extract_normalized_materialized_path_str, extract_relative_path, is_outside_location_error,
    canonical, canonical_path, materialized_of, strip_root,
};
use crate::text::{
    contains_char, lemma_rfind, lowercase_of, owned, rfind_char, rfind_spec, single, slashes_normalized,
    text_eq, to_lowercase,
};
use crate::validator::{policy_patterns, some_pattern_matches, FilenameValidator};
use crate::laws::{lemma_framed_parent, lemma_materialized_framed};
use vstd::prelude::*;
use vstd::string::*;

verus! {

/// The mathematical content of a key.
pub struct PathKeyView {
    pub location_id: i32,
    pub materialized_path: Seq<char>,
    pub is_dir: bool,
    pub name: Seq<char>,
    pub extension: Seq<char>,
    pub relative_path: Seq<char>,
}

/// The identity of a filesystem entry inside a location: the directory that
/// holds it (framed by slashes), its name, its lower-cased extension, and the
/// derived path relative to the location root.
#[derive(Debug)]
pub struct IsolatedFilePathData {
    location_id: i32,
    materialized_path: String,
    is_dir: bool,
    name: String,
    extension: String,
    relative_path: String,
}

impl View for IsolatedFilePathData {
    type V = PathKeyView;

    closed spec fn view(&self) -> PathKeyView {
        PathKeyView {
            location_id: self.location_id,
            materialized_path: self.materialized_path@,
            is_dir: self.is_dir,
            name: self.name@,
            extension: self.extension@,
            relative_path: self.relative_path@,
        }
    }
}

/// The last component of `path` in canonical form.
pub open spec fn file_name_of(path: Seq<char>) -> Seq<char> {
    let p = canonical(path);
    p.skip(rfind_spec(p, '/') + 1)
}

/// A bare file name split at its last dot into stem and extension; a name
/// without a dot, or whose only dot leads it (a hidden file), has no extension.
pub open spec fn split_bare(s: Seq<char>) -> (Seq<char>, Seq<char>) {
    let d = rfind_spec(s, '.');
    if d <= 0 {
        (s, Seq::<char>::empty())
    } else {
        (s.take(d), s.skip(d + 1))
    }
}

/// The key of the location root itself.
pub open spec fn root_key(location_id: i32) -> PathKeyView {
    PathKeyView {
        location_id,
        materialized_path: single('/'),
        is_dir: true,
        name: Seq::<char>::empty(),
        extension: Seq::<char>::empty(),
        relative_path: Seq::<char>::empty(),
    }
}

/// The key of the entry at absolute `path` inside the location at `root`,
/// with `extension` as the file's extension, or `None` when `path` is not
/// under `root`.
pub open spec fn key_from_path_parts(
    location_id: i32,
    root: Seq<char>,
    path: Seq<char>,
    is_dir: bool,
    extension: Seq<char>,
) -> Option<PathKeyView> {
    match strip_root(root, path) {
        None => None,
        Some(rest) => Some(
            PathKeyView {
                location_id,
                materialized_path: materialized_of(rest),
                is_dir,
                name: if canonical(path) == canonical(root) {
                    Seq::<char>::empty()
                } else if is_dir {
                    file_name_of(path)
                } else {
                    split_bare(file_name_of(path)).0
                },
                extension: if is_dir {
                    Seq::<char>::empty()
                } else {
                    extension
                },
                relative_path: slashes_normalized(rest),
            },
        ),
    }
}

/// The lower-cased extension of the last component of `path`, empty when it
/// has none.
pub open spec fn lowered_extension_of(path: Seq<char>) -> Seq<char> {
    let raw = split_bare(file_name_of(path)).1;
    if raw.len() == 0 {
        Seq::<char>::empty()
    } else {
        lowercase_of(raw)
    }
}

/// The key of the entry at absolute `path` inside the location at `root`,
/// or `None` when `path` is not under `root`.
pub open spec fn key_from_path(
    location_id: i32,
    root: Seq<char>,
    path: Seq<char>,
    is_dir: bool,
) -> Option<PathKeyView> {
    key_from_path_parts(location_id, root, path, is_dir, lowered_extension_of(path))
}

/// Whether `parent` can cut a materialized path: it is the root path `/`,
/// or it holds a slash before its final character.
pub open spec fn parent_defined(mp: Seq<char>) -> bool {
    mp == single('/') || (mp.len() >= 1 && rfind_spec(mp.take(mp.len() - 1), '/') >= 0)
}

/// The key of the directory that holds the entry of `k`.
pub open spec fn parent_key(k: PathKeyView) -> PathKeyView {
    let mp = k.materialized_path;
    if mp == single('/') {
        root_key(k.location_id)
    } else {
        let t = mp.len() - 1;
        let i = rfind_spec(mp.take(t), '/');
        PathKeyView {
            location_id: k.location_id,
            materialized_path: mp.take(i + 1),
            is_dir: true,
            name: mp.subrange(i + 1, t),
            extension: Seq::<char>::empty(),
            relative_path: mp.subrange(1, t),
        }
    }
}

/// A relative text split into materialized path, name and extension. A text
/// of one character is the root path itself and comes back as it is, with
/// neither name nor extension; so does an empty text, as the root `/`.
/// Otherwise one leading slash, and for a directory one trailing slash, are
/// set aside; the last component is the name (a file's split at its last dot
/// as `split_bare` does), and what comes before it, framed by slashes, is the
/// materialized path.
pub open spec fn split_relative(s: Seq<char>, is_dir: bool) -> (
    Seq<char>,
    Option<Seq<char>>,
    Option<Seq<char>>,
) {
    if s.len() == 1 {
        (s, None, None)
    } else if s.len() == 0 {
        (single('/'), None, None)
    } else {
        let a = if s[0] == '/' {
            s.skip(1)
        } else {
            s
        };
        let body = if is_dir && a.len() > 0 && a.last() == '/' {
            a.drop_last()
        } else {
            a
        };
        let j = rfind_spec(body, '/');
        let mp = if j < 0 {
            single('/')
        } else {
            single('/') + body.take(j) + single('/')
        };
        let tail = body.skip(j + 1);
        if is_dir {
            (mp, Some(tail), None)
        } else {
            let d = rfind_spec(tail, '.');
            if d > 0 {
                (mp, Some(tail.take(d)), Some(tail.skip(d + 1)))
            } else {
                (mp, Some(tail), None)
            }
        }
    }
}

pub open spec fn or_empty(o: Option<Seq<char>>) -> Seq<char> {
    match o {
        Some(s) => s,
        None => Seq::<char>::empty(),
    }
}

pub open spec fn opt_view(o: Option<&str>) -> Option<Seq<char>> {
    match o {
        Some(s) => Some(s@),
        None => None,
    }
}

/// The key read back from a relative text; a trailing slash marks a directory.
pub open spec fn key_from_relative(location_id: i32, s: Seq<char>) -> PathKeyView {
    let is_dir = s.len() > 0 && s.last() == '/';
    let parts = split_relative(s, is_dir);
    PathKeyView {
        location_id,
        materialized_path: parts.0,
        is_dir,
        name: or_empty(parts.1),
        extension: or_empty(parts.2),
        relative_path: s,
    }
}

/// The relative path that the stored fields of a key determine.
pub open spec fn assembled_relative(
    materialized_path: Seq<char>,
    name: Seq<char>,
    extension: Seq<char>,
    is_dir: bool,
) -> Seq<char> {
    if !is_dir && extension.len() > 0 {
        materialized_path.skip(1) + name + single('.') + extension
    } else {
        materialized_path.skip(1) + name
    }
}

/// The key rebuilt from stored fields.
pub open spec fn key_from_stored(
    location_id: i32,
    is_dir: bool,
    materialized_path: Seq<char>,
    name: Seq<char>,
    extension: Seq<char>,
) -> PathKeyView {
    PathKeyView {
        location_id,
        materialized_path,
        is_dir,
        name,
        extension: if is_dir {
            Seq::<char>::empty()
        } else {
            extension
        },
        relative_path: assembled_relative(materialized_path, name, extension, is_dir),
    }
}

pub open spec fn is_root_key(k: PathKeyView) -> bool {
    k.is_dir && k.materialized_path == single('/') && k.name.len() == 0 && k.relative_path.len()
        == 0
}

/// The name with its extension, if it has one.
pub open spec fn full_name_of(k: PathKeyView) -> Seq<char> {
    if k.extension.len() == 0 {
        k.name
    } else {
        k.name + single('.') + k.extension
    }
}

/// The materialized path of the entries inside the directory of `k`.
pub open spec fn children_path_of(k: PathKeyView) -> Option<Seq<char>> {
    if k.materialized_path == single('/') && k.name.len() == 0 && k.is_dir {
        Some(single('/'))
    } else if k.is_dir {
        Some(k.materialized_path + k.name + single('/'))
    } else {
        None
    }
}

/// A materialized path that begins and ends with a slash.
pub open spec fn is_framed(mp: Seq<char>) -> bool {
    mp.len() >= 1 && mp[0] == '/' && mp.last() == '/'
}

/// The last component of `path` in canonical form.
fn file_name_part(path: &str) -> (r: String)
    ensures
        r@ == file_name_of(path@),
{
    let canonical = canonical_path(path);
    let path = canonical.as_str();
    let n = path.unicode_len();
    let found = rfind_char(path, '/', n);
    proof {
        assert(path@.take(n as int) =~= path@);
        lemma_rfind(path@, '/');
    }
    let start = match found {
        Some(i) => i + 1,
        None => 0,
    };
    owned(path.substring_char(start, n))
}

/// Splits a bare name at its last dot, as `split_bare` describes.
fn split_name(s: &str) -> (r: (&str, &str))
    ensures
        r.0@ == split_bare(s@).0,
        r.1@ == split_bare(s@).1,
{
    let n = s.unicode_len();
    let found = rfind_char(s, '.', n);
    proof {
        assert(s@.take(n as int) =~= s@);
        lemma_rfind(s@, '.');
    }
    match found {
        Some(d) if d > 0 => (s.substring_char(0, d), s.substring_char(d + 1, n)),
        _ => {
            let empty = s.substring_char(n, n);
            assert(empty@ =~= Seq::<char>::empty());
            (s, empty)
        },
    }
}

/// The relative path determined by stored fields.
pub fn assemble_relative_path(
    materialized_path: &str,
    name: &str,
    extension: &str,
    is_dir: bool,
) -> (r: String)
    requires
        materialized_path@.len() >= 1,
    ensures
        r@ == assembled_relative(materialized_path@, name@, extension@, is_dir),
{
    proof {
        reveal_strlit(".");
    }
    let n = materialized_path.unicode_len();
    let mut out = owned(materialized_path.substring_char(1, n));
    out.append(name);
    if !is_dir && extension.unicode_len() > 0 {
        out.append(".");
        out.append(extension);
        assert(out@ =~= assembled_relative(materialized_path@, name@, extension@, is_dir));
    } else {
        assert(out@ =~= assembled_relative(materialized_path@, name@, extension@, is_dir));
    }
    out
}

impl IsolatedFilePathData {
    /// A directory has no extension.
    #[verifier::type_invariant]
    closed spec fn inv(&self) -> bool {
        self.is_dir ==> self.extension@.len() == 0
    }

    /// Whether `name` is acceptable as a file name under the validator's
    /// policy.
    pub fn accept_file_name(validator: &FilenameValidator, name: &str) -> (r: bool)
        requires
            validator.wf(),
        ensures
            r == !some_pattern_matches(policy_patterns(validator.policy_spec()), name@),
    {
        validator.accept(name)
    }

    /// The key of the entry at `full_path` inside the location rooted at
    /// `location_path`; a file's extension is lower-cased.
    pub fn new(location_id: i32, location_path: &str, full_path: &str, is_dir: bool) -> (r: Result<
        Self,
        FilePathError,
    >)
        ensures
            match key_from_path(location_id, location_path@, full_path@, is_dir) {
                Some(k) => r is Ok && r->Ok_0@ == k,
                None => r is Err && is_outside_location_error(r->Err_0, location_id, full_path@),
            },
            r is Ok ==> is_framed(r->Ok_0@.materialized_path),
    {
        let file_name = file_name_part(full_path);
        let raw_extension = split_name(file_name.as_str()).1;
        let extension = if is_dir || raw_extension.unicode_len() == 0 {
            String::new()
        } else {
            to_lowercase(raw_extension)
        };
        Self::new_with_extension(location_id, location_path, full_path, is_dir, extension)
    }

    /// The key of the entry at `full_path` inside the location rooted at
    /// `location_path`, taking `extension` as the file's extension as it is
    /// given; a directory's extension is empty.
    pub fn new_with_extension(
        location_id: i32,
        location_path: &str,
        full_path: &str,
        is_dir: bool,
        extension: String,
    ) -> (r: Result<Self, FilePathError>)
        ensures
            match key_from_path_parts(location_id, location_path@, full_path@, is_dir, extension@) {
                Some(k) => r is Ok && r->Ok_0@ == k,
                None => r is Err && is_outside_location_error(r->Err_0, location_id, full_path@),
            },
            r is Ok ==> is_framed(r->Ok_0@.materialized_path),
    {
        let materialized_path = match extract_normalized_materialized_path_str(
            location_id,
            location_path,
            full_path,
        ) {
            Ok(m) => m,
            Err(e) => return Err(e),
        };
        let relative_path = match extract_relative_path(location_id, location_path, full_path) {
            Ok(r) => r,
            Err(e) => return Err(e),
        };
        let extension = if is_dir {
            String::new()
        } else {
            extension
        };
        let name = if text_eq(
            canonical_path(location_path).as_str(),
            canonical_path(full_path).as_str(),
        ) {
            String::new()
        } else if is_dir {
            file_name_part(full_path)
        } else {
            Self::prepare_name(full_path)
        };
        let r = Self { location_id, materialized_path, is_dir, name, extension, relative_path };
        proof {
            lemma_materialized_framed(strip_root(location_path@, full_path@)->0);
        }
        Ok(r)
    }

    /// The stem of the last component of `path`.
    fn prepare_name(path: &str) -> (r: String)
        ensures
            r@ == split_bare(file_name_of(path@)).0,
    {
        let file_name = file_name_part(path);
        owned(split_name(file_name.as_str()).0)
    }

    pub fn location_id(&self) -> (r: i32)
        ensures
            r == self@.location_id,
    {
        self.location_id
    }

    pub fn name(&self) -> (r: &str)
        ensures
            r@ == self@.name,
    {
        self.name.as_str()
    }

    pub fn extension(&self) -> (r: &str)
        ensures
            r@ == self@.extension,
    {
        self.extension.as_str()
    }

    pub fn materialized_path(&self) -> (r: &str)
        ensures
            r@ == self@.materialized_path,
    {
        self.materialized_path.as_str()
    }

    pub fn is_dir(&self) -> (r: bool)
        ensures
            r == self@.is_dir,
    {
        self.is_dir
    }

    /// The path relative to the location root, with forward slashes.
    pub fn relative_path(&self) -> (r: &str)
        ensures
            r@ == self@.relative_path,
    {
        self.relative_path.as_str()
    }

    /// Whether this is the key of the location root.
    pub fn is_root(&self) -> (r: bool)
        ensures
            r == is_root_key(self@),
    {
        proof {
            reveal_strlit("/");
            assert("/"@ =~= single('/'));
        }
        self.is_dir && text_eq(self.materialized_path.as_str(), "/") && self.name.unicode_len() == 0
            && self.relative_path.unicode_len() == 0
    }

    /// The key of the directory that holds this entry; the root is its own
    /// parent.
    pub fn parent(&self) -> (r: Self)
        requires
            parent_defined(self@.materialized_path),
        ensures
            r@ == parent_key(self@),
            is_root_key(self@) ==> r@ == self@,
            is_framed(self@.materialized_path) ==> is_framed(r@.materialized_path),
    {
        proof {
            use_type_invariant(self);
            if is_framed(self@.materialized_path) {
                lemma_framed_parent(self@);
            }
        }
        proof {
            reveal_strlit("/");
            assert("/"@ =~= single('/'));
        }
        let mp = self.materialized_path.as_str();
        if text_eq(mp, "/") {
            let r = Self {
                location_id: self.location_id,
                materialized_path: owned("/"),
                is_dir: true,
                name: String::new(),
                extension: String::new(),
                relative_path: String::new(),
            };
            assert(r@ == parent_key(self@));
            assert(is_root_key(self@) ==> r@ == self@) by {
                if is_root_key(self@) {
                    assert(self@.name =~= Seq::<char>::empty());
                    assert(self@.extension =~= Seq::<char>::empty());
                    assert(self@.relative_path =~= Seq::<char>::empty());
                }
            }
            return r;
        }
        let t = mp.unicode_len() - 1;
        let i = rfind_char(mp, '/', t).unwrap();
        proof {
            lemma_rfind(mp@.take(t as int), '/');
        }
        let r = Self {
            location_id: self.location_id,
            materialized_path: owned(mp.substring_char(0, i + 1)),
            is_dir: true,
            name: owned(mp.substring_char(i + 1, t)),
            extension: String::new(),
            relative_path: owned(mp.substring_char(1, t)),
        };
        assert(r@ == parent_key(self@));
        r
    }

    /// The key read back from a path relative to the location root; a
    /// trailing slash marks a directory.
    pub fn from_relative_str(location_id: i32, relative_file_path_str: &str) -> (r: Self)
        ensures
            r@ == key_from_relative(location_id, relative_file_path_str@),
    {
        let s = relative_file_path_str;
        let n = s.unicode_len();
        let is_dir = n > 0 && s.get_char(n - 1) == '/';
        let (materialized_path, maybe_name, maybe_extension) =
            Self::separate_path_name_and_extension_from_str(s, is_dir);
        let name = match maybe_name {
            Some(x) => owned(x),
            None => String::new(),
        };
        let extension = match maybe_extension {
            Some(x) => owned(x),
            None => String::new(),
        };
        let r = Self {
            location_id,
            materialized_path,
            is_dir,
            name,
            extension,
            relative_path: owned(s),
        };
        assert(r@ == key_from_relative(location_id, s@));
        r
    }

    /// The name with its extension, if it has one.
    pub fn full_name(&self) -> (r: String)
        ensures
            r@ == full_name_of(self@),
    {
        proof {
            reveal_strlit(".");
        }
        let mut out = owned(self.name.as_str());
        if self.extension.unicode_len() > 0 {
            out.append(".");
            out.append(self.extension.as_str());
            assert(out@ =~= full_name_of(self@));
        }
        out
    }

    /// The materialized path of the entries inside this directory; `None`
    /// for a file.
    pub fn materialized_path_for_children(&self) -> (r: Option<String>)
        ensures
            match children_path_of(self@) {
                Some(p) => r is Some && r->0@ == p,
                None => r is None,
            },
    {
        proof {
            reveal_strlit("/");
            assert("/"@ =~= single('/'));
        }
        if text_eq(self.materialized_path.as_str(), "/") && self.name.unicode_len() == 0
            && self.is_dir {
            Some(owned("/"))
        } else if self.is_dir {
            let mut out = owned(self.materialized_path.as_str());
            out.append(self.name.as_str());
            out.append("/");
            assert(out@ =~= self@.materialized_path + self@.name + single('/'));
            Some(out)
        } else {
            None
        }
    }

    /// Splits a bare file name into stem and extension; a name that holds a
    /// path separator is refused.
    pub fn separate_name_and_extension_from_str(source: &str) -> (r: Result<
        (&str, &str),
        FilePathError,
    >)
        ensures
            source@.contains('/') ==> (r matches Err(
                FilePathError::InvalidFilenameAndExtension(s),
            ) && s@ == source@),
            !source@.contains('/') ==> (r matches Ok(p) && p.0@ == split_bare(source@).0 && p.1@
                == split_bare(source@).1),
    {
        if contains_char(source, '/') {
            return Err(FilePathError::InvalidFilenameAndExtension(owned(source)));
        }
        Ok(split_name(source))
    }

    /// Splits a relative text into materialized path, name and extension,
    /// as `split_relative` describes.
    pub fn separate_path_name_and_extension_from_str(source: &str, is_dir: bool) -> (r: (
        String,
        Option<&str>,
        Option<&str>,
    ))
        ensures
            r.0@ == split_relative(source@, is_dir).0,
            opt_view(r.1) == split_relative(source@, is_dir).1,
            opt_view(r.2) == split_relative(source@, is_dir).2,
    {
        proof {
            reveal_strlit("/");
            assert("/"@ =~= single('/'));
        }
        let n = source.unicode_len();
        if n == 1 {
            return (owned(source), None, None);
        }
        if n == 0 {
            return (owned("/"), None, None);
        }
        let start: usize = if source.get_char(0) == '/' {
            1
        } else {
            0
        };
        let a = source.substring_char(start, n);
        assert(a@ == (if source@[0] == '/' { source@.skip(1) } else { source@ }));
        let m = a.unicode_len();
        let end: usize = if is_dir && m > 0 && a.get_char(m - 1) == '/' {
            m - 1
        } else {
            m
        };
        let body = a.substring_char(0, end);
        assert(body@ =~= (if is_dir && a@.len() > 0 && a@.last() == '/' {
            a@.drop_last()
        } else {
            a@
        }));
        let k = body.unicode_len();
        let found = rfind_char(body, '/', k);
        proof {
            assert(body@.take(k as int) =~= body@);
            lemma_rfind(body@, '/');
        }
        let (materialized_path, first) = match found {
            Some(j) => {
                let mut mp = owned("/");
                mp.append(body.substring_char(0, j));
                mp.append("/");
                assert(mp@ =~= single('/') + body@.take(j as int) + single('/'));
                (mp, j + 1)
            },
            None => (owned("/"), 0),
        };
        let tail = body.substring_char(first, k);
        if is_dir {
            return (materialized_path, Some(tail), None);
        }
        let t = tail.unicode_len();
        let dot = rfind_char(tail, '.', t);
        proof {
            assert(tail@.take(t as int) =~= tail@);
            lemma_rfind(tail@, '.');
        }
        match dot {
            Some(d) if d > 0 => (
                materialized_path,
                Some(tail.substring_char(0, d)),
                Some(tail.substring_char(d + 1, t)),
            ),
            _ => (materialized_path, Some(tail), None),
        }
    }

    /// The key rebuilt from the fields a store keeps; the relative path is
    /// derived from them.
    pub fn from_db_data(
        location_id: i32,
        is_dir: bool,
        materialized_path: String,
        name: String,
        extension: String,
    ) -> (r: Self)
        requires
            materialized_path@.len() >= 1,
        ensures
            r@ == key_from_stored(location_id, is_dir, materialized_path@, name@, extension@),
    {
        let relative_path = assemble_relative_path(
            materialized_path.as_str(),
            name.as_str(),
            extension.as_str(),
            is_dir,
        );
        let extension = if is_dir {
            String::new()
        } else {
            extension
        };
        Self { relative_path, location_id, materialized_path, is_dir, name, extension }
    }
}

/// Keys are equal when location, materialized path, name and extension are:
/// the derived relative path takes no part.
impl PartialEq for IsolatedFilePathData {
    fn eq(&self, other: &Self) -> (r: bool)
        ensures
            r == (self@.location_id == other@.location_id && self@.materialized_path
                == other@.materialized_path && self@.is_dir == other@.is_dir && self@.name
                == other@.name && self@.extension == other@.extension),
    {
        self.location_id == other.location_id && self.materialized_path == other.materialized_path
            && self.is_dir == other.is_dir && self.name == other.name && self.extension
            == other.extension
    }
}

impl vstd::std_specs::cmp::PartialEqSpecImpl for IsolatedFilePathData {
    open spec fn obeys_eq_spec() -> bool {
        true
    }

    open spec fn eq_spec(&self, other: &Self) -> bool {
        self@.location_id == other@.location_id && self@.materialized_path
            == other@.materialized_path && self@.is_dir == other@.is_dir && self@.name
            == other@.name && self@.extension == other@.extension
    }
}

impl Eq for IsolatedFilePathData {

}

} // verus!
