//! Character-level text helpers shared by the path logic.
use vstd::prelude::*;
use vstd::string::*;

verus! {

/// Index of the last `c` in `s`, or -1 when `s` holds none.
pub open spec fn rfind_spec(s: Seq<char>, c: char) -> int
    decreases s.len(),
{
    if s.len() == 0 {
        -1
    } else if s.last() == c {
        s.len() - 1
    } else {
        rfind_spec(s.drop_last(), c)
    }
}

/// `s` with every backslash turned into a forward slash.
pub open spec fn slashes_normalized(s: Seq<char>) -> Seq<char> {
    s.map_values(|c: char| if c == '\\' { '/' } else { c })
}

/// The one-character text `c`.
pub open spec fn single(c: char) -> Seq<char> {
    seq![c]
}

pub proof fn lemma_rfind(s: Seq<char>, c: char)
    ensures
        -1 <= rfind_spec(s, c) < s.len(),
        rfind_spec(s, c) >= 0 ==> s[rfind_spec(s, c)] == c,
        forall|i: int| rfind_spec(s, c) < i < s.len() ==> s[i] != c,
    decreases s.len(),
{
    if s.len() > 0 && s.last() != c {
        lemma_rfind(s.drop_last(), c);
        assert forall|i: int| rfind_spec(s, c) < i < s.len() implies s[i] != c by {
            if i < s.len() - 1 {
                assert(s[i] == s.drop_last()[i]);
            }
        }
    }
}

/// A text position `i` holding `c`, with no `c` after it, is the last `c`.
pub proof fn lemma_rfind_at(s: Seq<char>, c: char, i: int)
    requires
        0 <= i < s.len(),
        s[i] == c,
        forall|j: int| i < j < s.len() ==> s[j] != c,
    ensures
        rfind_spec(s, c) == i,
    decreases s.len(),
{
    if s.last() != c {
        lemma_rfind_at(s.drop_last(), c, i);
    }
}

/// A text without `c` has no last `c`.
pub proof fn lemma_rfind_absent(s: Seq<char>, c: char)
    requires
        forall|j: int| 0 <= j < s.len() ==> s[j] != c,
    ensures
        rfind_spec(s, c) == -1,
    decreases s.len(),
{
    if s.len() > 0 {
        lemma_rfind_absent(s.drop_last(), c);
    }
}

/// The last `c` of a concatenation lies in its second part if that holds
/// one, and otherwise in its first.
pub proof fn lemma_rfind_concat(a: Seq<char>, b: Seq<char>, c: char)
    ensures
        rfind_spec(a + b, c) == if rfind_spec(b, c) >= 0 {
            a.len() + rfind_spec(b, c)
        } else {
            rfind_spec(a, c)
        },
{
    lemma_rfind(a, c);
    lemma_rfind(b, c);
    let s = a + b;
    if rfind_spec(b, c) >= 0 {
        let i = a.len() + rfind_spec(b, c);
        assert forall|j: int| i < j < s.len() implies s[j] != c by {
            assert(s[j] == b[j - a.len()]);
        }
        lemma_rfind_at(s, c, i);
    } else if rfind_spec(a, c) >= 0 {
        let i = rfind_spec(a, c);
        assert forall|j: int| i < j < s.len() implies s[j] != c by {
            if j >= a.len() {
                assert(s[j] == b[j - a.len()]);
            }
        }
        lemma_rfind_at(s, c, i);
    } else {
        assert forall|j: int| 0 <= j < s.len() implies s[j] != c by {
            if j >= a.len() {
                assert(s[j] == b[j - a.len()]);
            }
        }
        lemma_rfind_absent(s, c);
    }
}

/// A text without backslashes is left as it is by separator normalization.
pub proof fn lemma_normalized_unchanged(s: Seq<char>)
    requires
        !s.contains('\\'),
    ensures
        slashes_normalized(s) == s,
{
    assert forall|i: int| 0 <= i < s.len() implies slashes_normalized(s)[i] == s[i] by {
        if s[i] == '\\' {
            assert(s.contains('\\'));
        }
    }
    assert(slashes_normalized(s) =~= s);
}

/// Position of the last `c` among the first `end` characters of `s`.
pub fn rfind_char(s: &str, c: char, end: usize) -> (r: Option<usize>)
    requires
        end <= s@.len(),
    ensures
        match r {
            Some(i) => rfind_spec(s@.take(end as int), c) == i as int,
            None => rfind_spec(s@.take(end as int), c) == -1,
        },
{
    let mut i: usize = end;
    while i > 0
        invariant
            i <= end <= s@.len(),
            rfind_spec(s@.take(end as int), c) == rfind_spec(s@.take(i as int), c),
        decreases i,
    {
        if s.get_char(i - 1) == c {
            return Some(i - 1);
        }
        assert(s@.take(i as int).drop_last() =~= s@.take(i - 1));
        i = i - 1;
    }
    None
}

/// Whether `s` holds the character `c`.
pub fn contains_char(s: &str, c: char) -> (r: bool)
    ensures
        r == s@.contains(c),
{
    let n = s.unicode_len();
    let found = rfind_char(s, c, n);
    proof {
        assert(s@.take(n as int) =~= s@);
        lemma_rfind(s@, c);
    }
    found.is_some()
}

/// Whether two texts hold the same characters.
pub fn text_eq(a: &str, b: &str) -> (r: bool)
    ensures
        r == (a@ == b@),
{
    let n = a.unicode_len();
    if n != b.unicode_len() {
        return false;
    }
    let mut i: usize = 0;
    while i < n
        invariant
            n == a@.len() == b@.len(),
            i <= n,
            forall|j: int| 0 <= j < i ==> a@[j] == b@[j],
        decreases n - i,
    {
        if a.get_char(i) != b.get_char(i) {
            return false;
        }
        i = i + 1;
    }
    assert(a@ =~= b@);
    true
}

/// Whether `s` begins with `p`.
pub fn has_prefix(s: &str, p: &str) -> (r: bool)
    ensures
        r == (p@.len() <= s@.len() && s@.take(p@.len() as int) == p@),
{
    let n = p.unicode_len();
    if n > s.unicode_len() {
        return false;
    }
    let mut i: usize = 0;
    while i < n
        invariant
            n == p@.len() <= s@.len(),
            i <= n,
            forall|j: int| 0 <= j < i ==> s@[j] == p@[j],
        decreases n - i,
    {
        if s.get_char(i) != p.get_char(i) {
            assert(s@.take(n as int)[i as int] != p@[i as int]);
            return false;
        }
        i = i + 1;
    }
    assert(s@.take(n as int) =~= p@);
    true
}

/// An owned copy of `s`.
pub fn owned(s: &str) -> (r: String)
    ensures
        r@ == s@,
{
    String::from_str(s)
}

/// `s` with every backslash replaced by a forward slash.
pub fn normalize_separators(s: &str) -> (r: String)
    ensures
        r@ == slashes_normalized(s@),
{
    let n = s.unicode_len();
    let mut out = String::new();
    let mut i: usize = 0;
    proof {
        reveal_strlit("/");
    }
    while i < n
        invariant
            n == s@.len(),
            i <= n,
            out@ == slashes_normalized(s@.take(i as int)),
            "/"@ == single('/'),
        decreases n - i,
    {
        let c = s.get_char(i);
        let piece = if c == '\\' {
            "/"
        } else {
            s.substring_char(i, i + 1)
        };
        out.append(piece);
        assert(slashes_normalized(s@.take(i + 1)) =~= slashes_normalized(s@.take(i as int)) + piece@);
        i = i + 1;
    }
    assert(s@.take(n as int) =~= s@);
    out
}

/// Names what `str::to_lowercase` makes of a text.
pub uninterp spec fn lowercase_of(s: Seq<char>) -> Seq<char>;

/// Relies on `str::to_lowercase`: Unicode lower-case mapping, a function of
/// the characters alone.
#[verifier::external_body]
pub(crate) fn to_lowercase(s: &str) -> (r: String)
    ensures
        r@ == lowercase_of(s@),
{
    s.to_lowercase()
}

} // verus!
