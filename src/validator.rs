//! File name validation against a platform policy, by a compiled set of
//! forbidden patterns.
use regex::RegexSet;
use crate::text::owned;
use vstd::prelude::*;

verus! {

#[verifier::external_type_specification]
#[verifier::external_body]
pub struct ExRegexSet(RegexSet);

/// Names the patterns that a compiled set holds, in order.
pub uninterp spec fn regex_set_patterns(set: RegexSet) -> Seq<Seq<char>>;

/// Names whether one of `patterns` matches somewhere in `haystack`.
pub uninterp spec fn some_pattern_matches(patterns: Seq<Seq<char>>, haystack: Seq<char>) -> bool;

/// Names whether the regex engine accepts every one of `patterns`.
pub uninterp spec fn patterns_compile(patterns: Seq<Seq<char>>) -> bool;

pub open spec fn texts_view(v: Seq<String>) -> Seq<Seq<char>> {
    v.map_values(|p: String| p@)
}

/// Relies on `RegexSet::new`: it succeeds exactly when the patterns are
/// accepted, and the set then keeps them in their order.
#[verifier::external_body]
fn compile_patterns(patterns: &Vec<String>) -> (r: Option<RegexSet>)
    ensures
        r is Some <==> patterns_compile(texts_view(patterns@)),
        r matches Some(set) ==> regex_set_patterns(set) == texts_view(patterns@),
{
    RegexSet::new(patterns).ok()
}

/// Relies on `RegexSet::is_match`: whether one of the set's patterns matches
/// somewhere in the haystack.
#[verifier::external_body]
fn set_is_match(set: &RegexSet, haystack: &str) -> (r: bool)
    ensures
        r == some_pattern_matches(regex_set_patterns(*set), haystack@),
{
    set.is_match(haystack)
}

/// Which file names a platform refuses.
#[derive(Clone, Copy, Debug, PartialEq, Eq, Structural)]
pub enum FileNamePolicy {
    /// Reserved device names, the characters `< > : " / \ | ? *`, and code
    /// points up to 0x31 are refused.
    Constrained,
    /// Only a slash or a NUL character is refused.
    Unconstrained,
}

pub const RESERVED_DEVICE_PATTERN: &'static str = r"(?i)^(CON|PRN|AUX|NUL|COM[1-9]|LPT[1-9])(\.\w+)*$";

pub const FORBIDDEN_CHAR_PATTERN: &'static str = r#"[<>:"/\\|?*\u0000-\u0031]"#;

pub const SEPARATOR_OR_NUL_PATTERN: &'static str = r"/|\x00";

/// The forbidden patterns of a policy.
pub open spec fn policy_patterns(policy: FileNamePolicy) -> Seq<Seq<char>> {
    match policy {
        FileNamePolicy::Constrained => seq![RESERVED_DEVICE_PATTERN@, FORBIDDEN_CHAR_PATTERN@],
        FileNamePolicy::Unconstrained => seq![SEPARATOR_OR_NUL_PATTERN@],
    }
}

/// A policy with its patterns compiled once, to be shared by every check.
pub struct FilenameValidator {
    policy: FileNamePolicy,
    forbidden: RegexSet,
}

impl FilenameValidator {
    pub closed spec fn policy_spec(&self) -> FileNamePolicy {
        self.policy
    }

    /// The compiled set holds exactly the policy's patterns.
    pub closed spec fn wf(&self) -> bool {
        regex_set_patterns(self.forbidden) == policy_patterns(self.policy)
    }

    /// Compiles the patterns of `policy`; `None` if the regex engine
    /// refuses them.
    pub fn new(policy: FileNamePolicy) -> (r: Option<Self>)
        ensures
            r is Some <==> patterns_compile(policy_patterns(policy)),
            r matches Some(v) ==> v.wf() && v.policy_spec() == policy,
    {
        let patterns = match policy {
            FileNamePolicy::Constrained => vec![
                owned(RESERVED_DEVICE_PATTERN),
                owned(FORBIDDEN_CHAR_PATTERN),
            ],
            FileNamePolicy::Unconstrained => vec![owned(SEPARATOR_OR_NUL_PATTERN)],
        };
        assert(texts_view(patterns@) =~= policy_patterns(policy));
        match compile_patterns(&patterns) {
            Some(forbidden) => Some(FilenameValidator { policy, forbidden }),
            None => None,
        }
    }

    pub fn policy(&self) -> (r: FileNamePolicy)
        ensures
            r == self.policy_spec(),
    {
        self.policy
    }

    /// Whether `name` is acceptable: none of the policy's patterns matches it.
    pub fn accept(&self, name: &str) -> (r: bool)
        requires
            self.wf(),
        ensures
            r == !some_pattern_matches(policy_patterns(self.policy_spec()), name@),
    {
        !set_is_match(&self.forbidden, name)
    }
}

} // verus!
