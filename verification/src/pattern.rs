//! Shell-style name patterns, matched by the `glob` crate.
use vstd::prelude::*;

verus! {

/// Whether `glob::Pattern::new` accepts `pattern`.
pub uninterp spec fn glob_pattern_valid(pattern: Seq<char>) -> bool;

/// Whether the compiled `pattern` matches `name` (`glob::Pattern::matches`).
pub uninterp spec fn glob_matches(pattern: Seq<char>, name: Seq<char>) -> bool;

/// Compiles `pattern` with `glob::Pattern::new` and, when that succeeds,
/// matches `name` against it with `glob::Pattern::matches`.
/// Trusted: the result is `None` exactly when the pattern does not compile,
/// and otherwise carries the match result; both depend on the two strings
/// alone.
#[verifier::external_body]
fn glob_match(pattern: &str, name: &str) -> (r: Option<bool>)
    ensures
        r is Some <==> glob_pattern_valid(pattern@),
        r matches Some(m) ==> m == glob_matches(pattern@, name@),
{
    match glob::Pattern::new(pattern) {
        Ok(compiled) => Some(compiled.matches(name)),
        Err(_) => None,
    }
}

/// A pattern that compiles, kept by its source text.
pub struct GlobPattern {
    source: String,
}

impl GlobPattern {
    #[verifier::type_invariant]
    spec fn compiles(self) -> bool {
        glob_pattern_valid(self.source@)
    }

    /// The pattern's source text.
    pub closed spec fn source(self) -> Seq<char> {
        self.source@
    }

    /// Compiles `pattern`; `None` when it is not a valid pattern.
    pub fn new(pattern: &str) -> (r: Option<GlobPattern>)
        ensures
            r is Some <==> glob_pattern_valid(pattern@),
            r matches Some(p) ==> p.source() == pattern@,
    {
        let source = pattern.to_owned();
        if glob_match(pattern, "").is_some() {
            Some(GlobPattern { source })
        } else {
            None
        }
    }

    /// Whether the pattern matches `name`.
    pub fn matches(&self, name: &str) -> (r: bool)
        ensures
            r == glob_matches(self.source(), name@),
    {
        proof {
            use_type_invariant(self);
        }
        match glob_match(self.source.as_str(), name) {
            Some(m) => m,
            None => false,
        }
    }
}

/// Some pattern of `patterns` matches `name`.
pub open spec fn any_matches(patterns: Seq<GlobPattern>, name: Seq<char>) -> bool {
    exists|i: int| 0 <= i < patterns.len() && glob_matches(#[trigger] patterns[i].source(), name)
}

/// Whether some pattern of `patterns` matches `name`.
pub fn any_pattern_matches(patterns: &[GlobPattern], name: &str) -> (r: bool)
    ensures
        r == any_matches(patterns@, name@),
{
    let mut i: usize = 0;
    while i < patterns.len()
        invariant
            i <= patterns@.len(),
            forall|j: int| 0 <= j < i ==> !glob_matches(#[trigger] patterns@[j].source(), name@),
        decreases patterns@.len() - i,
    {
        if patterns[i].matches(name) {
            return true;
        }
        i = i + 1;
    }
    false
}

/// Compiles every glob; `None` as soon as one of them is not a valid pattern.
pub fn patterns(globs: &Vec<String>) -> (r: Option<Vec<GlobPattern>>)
    ensures
        r is Some <==> forall|i: int| 0 <= i < globs@.len() ==> glob_pattern_valid(#[trigger] globs@[i]@),
        r matches Some(ps) ==> ps@.len() == globs@.len() && forall|i: int|
            0 <= i < globs@.len() ==> #[trigger] ps@[i].source() == globs@[i]@,
{
    let mut out: Vec<GlobPattern> = Vec::new();
    let mut i: usize = 0;
    while i < globs.len()
        invariant
            i <= globs@.len(),
            out@.len() == i,
            forall|j: int| 0 <= j < i ==> glob_pattern_valid(#[trigger] globs@[j]@),
            forall|j: int| 0 <= j < i ==> #[trigger] out@[j].source() == globs@[j]@,
        decreases globs@.len() - i,
    {
        match GlobPattern::new(globs[i].as_str()) {
            Some(p) => out.push(p),
            None => return None,
        }
        i = i + 1;
    }
    Some(out)
}

} // verus!
