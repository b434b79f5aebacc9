use vstd::prelude::*;

verus! {

#[verifier::external_type_specification]
#[verifier::external_body]
pub struct ExGlobSet(globset::GlobSet);

/// Whether a pattern is well-formed glob syntax whose matcher also
/// compiles, as `globset::Glob::new` followed by
/// `globset::GlobSetBuilder::build` decide it.
pub uninterp spec fn glob_pattern_ok(pattern: Seq<char>) -> bool;

/// Whether a candidate name matches a glob pattern, as
/// `globset::GlobSet::is_match` decides it for a set holding exactly that
/// one pattern.
pub uninterp spec fn glob_match(pattern: Seq<char>, candidate: Seq<char>) -> bool;

/// A glob pattern together with its compiled matcher. A value of this type
/// only ever pairs a matcher with the exact text it was compiled from, so
/// matching against it is a function of that text and the candidate name.
pub(crate) struct GlobPattern {
    text: String,
    matcher: globset::GlobSet,
}

impl GlobPattern {
    /// The pattern text this matcher was compiled from.
    pub closed spec fn pattern(&self) -> Seq<char> {
        self.text@
    }

    /// Relies on `globset::Glob::new`, a deterministic parse of the
    /// pattern text, and on `globset::GlobSetBuilder::build`, which
    /// compiles the parsed glob and reports every failure — including a
    /// compiled pattern over the regex size limit — as an error rather
    /// than panicking. Success is a function of the pattern text alone.
    #[verifier::external_body]
    pub(crate) fn compile(text: &str) -> (r: Option<GlobPattern>)
        ensures
            (r is Some) == glob_pattern_ok(text@),
            r is Some ==> r->0.pattern() == text@,
    {
        let glob = match globset::Glob::new(text) {
            Ok(g) => g,
            Err(_) => return None,
        };
        let mut builder = globset::GlobSetBuilder::new();
        builder.add(glob);
        match builder.build() {
            Ok(set) => Some(GlobPattern { text: text.to_string(), matcher: set }),
            Err(_) => None,
        }
    }

    /// Relies on `globset::GlobSet::is_match` on a set holding exactly one
    /// glob: a pure match whose verdict is a function of the compiled
    /// pattern and the candidate alone.
    #[verifier::external_body]
    pub(crate) fn is_match(&self, name: &str) -> (r: bool)
        ensures
            r == glob_match(self.pattern(), name@),
    {
        self.matcher.is_match(name)
    }
}

} // verus!
