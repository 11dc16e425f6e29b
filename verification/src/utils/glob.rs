//! The compiled glob pattern capability, backed by the `globset`
//! crate.  Pattern compilation and matching are the only pieces of
//! this library's behaviour that are taken on trust: the contracts
//! below name their results and say when compilation succeeds, and
//! everything downstream is proved from those names.

use vstd::prelude::*;

verus! {

/// Whether this pattern text compiles to a matcher: `globset::Glob::new`
/// accepts its syntax and `globset::GlobSetBuilder::build` compiles its
/// regex within the crate's fixed size limit.  The outcome depends on
/// the pattern text alone, on this build target (the crate's default
/// backslash handling is target-derived).
pub uninterp spec fn glob_compiles(pattern: Seq<char>) -> bool;

/// The description pattern compilation fails with, rendered by
/// `globset::Error`'s display: a function of the pattern text alone,
/// on this build target.
pub uninterp spec fn glob_error_of(pattern: Seq<char>) -> Seq<char>;

/// What `globset::GlobSet::is_match` returns when the one-pattern set
/// compiled from `pattern` is applied to `text`: a function of the
/// pattern text and the path text alone, on this build target (the
/// crate treats `\` as a separator only on Windows).
pub uninterp spec fn glob_match(pattern: Seq<char>, text: Seq<char>) -> bool;

#[verifier::external_type_specification]
#[verifier::external_body]
pub struct ExGlobSet(globset::GlobSet);

/// A compiled glob pattern, borrowed read-only for the duration of a
/// traversal.  It remembers the pattern text it was compiled from;
/// the contracts of the traversal engine speak of that text.
pub struct Matcher {
    pattern: String,
    inner: globset::GlobSet,
}

impl Matcher {
    /// The pattern text this matcher was compiled from.
    pub closed spec fn pattern_spec(&self) -> Seq<char> {
        self.pattern@
    }

    /// Relies on `globset::Glob::new` and `globset::GlobSetBuilder::build`:
    /// parsing and regex compilation accept or reject a pattern
    /// depending on its text alone, and both report failure as a
    /// returned error, never by panicking (`build` hands the regex
    /// size-limit failure back as a value).  Either failure renders to
    /// a never-empty description.
    #[verifier::external_body]
    pub fn new(pattern: &str) -> (r: Result<Matcher, String>)
        ensures
            r is Ok <==> glob_compiles(pattern@),
            r is Ok ==> r->Ok_0.pattern_spec() == pattern@,
            r is Err ==> r->Err_0@ == glob_error_of(pattern@),
            r is Err ==> r->Err_0@.len() > 0,
    {
        let glob = match globset::Glob::new(pattern) {
            Ok(glob) => glob,
            Err(err) => return Err(err.to_string()),
        };
        let mut builder = globset::GlobSetBuilder::new();
        builder.add(glob);
        match builder.build() {
            Ok(set) => Ok(Matcher { pattern: pattern.to_string(), inner: set }),
            Err(err) => Err(err.to_string()),
        }
    }

    /// Relies on `globset::GlobSet::is_match` on a one-pattern set:
    /// whether the path text matches is a function of the compiled
    /// pattern and the path text alone, and this matcher was compiled
    /// from `self.pattern_spec()`.
    #[verifier::external_body]
    pub fn is_match(&self, text: &str) -> (r: bool)
        ensures
            r == glob_match(self.pattern_spec(), text@),
    {
        self.inner.is_match(text)
    }
}

} // verus!
