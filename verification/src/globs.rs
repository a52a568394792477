//! Compiling exclude patterns with the `globset` crate.

use vstd::prelude::*;

verus! {

#[verifier::external_type_specification]
#[verifier::external_body]
pub struct ExGlobSet(globset::GlobSet);

#[verifier::external_type_specification]
#[verifier::external_body]
pub struct ExGlobSetBuilder(globset::GlobSetBuilder);

#[verifier::external_type_specification]
#[verifier::external_body]
pub struct ExGlobError(globset::Error);

/// The patterns a glob set was built from, in the order they were added.
pub uninterp spec fn glob_set_patterns(set: globset::GlobSet) -> Seq<Seq<char>>;

/// The patterns added to a glob set builder so far, in order.
pub uninterp spec fn glob_builder_patterns(builder: globset::GlobSetBuilder) -> Seq<Seq<char>>;

/// Whether `globset` accepts a pattern, compiled with `*` not matching `/`.
pub uninterp spec fn glob_pattern_valid(pattern: Seq<char>) -> bool;

/// Calls `GlobSetBuilder::new`, which starts with no patterns.
#[verifier::external_body]
pub fn new_glob_set_builder() -> (b: globset::GlobSetBuilder)
    ensures
        glob_builder_patterns(b) == Seq::<Seq<char>>::empty(),
{
    globset::GlobSetBuilder::new()
}

/// Compiles `pattern` with `GlobBuilder::new(pattern).literal_separator(true).build()`
/// and, when that succeeds, adds it with `GlobSetBuilder::add`. Whether
/// compiling succeeds is a function of the pattern alone, named
/// `glob_pattern_valid`; on failure the builder is left as it was.
#[verifier::external_body]
pub fn add_glob(builder: &mut globset::GlobSetBuilder, pattern: &str) -> (r: Result<(), globset::Error>)
    ensures
        r is Ok <==> glob_pattern_valid(pattern@),
        r is Ok ==> glob_builder_patterns(*final(builder)) == glob_builder_patterns(*old(builder)).push(pattern@),
        r is Err ==> glob_builder_patterns(*final(builder)) == glob_builder_patterns(*old(builder)),
{
    let glob = globset::GlobBuilder::new(pattern).literal_separator(true).build()?;
    builder.add(glob);
    Ok(())
}

/// Calls `GlobSet::empty`, a set with no patterns.
#[verifier::external_body]
pub fn empty_glob_set() -> (set: globset::GlobSet)
    ensures
        glob_set_patterns(set) == Seq::<Seq<char>>::empty(),
{
    globset::GlobSet::empty()
}

/// Whether a glob set can be built from `patterns` (each compiled with
/// `*` not matching `/`): building compiles them into matchers, which
/// can fail, for instance when a matcher grows too large.
pub uninterp spec fn glob_set_builds(patterns: Seq<Seq<char>>) -> bool;

/// Calls `GlobSetBuilder::build`. Whether it succeeds is a function of
/// the builder's patterns alone, named `glob_set_builds`; a builder with
/// no patterns always builds. A set it returns holds the builder's
/// patterns.
#[verifier::external_body]
pub fn build_glob_set(builder: &globset::GlobSetBuilder) -> (r: Result<globset::GlobSet, globset::Error>)
    ensures
        r is Ok <==> glob_set_builds(glob_builder_patterns(*builder)),
        glob_builder_patterns(*builder).len() == 0 ==> r is Ok,
        r matches Ok(set) ==> glob_set_patterns(set) == glob_builder_patterns(*builder),
{
    builder.build()
}

/// Whether a glob set made from `patterns` (each compiled with `*` not
/// matching `/`) matches `path`.
pub uninterp spec fn glob_set_matches(patterns: Seq<Seq<char>>, path: Seq<char>) -> bool;

/// Whether one glob, compiled with `*` not matching `/`, matches `path`.
pub uninterp spec fn glob_matches(pattern: Seq<char>, path: Seq<char>) -> bool;

/// Calls `GlobSet::is_match_candidate` on `Candidate::new(path)`. The
/// result is a function of the set's patterns and the path, named
/// `glob_set_matches`: the set matches when one of its globs matches the
/// path, so a set with no patterns matches nothing. Which paths a single
/// pattern matches is left to `globset`, named `glob_matches`.
#[verifier::external_body]
pub fn set_matches(set: &globset::GlobSet, path: &str) -> (r: bool)
    ensures
        r == glob_set_matches(glob_set_patterns(*set), path@),
        r == (exists|i: int| 0 <= i < glob_set_patterns(*set).len() && #[trigger] glob_matches(glob_set_patterns(*set)[i], path@)),
        glob_set_patterns(*set).len() == 0 ==> !r,
{
    set.is_match_candidate(&globset::Candidate::new(path))
}

} // verus!
