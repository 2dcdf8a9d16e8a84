//! Shell-style patterns on file names, compiled and matched by `globset`.

use vstd::prelude::*;

verus! {

/// `globset::Glob`, carried as it is.
#[verifier::external_type_specification]
#[verifier::external_body]
pub struct ExGlob(globset::Glob);

/// `globset::GlobSet`, carried as it is.
#[verifier::external_type_specification]
#[verifier::external_body]
pub struct ExGlobSet(globset::GlobSet);

/// `globset::GlobSetBuilder`, carried as it is.
#[verifier::external_type_specification]
#[verifier::external_body]
pub struct ExGlobSetBuilder(globset::GlobSetBuilder);

/// `globset::Error`, carried as it is.
#[verifier::external_type_specification]
#[verifier::external_body]
pub struct ExGlobError(globset::Error);

/// Whether `pattern` is a pattern that `globset` accepts with its default
/// options.
pub uninterp spec fn glob_parses(pattern: Seq<char>) -> bool;

/// The text that a pattern was parsed from.
pub uninterp spec fn glob_pattern(glob: globset::Glob) -> Seq<char>;

/// The patterns that were added to a builder, in order.
pub uninterp spec fn builder_patterns(builder: globset::GlobSetBuilder) -> Seq<Seq<char>>;

/// Whether a set can be built from `patterns`, each parsed with the default
/// options.
pub uninterp spec fn globset_builds(patterns: Seq<Seq<char>>) -> bool;

/// The patterns that a set was built from, in order.
pub uninterp spec fn globset_patterns(set: globset::GlobSet) -> Seq<Seq<char>>;

/// Whether one of `patterns`, each parsed with the default options, matches
/// `path`.
pub uninterp spec fn glob_matches(patterns: Seq<Seq<char>>, path: Seq<char>) -> bool;

/// Whether a pattern was parsed with the default options.
pub uninterp spec fn glob_plain(glob: globset::Glob) -> bool;

/// Whether every pattern added to a builder was parsed with the default
/// options.
pub uninterp spec fn builder_plain(builder: globset::GlobSetBuilder) -> bool;

/// Whether a set matches as its patterns do when parsed with the default
/// options: so it is for a set built from such patterns.
pub uninterp spec fn globset_plain(set: globset::GlobSet) -> bool;

/// `globset::Glob::new`: the pattern parsed with default options, or the
/// error that the parser found.
#[verifier::external_body]
pub(crate) fn glob_new(pattern: &str) -> (glob: Result<globset::Glob, globset::Error>)
    ensures
        match glob {
            Ok(g) => glob_parses(pattern@) && glob_pattern(g) == pattern@ && glob_plain(g),
            Err(_) => !glob_parses(pattern@),
        },
{
    globset::Glob::new(pattern)
}

/// `globset::GlobSetBuilder::new`: a builder without patterns.
#[verifier::external_body]
pub(crate) fn builder_new() -> (builder: globset::GlobSetBuilder)
    ensures
        builder_patterns(builder) == Seq::<Seq<char>>::empty(),
        builder_plain(builder),
{
    globset::GlobSetBuilder::new()
}

/// `globset::GlobSetBuilder::add`: the builder holds one pattern more, at the
/// end.
#[verifier::external_body]
pub(crate) fn builder_add(builder: &mut globset::GlobSetBuilder, glob: globset::Glob)
    ensures
        builder_patterns(*final(builder)) == builder_patterns(*old(builder)).push(
            glob_pattern(glob),
        ),
        builder_plain(*final(builder)) == (builder_plain(*old(builder)) && glob_plain(glob)),
{
    builder.add(glob);
}

/// `globset::GlobSetBuilder::build`: the set of the patterns added so far, or
/// the error of compiling them. Whether patterns with other options compile,
/// their texts do not tell, so a builder that holds such is left out.
#[verifier::external_body]
pub(crate) fn builder_build(builder: &globset::GlobSetBuilder) -> (set: Result<
    globset::GlobSet,
    globset::Error,
>)
    requires
        builder_plain(*builder),
    ensures
        match set {
            Ok(s) => {
                &&& globset_builds(builder_patterns(*builder))
                &&& globset_patterns(s) == builder_patterns(*builder)
                &&& globset_plain(s)
            },
            Err(_) => !globset_builds(builder_patterns(*builder)),
        },
{
    builder.build()
}

/// `globset::GlobSet::is_match`: whether any pattern of the set matches the
/// path. What a set of patterns with other options matches, the texts of
/// its patterns do not tell, so such a set is left out. On targets whose
/// paths are not separated by `/` alone, `globset` reads a backslash in the
/// path as a separator; the result is that of the target the library is
/// built for.
#[verifier::external_body]
pub(crate) fn is_match(set: &globset::GlobSet, path: &str) -> (matched: bool)
    requires
        globset_plain(*set),
    ensures
        matched == glob_matches(globset_patterns(*set), path@),
{
    set.is_match(path)
}

} // verus!
