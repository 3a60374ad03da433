//! Regular expressions and glob patterns, as the `regex` and `globset` crates
//! compile and match them.
use vstd::prelude::*;

verus! {

/// A compiled regular expression of the `regex` crate.
#[verifier::external_type_specification]
#[verifier::external_body]
pub struct ExRegex(regex::Regex);

/// Why the `regex` crate refused a pattern.
#[verifier::external_type_specification]
#[verifier::external_body]
pub struct ExRegexError(regex::Error);

/// What `regex::RegexBuilder` makes of a pattern, with or without regard to
/// case.
pub uninterp spec fn regex_compiled(pattern: Seq<char>, ignore_case: bool) -> Result<
    regex::Regex,
    regex::Error,
>;

/// Whether `regex::Regex::is_match` finds a match in a text.
pub uninterp spec fn regex_matches(re: regex::Regex, text: Seq<char>) -> bool;

/// `regex::RegexBuilder::build`, with `case_insensitive` set as asked and
/// everything else at its default: the compiled pattern or the refusal is
/// determined by the pattern and the flag.
#[verifier::external_body]
pub(crate) fn compile_regex(pattern: &str, ignore_case: bool) -> (r: Result<
    regex::Regex,
    regex::Error,
>)
    ensures
        r == regex_compiled(pattern@, ignore_case),
{
    regex::RegexBuilder::new(pattern).case_insensitive(ignore_case).build()
}

/// `regex::Regex::is_match`: whether the expression matches anywhere in the
/// text is determined by the expression and the text.
#[verifier::external_body]
pub(crate) fn regex_is_match(re: &regex::Regex, text: &str) -> (r: bool)
    ensures
        r == regex_matches(*re, text@),
{
    re.is_match(text)
}

/// One glob pattern of the `globset` crate.
#[verifier::external_type_specification]
#[verifier::external_body]
pub struct ExGlob(globset::Glob);

/// A set of compiled glob patterns of the `globset` crate.
#[verifier::external_type_specification]
#[verifier::external_body]
pub struct ExGlobSet(globset::GlobSet);

/// Why the `globset` crate refused a pattern.
#[verifier::external_type_specification]
#[verifier::external_body]
pub struct ExGlobError(globset::Error);

/// What `globset::Glob::new` makes of a pattern on the target that the program
/// is built for.
pub uninterp spec fn glob_parsed(pattern: Seq<char>) -> Result<globset::Glob, globset::Error>;

/// What `globset::GlobSetBuilder` makes of one pattern.
pub uninterp spec fn globset_built(glob: globset::Glob) -> Result<
    globset::GlobSet,
    globset::Error,
>;

/// Whether `globset::GlobSet::is_match` takes a path.
pub uninterp spec fn glob_matches(set: globset::GlobSet, path: Seq<char>) -> bool;

/// The text that a refusal of the `globset` crate displays as.
pub uninterp spec fn glob_error_text(error: globset::Error) -> Seq<char>;

/// `globset::Glob::new`: the parsed pattern or the refusal is determined by the
/// pattern. Whether a backslash escapes follows the path separator of the
/// target that the program is built for: it does where a backslash is none. So
/// the result is fixed within one program, and can differ between targets.
#[verifier::external_body]
pub(crate) fn parse_glob(pattern: &str) -> (r: Result<globset::Glob, globset::Error>)
    ensures
        r == glob_parsed(pattern@),
{
    globset::Glob::new(pattern)
}

/// `globset::GlobSetBuilder::build` after one `add`: the set or the refusal is
/// determined by the pattern added.
#[verifier::external_body]
pub(crate) fn build_globset(glob: globset::Glob) -> (r: Result<globset::GlobSet, globset::Error>)
    ensures
        r == globset_built(glob),
{
    globset::GlobSetBuilder::new().add(glob).build()
}

/// `globset::GlobSet::is_match`: whether the set takes a path is determined by
/// the set and the path.
#[verifier::external_body]
pub(crate) fn glob_is_match(set: &globset::GlobSet, path: &str) -> (r: bool)
    ensures
        r == glob_matches(*set, path@),
{
    set.is_match(path)
}

/// `<globset::Error as Display>::fmt`: the text is determined by the refusal.
#[verifier::external_body]
pub(crate) fn glob_refusal(error: &globset::Error) -> (r: String)
    ensures
        r@ == glob_error_text(*error),
{
    error.to_string()
}

} // verus!
