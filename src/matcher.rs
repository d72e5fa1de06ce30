//! The regular-expression engine, as the substitution command uses it.
use vstd::prelude::*;
use vstd::string::StringSliceAdditionalSpecFns;
use crate::flags::Flags;
use crate::substitute::{captures_view, matches_fit, Captures};

verus! {

#[verifier::external_type_specification]
#[verifier::external_body]
pub struct ExRegex(regex::Regex);

#[verifier::external_type_specification]
#[verifier::external_body]
pub struct ExRegexError(regex::Error);

/// Whether the engine accepts `pattern` under the options of `flags`.
pub uninterp spec fn compiles(pattern: Seq<char>, flags: Flags) -> bool;

/// The pattern and the flags that a regex was compiled from.
pub uninterp spec fn regex_source(re: regex::Regex) -> (Seq<char>, Flags);

/// The matches that the engine finds in `text` for `pattern` compiled under
/// `flags`: for each, the byte offsets of its groups.
pub uninterp spec fn captures_of(pattern: Seq<char>, flags: Flags, text: Seq<char>) -> Seq<
    Seq<Option<(usize, usize)>>,
>;

/// Relies on `regex::RegexBuilder::build`: compiles `pattern` with the options
/// that `flags` selects (the others keep the engine's defaults). Whether it
/// succeeds depends on the pattern and the options alone.
#[verifier::external_body]
pub(crate) fn compile(pattern: &str, flags: &Flags) -> (r: Result<regex::Regex, regex::Error>)
    ensures
        r is Ok <==> compiles(pattern@, *flags),
        r matches Ok(re) ==> regex_source(re) == (pattern@, *flags),
{
    regex::RegexBuilder::new(pattern)
        .case_insensitive(flags.case_insensitive)
        .multi_line(flags.multi_line)
        .dot_matches_new_line(flags.dot_matches_new_line)
        .swap_greed(flags.swap_greed)
        .ignore_whitespace(flags.ignore_whitespace)
        .octal(flags.octal)
        .build()
}

/// Relies on `regex::Regex::captures_iter`, read through `Captures::iter` and
/// `Match::start`/`Match::end`: the successive non-overlapping matches from
/// left to right, each with the byte offsets of its groups; group 0 (the whole
/// match) is always present, and every offset lies on a character boundary
/// with `start <= end`. They depend on the regex's pattern and options and on
/// the text alone.
#[verifier::external_body]
pub(crate) fn find_captures(re: &regex::Regex, text: &str) -> (r: Vec<Captures>)
    ensures
        captures_view(r@) == captures_of(regex_source(*re).0, regex_source(*re).1, text@),
        matches_fit(text.spec_bytes(), captures_view(r@)),
{
    re.captures_iter(text).map(|caps| caps.iter().map(|g| g.map(|m| (m.start(), m.end()))).collect())
        .collect()
}

/// The text that `{:?}` gives for a character.
pub uninterp spec fn char_debug_text(c: char) -> Seq<char>;

/// Relies on `<char as Debug>::fmt`: the quoted, escaped character.
#[verifier::external_body]
pub(crate) fn char_debug(c: char) -> (r: String)
    ensures
        r@ == char_debug_text(c),
{
    format!("{:?}", c)
}

} // verus!
