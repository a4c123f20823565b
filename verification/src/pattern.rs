//! Compiled regular expressions, used for Unicode character classes.

use vstd::prelude::*;
use crate::text::get_range;

verus! {

#[verifier::external_type_specification]
#[verifier::external_body]
pub struct ExRegex(regex::Regex);

/// Whether `regex::Regex::new` accepts `pattern`.
pub uninterp spec fn regex_compiles(pattern: Seq<char>) -> bool;

/// The byte ranges of the successive non-overlapping matches that
/// `regex::Regex::find_iter` yields for `pattern` on `haystack`.
pub uninterp spec fn regex_matches(pattern: Seq<char>, haystack: Seq<char>) -> Seq<(usize, usize)>;

/// The text that `regex::Regex::replace_all` gives for `pattern` on
/// `haystack`, with every match replaced as `replacement` says (`$0`
/// standing for the whole match).
pub uninterp spec fn regex_replaced(pattern: Seq<char>, haystack: Seq<char>, replacement: Seq<char>) -> Seq<char>;

/// The byte ranges of the groups of the first match that
/// `regex::Regex::captures` finds for `pattern` in `haystack` (group 0 being
/// the whole match, and `None` for a group that took no part), or `None`
/// when nothing matches.
pub uninterp spec fn regex_captures(pattern: Seq<char>, haystack: Seq<char>) -> Option<Seq<Option<(usize, usize)>>>;

/// Match ranges lie inside a text of `len` bytes, each starts no later
/// than it ends, and each ends no later than the next one starts.
pub open spec fn ordered_ranges(ranges: Seq<(usize, usize)>, len: int) -> bool {
    &&& forall|k: int| 0 <= k < ranges.len() ==> #[trigger] ranges[k].0 <= ranges[k].1 <= len
    &&& forall|k: int, l: int|
        0 <= k < l < ranges.len() ==> #[trigger] ranges[k].1 <= #[trigger] ranges[l].0
}

/// A regular expression together with the pattern it was compiled from.
pub struct Pattern {
    source: String,
    compiled: regex::Regex,
}

impl Pattern {
    /// The pattern this regular expression was compiled from.
    pub closed spec fn source(&self) -> Seq<char> {
        self.source@
    }

    /// Compiles `pattern` with `regex::Regex::new`.
    ///
    /// Trusted: the result is `Some` exactly when the regex crate accepts
    /// the pattern, and then it remembers the pattern's text.
    #[verifier::external_body]
    pub(crate) fn compile(pattern: &str) -> (r: Option<Pattern>)
        ensures
            r is Some <==> regex_compiles(pattern@),
            r matches Some(p) ==> p.source() == pattern@,
    {
        regex::Regex::new(pattern).ok().map(|compiled| Pattern { source: pattern.to_string(), compiled })
    }

    /// The byte ranges of all matches, from `regex::Regex::find_iter`.
    ///
    /// Trusted: the ranges are the named result `regex_matches`, and, as the
    /// regex crate documents for `find_iter`, they are successive,
    /// non-overlapping, and inside the haystack.
    #[verifier::external_body]
    pub(crate) fn find_ranges(&self, haystack: &str) -> (r: Vec<(usize, usize)>)
        ensures
            r@ == regex_matches(self.source(), haystack@),
            ordered_ranges(r@, haystack.len() as int),
    {
        self.compiled.find_iter(haystack).map(|m| (m.start(), m.end())).collect()
    }

    /// Replaces every match in `haystack`, with `regex::Regex::replace_all`.
    ///
    /// Trusted: the text is the named result `regex_replaced`.
    #[verifier::external_body]
    pub(crate) fn replace_all(&self, haystack: &str, replacement: &str) -> (r: String)
        ensures
            r@ == regex_replaced(self.source(), haystack@, replacement@),
    {
        self.compiled.replace_all(haystack, replacement).into_owned()
    }

    /// The byte ranges of the groups of the first match, from
    /// `regex::Regex::captures`.
    ///
    /// Trusted: the ranges are the named result `regex_captures`, and, as
    /// the regex crate documents for `Match`, each starts no later than it
    /// ends and both ends fall on character boundaries of the haystack.
    #[verifier::external_body]
    pub(crate) fn captures(&self, haystack: &str) -> (r: Option<Vec<Option<(usize, usize)>>>)
        ensures
            r is Some <==> regex_captures(self.source(), haystack@) is Some,
            r matches Some(groups) ==> Some(groups@) == regex_captures(self.source(), haystack@),
            r matches Some(groups) ==> forall|k: int|
                0 <= k < groups@.len() ==> (#[trigger] groups@[k] matches Some(g) ==> get_range(
                    haystack@,
                    g.0 as int,
                    g.1 as int,
                ) is Some),
    {
        self.compiled.captures(haystack).map(|c| c.iter().map(|m| m.map(|m| (m.start(), m.end()))).collect())
    }

    /// Whether the regular expression matches anywhere in `haystack`.
    pub fn is_match(&self, haystack: &str) -> (b: bool)
        ensures
            b == (regex_matches(self.source(), haystack@).len() > 0),
    {
        let ranges = self.find_ranges(haystack);
        ranges.len() > 0
    }
}

} // verus!
