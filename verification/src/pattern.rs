//! The regular expressions of this crate, and what the `regex` crate finds with
//! them.

use vstd::prelude::*;

verus! {

/// A count and what it counts, as in `3 passed`.
pub const SUMMARY_PATTERN: &'static str = r"(\d+)\s+(passed|failed|flaky|skipped)";

/// A duration in brackets, as in `(7.3s)`.
pub const DURATION_PATTERN: &'static str = r"\((\d+(?:\.\d+)?)(ms|s|m)\)";

/// The line of a failed test, up to the name of its file.
pub const TEST_PATTERN: &'static str = r"[×✗]\s+.*?›\s+([^›]+\.spec\.[tj]sx?)";

/// A progress bar, as in `|====   | 45%`.
pub const PROGRESS_BAR_PATTERN: &'static str = r"^\s*\|[^|]*\|\s*\d+%";

/// Byte counts at the start of a line, as in `1.2 MiB / 3.4 MiB`.
pub const BYTES_PATTERN: &'static str = r"^\s*\d+(\.\d+)?\s*[KMG]i?B\s*/";

/// A download and the bytes it has come to.
pub const DOWNLOAD_PATTERN: &'static str = r"^\s*Downloading[^\n]*\d+\s*(bytes|[KMG]?i?B)";

/// What `Regex::is_match` says of a text: whether the pattern matches somewhere
/// in it.
pub uninterp spec fn regex_is_match(pattern: Seq<char>, text: Seq<char>) -> bool;

/// What `Regex::captures` finds: the groups of the first match, the whole match
/// as the first of them, each with the text that it matched.
pub uninterp spec fn regex_captures(pattern: Seq<char>, text: Seq<char>) -> Option<
    Seq<Option<Seq<char>>>,
>;

/// What `Regex::captures_iter` finds: the groups of each match, from the first
/// match to the last.
pub uninterp spec fn regex_captures_iter(pattern: Seq<char>, text: Seq<char>) -> Seq<
    Seq<Option<Seq<char>>>,
>;

/// There are `n` groups, the whole match among them, and all took part.
pub open spec fn groups_present(groups: Seq<Option<String>>, n: nat) -> bool {
    &&& groups.len() == n
    &&& forall|k: int| 0 <= k < n ==> (#[trigger] groups[k]) is Some
}

/// Each match has `n` groups, and all took part in it.
pub open spec fn all_groups_present(matches: Seq<Vec<Option<String>>>, n: nat) -> bool {
    forall|i: int| 0 <= i < matches.len() ==> groups_present((#[trigger] matches[i])@, n)
}

/// `Regex::is_match` of the `regex` crate, with the pattern compiled by
/// `Regex::new`. Nothing is said of it but that the pattern and the text decide
/// the answer. The patterns admitted are valid, so that they do compile.
#[verifier::external_body]
pub(crate) fn is_match(pattern: &str, text: &str) -> (r: bool)
    requires
        pattern@ == PROGRESS_BAR_PATTERN@ || pattern@ == BYTES_PATTERN@ || pattern@
            == DOWNLOAD_PATTERN@,
    ensures
        r == regex_is_match(pattern@, text@),
{
    regex::Regex::new(pattern).unwrap().is_match(text)
}

/// `Regex::captures` of the `regex` crate, with the pattern compiled by
/// `Regex::new`. The pattern and the text decide what is found. The pattern
/// admitted is valid. It has two groups of its own, and neither is optional: a
/// match has both, behind the group that is the whole match.
#[verifier::external_body]
pub(crate) fn captures(pattern: &str, text: &str) -> (r: Option<Vec<Option<String>>>)
    requires
        pattern@ == DURATION_PATTERN@,
    ensures
        r.deep_view() == regex_captures(pattern@, text@),
        r matches Some(groups) ==> groups_present(groups@, 3),
{
    regex::Regex::new(pattern).unwrap().captures(text).map(
        |c| c.iter().map(|m| m.map(|m| m.as_str().to_string())).collect(),
    )
}

/// `Regex::captures_iter` of the `regex` crate, with the pattern compiled by
/// `Regex::new`. The pattern and the text decide what is found. The patterns
/// admitted are valid. Neither has an optional group: each match has the two
/// groups of the one or the single group of the other, behind the group that is
/// the whole match.
#[verifier::external_body]
pub(crate) fn captures_iter(pattern: &str, text: &str) -> (r: Vec<Vec<Option<String>>>)
    requires
        pattern@ == SUMMARY_PATTERN@ || pattern@ == TEST_PATTERN@,
    ensures
        r.deep_view() == regex_captures_iter(pattern@, text@),
        pattern@ == SUMMARY_PATTERN@ ==> all_groups_present(r@, 3),
        pattern@ == TEST_PATTERN@ ==> all_groups_present(r@, 2),
{
    regex::Regex::new(pattern).unwrap().captures_iter(text).map(
        |c| c.iter().map(|m| m.map(|m| m.as_str().to_string())).collect(),
    ).collect()
}

} // verus!
