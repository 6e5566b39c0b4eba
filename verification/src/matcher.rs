//! The regular expression engines that the search runs on. Nothing in this
//! file is proved: each item states what an outside function does, and the
//! rest of the library is verified against these statements.

use vstd::prelude::*;
use vstd::string::*;
use grep_regex::RegexMatcher;
use grep_searcher::sinks::UTF8;
use grep_searcher::Searcher;
use regex::Regex;
use tokio_util::sync::CancellationToken;
use crate::process::{kept_groups, masked, take_group};
use crate::search::keep_line;

verus! {

/// `regex::Regex`, a compiled regular expression. Nothing is known of what
/// is inside.
#[verifier::external_type_specification]
#[verifier::external_body]
pub struct ExRegex(Regex);

/// `regex::Error`, the reason for which a pattern does not compile.
#[verifier::external_type_specification]
#[verifier::external_body]
pub struct ExRegexError(regex::Error);

/// `grep_regex::RegexMatcher`, a compiled pattern for a search over lines.
/// Nothing is known of what is inside.
#[verifier::external_type_specification]
#[verifier::external_body]
pub struct ExRegexMatcher(RegexMatcher);

/// `grep_regex::Error`, the reason for which a matcher cannot be built.
#[verifier::external_type_specification]
#[verifier::external_body]
pub struct ExMatcherError(grep_regex::Error);

/// `std::io::Error`, the reason for which a search over bytes failed.
#[verifier::external_type_specification]
#[verifier::external_body]
pub struct ExIoError(std::io::Error);

/// `tokio_util::sync::CancellationToken`, the signal that asks running work
/// to stop. Whoever holds a clone can cancel it at any time.
#[verifier::external_type_specification]
#[verifier::external_body]
pub struct ExCancellationToken(CancellationToken);

/// Whether `regex::Regex::new` accepts the pattern.
pub uninterp spec fn regex_compiles(pattern: Seq<char>) -> bool;

/// Whether the regular expression compiled from `pattern` by
/// `regex::Regex::new` has a match anywhere in `text`: what
/// `regex::Regex::is_match` returns.
pub uninterp spec fn regex_matches(pattern: Seq<char>, text: Seq<char>) -> bool;

/// What `regex::Regex::captures_iter` yields on `text` for the regular
/// expression compiled from `pattern`: for each match in turn, the text of
/// each capture group, group 0 (the whole match) first, `None` for a group
/// that took no part in the match.
pub uninterp spec fn regex_captures(pattern: Seq<char>, text: Seq<char>) -> Seq<
    Seq<Option<Seq<char>>>,
>;

/// Where `regex::Regex::replace_all` cuts `text` for the regular expression
/// compiled from `pattern`: for each match that it replaces, in turn, the
/// text that stands before the match, behind the match before it, and the
/// text of the match; and the text behind the last match, which is all of
/// `text` where there is no match.
pub uninterp spec fn regex_replaced(pattern: Seq<char>, text: Seq<char>) -> (
    Seq<(Seq<char>, Seq<char>)>,
    Seq<char>,
);

/// Whether `grep_regex::RegexMatcher::new` accepts the pattern.
pub uninterp spec fn matcher_compiles(pattern: Seq<char>) -> bool;

/// What a search of `content` with a default `grep_searcher::Searcher` and
/// the matcher compiled from `pattern` hands to a `UTF8` sink: for each
/// matching line in turn, its number and its text. `None` where the search
/// fails, which it does when a matching line is not UTF-8.
pub uninterp spec fn matching_lines(pattern: Seq<char>, content: Seq<u8>) -> Option<
    Seq<(u64, Seq<char>)>,
>;

/// A compiled regular expression together with the pattern that it was
/// compiled from. Values are made by [`compile_regex`] only.
pub struct LineRegex {
    pattern: String,
    regex: Regex,
}

impl LineRegex {
    /// The pattern that the regular expression was compiled from.
    pub closed spec fn pattern(&self) -> Seq<char> {
        self.pattern@
    }
}

/// A compiled line matcher together with the pattern that it was compiled
/// from. Values are made by [`compile_matcher`] only.
pub struct LineMatcher {
    pattern: String,
    matcher: RegexMatcher,
}

impl LineMatcher {
    /// The pattern that the matcher was compiled from.
    pub closed spec fn pattern(&self) -> Seq<char> {
        self.pattern@
    }
}

/// Calls `regex::Regex::new`. The call succeeds exactly on the patterns that
/// [`regex_compiles`] names, and the value returned remembers its pattern.
#[verifier::external_body]
pub(crate) fn compile_regex(pattern: &str) -> (r: Result<LineRegex, regex::Error>)
    ensures
        r is Ok == regex_compiles(pattern@),
        r matches Ok(re) ==> re.pattern() == pattern@,
{
    Regex::new(pattern).map(|regex| LineRegex { pattern: pattern.to_owned(), regex })
}

/// Calls `regex::Regex::is_match`: whether the regular expression has a
/// match anywhere in `text`.
#[verifier::external_body]
pub(crate) fn regex_is_match(re: &LineRegex, text: &str) -> (b: bool)
    ensures
        b == regex_matches(re.pattern(), text@),
{
    re.regex.is_match(text)
}

/// Calls `regex::Regex::captures_iter` and `regex::Captures::iter`: for each
/// match in `text`, in order, the text of every capture group, `None` for a
/// group that took no part in the match.
#[verifier::external_body]
pub(crate) fn regex_capture_groups(re: &LineRegex, text: &str) -> (r: Vec<Vec<Option<String>>>)
    ensures
        r.deep_view() == regex_captures(re.pattern(), text@),
{
    re.regex.captures_iter(text).map(
        |caps| caps.iter().map(|group| group.map(|m| m.as_str().to_owned())).collect(),
    ).collect()
}

/// Calls `regex::Regex::replace_all` with a replacement that hands the whole
/// of each match to [`take_group`]: `replace_all` copies what stands before
/// a match, appends what the replacement returns for it, goes on behind the
/// match, and appends what is left behind the last one. So the text
/// returned holds a placeholder in the place of each match, and the groups
/// returned are the matches as `take_group` keeps them, in order.
#[verifier::external_body]
pub(crate) fn replace_groups(re: &LineRegex, text: &str) -> (r: (String, Vec<String>))
    ensures
        r.0@ == masked(regex_replaced(re.pattern(), text@).0, regex_replaced(re.pattern(), text@).1),
        r.1.deep_view() == kept_groups(regex_replaced(re.pattern(), text@).0),
{
    let mut groups: Vec<String> = Vec::new();
    let replaced = re.regex.replace_all(
        text,
        |caps: &regex::Captures| take_group(&mut groups, &caps[0]),
    ).into_owned();
    (replaced, groups)
}

/// Calls `grep_regex::RegexMatcher::new`. The call succeeds exactly on the
/// patterns that [`matcher_compiles`] names, and the value returned
/// remembers its pattern.
#[verifier::external_body]
pub(crate) fn compile_matcher(pattern: &str) -> (r: Result<LineMatcher, grep_regex::Error>)
    ensures
        r is Ok == matcher_compiles(pattern@),
        r matches Ok(m) ==> m.pattern() == pattern@,
{
    RegexMatcher::new(pattern).map(|matcher| LineMatcher { pattern: pattern.to_owned(), matcher })
}

/// Calls `grep_searcher::Searcher::search_slice` on a default searcher with
/// a `grep_searcher::sinks::UTF8` sink that keeps every line it is handed
/// and lets the search go on: the number and the text of each matching
/// line, in the order in which the searcher reports them, or the error that
/// stopped the search.
#[verifier::external_body]
pub(crate) fn search_lines(matcher: &LineMatcher, content: &[u8]) -> (r: Result<
    Vec<(u64, String)>,
    std::io::Error,
>)
    ensures
        match r {
            Ok(lines) => matching_lines(matcher.pattern(), content@) == Some(lines.deep_view()),
            Err(_) => matching_lines(matcher.pattern(), content@) is None,
        },
{
    let mut lines: Vec<(u64, String)> = Vec::new();
    Searcher::new().search_slice(
        &matcher.matcher,
        content,
        UTF8(|number, line| Ok(keep_line(&mut lines, number, line))),
    ).map(|_| lines)
}

/// `CancellationToken::is_cancelled` says whether the token has been
/// cancelled by now; nothing is known of the answer beforehand.
pub assume_specification[ CancellationToken::is_cancelled ](token: &CancellationToken) -> (b: bool)
;

/// `CancellationToken::cancel` cancels the token for everyone who holds a
/// clone of it; the session keeps no record of it.
pub assume_specification[ CancellationToken::cancel ](token: &CancellationToken)
;

} // verus!
