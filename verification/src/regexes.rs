//! Regular-expression searches, done by the `regex` crate.
//!
//! A pattern is given as its source text with the two flags that the
//! markdown passes set; what the crate computes from them is named here and
//! not restated.
use vstd::prelude::*;

verus! {

/// Whether `regex::RegexBuilder` builds a regex from `pattern` with the given
/// `multi_line` and `dot_matches_new_line` flags (and its default limits).
pub uninterp spec fn regex_compiles(pattern: Seq<char>, multi_line: bool, dot_matches_new_line: bool) -> bool;

/// What `Regex::replace_all` returns for the regex built from `pattern` and the
/// flags, on `haystack`, with the replacement template `replacement`
/// (`$1`, `$name` and the like expand to capture groups).
pub uninterp spec fn regex_replace_all_result(
    pattern: Seq<char>,
    multi_line: bool,
    dot_matches_new_line: bool,
    haystack: Seq<char>,
    replacement: Seq<char>,
) -> Seq<char>;

/// What `Regex::captures_iter` yields for the regex built from `pattern` and
/// the flags, on `haystack`: for each match, in order, the text of the whole
/// match and, for each name of `names`, the text of that named group if it
/// took part in the match.
pub uninterp spec fn regex_named_captures(
    pattern: Seq<char>,
    multi_line: bool,
    dot_matches_new_line: bool,
    haystack: Seq<char>,
    names: Seq<Seq<char>>,
) -> Seq<(Seq<char>, Seq<Option<Seq<char>>>)>;

/// Builds a regex with `regex::RegexBuilder` (`multi_line`,
/// `dot_matches_new_line`, `build`) and, when the pattern compiles, replaces
/// every match in `input` by the template `replace_with` with
/// `Regex::replace_all`. Claimed: the result is present exactly when the
/// pattern compiles, and is then the named result of `replace_all`.
#[verifier::external_body]
pub(crate) fn regex_replace_exp(
    input: &str,
    pattern: &str,
    multi_line: bool,
    dot_matches_new_line: bool,
    replace_with: &str,
) -> (res: Option<String>)
    ensures
        res is Some <==> regex_compiles(pattern@, multi_line, dot_matches_new_line),
        res matches Some(r) ==> r@ == regex_replace_all_result(
            pattern@,
            multi_line,
            dot_matches_new_line,
            input@,
            replace_with@,
        ),
{
    let re = regex::RegexBuilder::new(pattern).multi_line(multi_line).dot_matches_new_line(
        dot_matches_new_line,
    ).build().ok()?;
    Some(re.replace_all(input, replace_with).into_owned())
}

/// Builds a regex as `regex_replace_exp` does and, when the pattern compiles,
/// lists the matches of `Regex::captures_iter` on `haystack`: the whole match
/// (`Captures` index 0) and `Captures::name` for each of `names`. Claimed: the
/// result is present exactly when the pattern compiles, and is then the named
/// result of `captures_iter`.
#[verifier::external_body]
pub(crate) fn regex_captures(
    haystack: &str,
    pattern: &str,
    multi_line: bool,
    dot_matches_new_line: bool,
    names: &Vec<String>,
) -> (res: Option<Vec<(String, Vec<Option<String>>)>>)
    ensures
        res is Some <==> regex_compiles(pattern@, multi_line, dot_matches_new_line),
        res matches Some(c) ==> c.deep_view() == regex_named_captures(
            pattern@,
            multi_line,
            dot_matches_new_line,
            haystack@,
            names.deep_view(),
        ),
{
    let re = regex::RegexBuilder::new(pattern).multi_line(multi_line).dot_matches_new_line(
        dot_matches_new_line,
    ).build().ok()?;
    Some(re.captures_iter(haystack).map(|c| (c[0].to_string(), names.iter().map(|n| c.name(n).map(|m| m.as_str().to_string())).collect())).collect())
}

} // verus!
