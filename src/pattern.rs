//! Regular-expression matching of ids, used to pick styles and labels.

use vstd::prelude::*;

verus! {

/// Whether the regular expression `pattern` matches somewhere in `text`;
/// `None` when `pattern` is no valid regular expression.
pub uninterp spec fn regex_match(pattern: Seq<char>, text: Seq<char>) -> Option<bool>;

/// `text` with the first match of the regular expression `pattern` replaced
/// by `replacement` (with `$name` expanded to capture groups); `None` when
/// `pattern` is invalid or nothing matches.
pub uninterp spec fn regex_replace_first(
    pattern: Seq<char>,
    text: Seq<char>,
    replacement: Seq<char>,
) -> Option<Seq<char>>;

/// Relies on `regex::Regex::new` (an error for an invalid pattern) and
/// `Regex::is_match`: the answer depends on the pattern and the text alone.
#[verifier::external_body]
pub(crate) fn pattern_matches(pattern: &str, text: &str) -> (r: Option<bool>)
    ensures
        r == regex_match(pattern@, text@),
{
    match regex::Regex::new(pattern) {
        Ok(re) => Some(re.is_match(text)),
        Err(_) => None,
    }
}

/// Relies on `regex::Regex::new` (an error for an invalid pattern) and
/// `Regex::replace`, which hands the text back borrowed exactly when nothing
/// matched: the result depends on the three strings alone.
#[verifier::external_body]
pub(crate) fn pattern_replace(pattern: &str, text: &str, replacement: &str) -> (r: Option<String>)
    ensures
        match r {
            Some(s) => regex_replace_first(pattern@, text@, replacement@) == Some(s@),
            None => regex_replace_first(pattern@, text@, replacement@) is None,
        },
{
    match regex::Regex::new(pattern) {
        Ok(re) => match re.replace(text, replacement) {
            std::borrow::Cow::Borrowed(_) => None,
            std::borrow::Cow::Owned(s) => Some(s),
        },
        Err(_) => None,
    }
}

} // verus!
