//! Regular-expression matching, done by the `regex` crate.
use vstd::prelude::*;

verus! {

/// What compiling `pattern` with `regex::Regex::new` and testing it against
/// `text` gives: `Ok(matched)`, or `Err(message)` with the text of the
/// compile error when the pattern is not a valid regular expression.
pub uninterp spec fn regex_outcome(pattern: Seq<char>, text: Seq<char>) -> Result<bool, Seq<char>>;

/// Compiles `pattern` with `regex::Regex::new` and, when that succeeds,
/// reports whether `Regex::is_match` finds a match anywhere in `text`; when
/// it fails, returns the error's display text. The contract only says that
/// the outcome is the one named by `regex_outcome` for these two strings:
/// it is a function of the pattern and the text alone.
#[verifier::external_body]
pub(crate) fn regex_is_match(pattern: &str, text: &str) -> (r: Result<bool, String>)
    ensures
        match r {
            Ok(b) => regex_outcome(pattern@, text@) == Ok::<bool, Seq<char>>(b),
            Err(e) => regex_outcome(pattern@, text@) == Err::<bool, Seq<char>>(e@),
        },
{
    match regex::Regex::new(pattern) {
        Ok(re) => Ok(re.is_match(text)),
        Err(e) => Err(e.to_string()),
    }
}

} // verus!
