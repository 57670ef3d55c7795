//! Regular expressions, as the `regex` crate runs them: the one match of a
//! pattern in a text, and the replacement of every match.

use vstd::prelude::*;

verus! {

/// The capture groups of every match of the regular expression `pattern` in
/// `text`, in order, each group as the text it matched, or `None` where the
/// pattern does not compile.
pub uninterp spec fn regex_matches(pattern: Seq<char>, text: Seq<char>) -> Option<
    Seq<Seq<Option<Seq<char>>>>,
>;

/// Compiles `pattern` with `regex::Regex::new` and lists, for each match that
/// `Regex::captures_iter` finds in `text`, the text of each capture group
/// (group 0 being the whole match). Claimed: the result is `regex_matches` of
/// the two texts; nothing is claimed of what that is.
#[verifier::external_body]
fn regex_capture_groups(pattern: &str, text: &str) -> (r: Option<Vec<Vec<Option<String>>>>)
    ensures
        r.deep_view() == regex_matches(pattern@, text@),
{
    let re = regex::Regex::new(pattern).ok()?;
    Some(
        re.captures_iter(text).map(
            |c| c.iter().map(|m| m.map(|m| m.as_str().to_owned())).collect(),
        ).collect(),
    )
}

/// Why a pattern did not give exactly one match.
#[derive(Debug, Clone, Copy, PartialEq, Eq, Structural)]
pub enum MatchError {
    /// The pattern is no regular expression.
    BadPattern,
    /// The pattern does not occur.
    NotFound,
    /// The pattern occurs more than once.
    Multiple,
}

/// The message that describes an error.
pub open spec fn match_error_message(e: MatchError) -> Seq<char> {
    match e {
        MatchError::BadPattern => "Failed to create regex."@,
        MatchError::NotFound => "Pattern not found."@,
        MatchError::Multiple => "Pattern found more than once."@,
    }
}

impl MatchError {
    /// The message that describes the error.
    pub fn message(&self) -> (r: String)
        ensures
            r@ == match_error_message(*self),
    {
        match self {
            MatchError::BadPattern => "Failed to create regex.".to_owned(),
            MatchError::NotFound => "Pattern not found.".to_owned(),
            MatchError::Multiple => "Pattern found more than once.".to_owned(),
        }
    }
}

/// The only match of a list of matches.
pub open spec fn select_single(matches: Seq<Seq<Option<Seq<char>>>>) -> Result<
    Seq<Option<Seq<char>>>,
    MatchError,
> {
    if matches.len() == 0 {
        Err(MatchError::NotFound)
    } else if matches.len() > 1 {
        Err(MatchError::Multiple)
    } else {
        Ok(matches[0])
    }
}

/// The only match of a pattern, given what searching for it found.
pub open spec fn single_match_spec(found: Option<Seq<Seq<Option<Seq<char>>>>>) -> Result<
    Seq<Option<Seq<char>>>,
    MatchError,
> {
    match found {
        None => Err(MatchError::BadPattern),
        Some(matches) => select_single(matches),
    }
}

/// The capture groups of the only match in `matches`.
pub fn select_single_match(matches: Vec<Vec<Option<String>>>) -> (r: Result<
    Vec<Option<String>>,
    MatchError,
>)
    ensures
        match r {
            Ok(groups) => select_single(matches.deep_view()) == Ok::<
                Seq<Option<Seq<char>>>,
                MatchError,
            >(groups.deep_view()),
            Err(e) => select_single(matches.deep_view()) == Err::<
                Seq<Option<Seq<char>>>,
                MatchError,
            >(e),
        },
{
    let n = matches.len();
    if n == 0 {
        return Err(MatchError::NotFound);
    }
    if n > 1 {
        return Err(MatchError::Multiple);
    }
    let ghost before = matches;
    let mut matches = matches;
    let groups = matches.pop().unwrap();
    assert(before.deep_view()[0] == before@[0].deep_view());
    Ok(groups)
}

/// The capture groups of the only match of `pattern` in `text`.
pub fn single_match(pattern: &str, text: &str) -> (r: Result<Vec<Option<String>>, MatchError>)
    ensures
        match r {
            Ok(groups) => single_match_spec(regex_matches(pattern@, text@)) == Ok::<
                Seq<Option<Seq<char>>>,
                MatchError,
            >(groups.deep_view()),
            Err(e) => single_match_spec(regex_matches(pattern@, text@)) == Err::<
                Seq<Option<Seq<char>>>,
                MatchError,
            >(e),
        },
{
    match regex_capture_groups(pattern, text) {
        None => Err(MatchError::BadPattern),
        Some(matches) => select_single_match(matches),
    }
}

/// The text `text` with every match of the regular expression `pattern`
/// replaced by `replacement`, in which `$1` stands for the first capture
/// group; `None` where the pattern does not compile.
pub uninterp spec fn regex_replaced(pattern: Seq<char>, text: Seq<char>, replacement: Seq<char>) -> Option<
    Seq<char>,
>;

/// Compiles `pattern` with `regex::Regex::new` and replaces every match in
/// `text` by `replacement` with `Regex::replace_all`. Claimed: the result is
/// `regex_replaced` of the three texts; nothing is claimed of what that is.
#[verifier::external_body]
pub(crate) fn regex_replace_all(pattern: &str, text: &str, replacement: &str) -> (r: Option<String>)
    ensures
        r.deep_view() == regex_replaced(pattern@, text@, replacement@),
{
    let re = regex::Regex::new(pattern).ok()?;
    Some(re.replace_all(text, replacement).into_owned())
}

} // verus!
