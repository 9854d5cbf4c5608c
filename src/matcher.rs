//! Compiled regular expressions from the `regex` crate, held together with the
//! text they were compiled from, so that contracts can speak of that text.
use vstd::prelude::*;

verus! {

#[verifier::external_type_specification]
#[verifier::external_body]
pub struct ExRegex(regex::Regex);

#[verifier::external_type_specification]
#[verifier::external_body]
pub struct ExRegexError(regex::Error);

/// Whether `regex::Regex::new` accepts `pattern`: its syntax is valid and the
/// compiled program stays under the default size limit.
pub uninterp spec fn regex_accepts(pattern: Seq<char>) -> bool;

/// The text of capture group `group` in the first match of `pattern` in
/// `haystack`, or `None` when there is no match or the group took no part in it.
pub uninterp spec fn group_capture(
    pattern: Seq<char>,
    haystack: Seq<char>,
    group: Seq<char>,
) -> Option<Seq<char>>;

/// The pieces of `haystack` between the matches of `pattern`, in order.
pub uninterp spec fn split_pieces(pattern: Seq<char>, haystack: Seq<char>) -> Seq<Seq<char>>;

/// A regular expression together with the pattern text it was compiled from.
/// Only `compile` builds one, so `re` is always the compiled form of `source`.
pub struct Matcher {
    source: String,
    re: regex::Regex,
}

impl Matcher {
    /// The pattern text this matcher was compiled from.
    pub closed spec fn pattern(&self) -> Seq<char> {
        self.source@
    }
}

/// The view of an optional string.
pub open spec fn opt_view(o: Option<String>) -> Option<Seq<char>> {
    match o {
        Some(s) => Some(s@),
        None => None,
    }
}

/// Relies on `regex::Regex::new`: it returns `Ok` exactly when it accepts the pattern,
/// and the compiled value is kept beside the pattern text.
#[verifier::external_body]
pub(crate) fn compile(pattern: &str) -> (r: Result<Matcher, regex::Error>)
    ensures
        r is Ok <==> regex_accepts(pattern@),
        r matches Ok(m) ==> m.pattern() == pattern@,
{
    match regex::Regex::new(pattern) {
        Ok(re) => Ok(Matcher { source: pattern.to_string(), re }),
        Err(e) => Err(e),
    }
}

/// Relies on `regex::Regex::captures` and `regex::Captures::name`: the text of the
/// named group in the first match, copied out of the haystack.
#[verifier::external_body]
pub(crate) fn capture_group(m: &Matcher, haystack: &str, group: &str) -> (r: Option<String>)
    ensures
        opt_view(r) == group_capture(m.pattern(), haystack@, group@),
{
    m.re.captures(haystack).and_then(|caps| caps.name(group)).map(|g| g.as_str().to_string())
}

/// Relies on `regex::Regex::split`: the pieces between matches, copied out in order.
#[verifier::external_body]
pub(crate) fn split(m: &Matcher, haystack: &str) -> (r: Vec<String>)
    ensures
        r@.map_values(|s: String| s@) == split_pieces(m.pattern(), haystack@),
{
    m.re.split(haystack).map(|piece| piece.to_string()).collect()
}

} // verus!
