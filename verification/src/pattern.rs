//! Regular-expression matching, done by the `regex` crate.
use vstd::prelude::*;

verus! {

#[verifier::external_type_specification]
#[verifier::external_body]
pub struct ExRegex(regex::Regex);

#[verifier::external_type_specification]
#[verifier::external_body]
pub struct ExRegexError(regex::Error);

/// Whether `regex::Regex::new` accepts `pattern`.
pub uninterp spec fn regex_compiles(pattern: Seq<char>) -> bool;

/// The capture groups of the leftmost-first match of `pattern` in `text`, as
/// `Regex::captures` reports them (group 0 is the whole match; a group that did not
/// take part in the match is `None`); `None` when there is no match.
pub uninterp spec fn regex_captures(pattern: Seq<char>, text: Seq<char>) -> Option<Seq<Option<Seq<char>>>>;

/// A compiled regular expression together with its source text.
pub struct Pattern {
    source: String,
    re: regex::Regex,
}

impl Pattern {
    /// The source text the expression was compiled from.
    pub closed spec fn source(&self) -> Seq<char> {
        self.source@
    }
}

/// The views of captured groups.
pub open spec fn groups_view(g: Seq<Option<String>>) -> Seq<Option<Seq<char>>> {
    g.map_values(|o: Option<String>| match o {
        Some(s) => Some(s@),
        None => None,
    })
}

/// The view of an optional list of captured groups.
pub open spec fn captures_view(c: Option<Vec<Option<String>>>) -> Option<Seq<Option<Seq<char>>>> {
    match c {
        Some(g) => Some(groups_view(g@)),
        None => None,
    }
}

/// `regex::Regex::new`: succeeds exactly when the pattern is accepted, and then keeps the
/// pattern's text beside the compiled expression.
#[verifier::external_body]
pub(crate) fn compile(pattern: &str) -> (res: Result<Pattern, regex::Error>)
    ensures
        res is Ok == regex_compiles(pattern@),
        res matches Ok(p) ==> p.source() == pattern@,
{
    match regex::Regex::new(pattern) {
        Ok(re) => Ok(Pattern { source: pattern.to_string(), re }),
        Err(e) => Err(e),
    }
}

/// `Regex::captures`, each group converted to an owned string; the documentation
/// guarantees that group 0 takes part in every match.
#[verifier::external_body]
pub(crate) fn captures(p: &Pattern, text: &str) -> (res: Option<Vec<Option<String>>>)
    ensures
        captures_view(res) == regex_captures(p.source(), text@),
        res matches Some(g) ==> g@.len() >= 1 && g@[0] is Some,
{
    p.re.captures(text).map(|c| c.iter().map(|m| m.map(|m| m.as_str().to_string())).collect())
}

/// The text of a `regex::Error` (its `Display`); nothing is stated of it.
#[verifier::external_body]
pub(crate) fn regex_error_text(e: &regex::Error) -> String {
    format!("{}", e)
}

} // verus!
