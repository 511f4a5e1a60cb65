//! Regular expressions, compiled and matched by the `regex` crate.
use vstd::prelude::*;

verus! {

#[verifier::external_type_specification]
#[verifier::external_body]
pub struct ExRegex(regex::Regex);

/// Whether `regex::Regex::new` accepts `pattern`: it is well formed and the
/// compiled program fits the default size limit. A function of the pattern alone.
pub uninterp spec fn regex_compiles(pattern: Seq<char>) -> bool;

/// Whether the regex compiled from `pattern` matches anywhere in `text`, as
/// `regex::Regex::is_match` answers. A function of the pattern and the text alone.
pub uninterp spec fn regex_matches(pattern: Seq<char>, text: Seq<char>) -> bool;

/// `regex::Regex::new`: succeeds exactly when the pattern compiles. On
/// failure it hands back the error's message, of which nothing is stated.
#[verifier::external_body]
fn regex_new(pattern: &str) -> (r: Result<regex::Regex, String>)
    ensures
        r is Ok <==> regex_compiles(pattern@),
{
    match regex::Regex::new(pattern) {
        Ok(re) => Ok(re),
        Err(e) => Err(e.to_string()),
    }
}

/// A regex together with the pattern it was compiled from.
pub struct CompiledRegex {
    pattern: String,
    re: regex::Regex,
}

impl CompiledRegex {
    /// The pattern this regex was compiled from.
    pub closed spec fn pattern(&self) -> Seq<char> {
        self.pattern@
    }

    /// Compiles `pattern`; the error holds the message of the `regex` crate.
    pub fn compile(pattern: &String) -> (r: Result<CompiledRegex, String>)
        ensures
            r is Ok <==> regex_compiles(pattern@),
            r matches Ok(c) ==> c.pattern() == pattern@,
    {
        match regex_new(pattern.as_str()) {
            Ok(re) => Ok(CompiledRegex { pattern: pattern.clone(), re }),
            Err(e) => Err(e),
        }
    }
}

/// `regex::Regex::is_match` on the regex that `compiled` holds. Its fields are
/// private and `CompiledRegex::compile` is the only way to build one, so the
/// regex is the one compiled from `compiled.pattern()`.
#[verifier::external_body]
pub(crate) fn is_match(compiled: &CompiledRegex, text: &str) -> (r: bool)
    ensures
        r == regex_matches(compiled.pattern(), text@),
{
    compiled.re.is_match(text)
}

} // verus!
