use vstd::prelude::*;

verus! {

#[verifier::external_type_specification]
#[verifier::external_body]
pub struct ExRegex(regex::Regex);

#[verifier::external_type_specification]
#[verifier::external_body]
pub struct ExRegexError(regex::Error);

/// Whether `regex::Regex::new` accepts the pattern.
pub uninterp spec fn pattern_compiles(pattern: Seq<char>) -> bool;

/// Whether the regex compiled from `pattern` matches somewhere in `line`.
pub uninterp spec fn pattern_matches(pattern: Seq<char>, line: Seq<char>) -> bool;

/// Relies on `regex::Regex::new`: it succeeds exactly on the patterns it
/// accepts, which depends on the pattern text alone.
#[verifier::external_body]
fn compile_regex(pattern: &str) -> (r: Result<regex::Regex, regex::Error>)
    ensures
        r.is_ok() == pattern_compiles(pattern@),
{
    regex::Regex::new(pattern)
}

/// Relies on `Display` for `regex::Error`: a readable description of why the
/// pattern was refused.
#[verifier::external_body]
fn regex_error_text(e: &regex::Error) -> (r: String) {
    e.to_string()
}

/// Why a keyword could not be used as a filter pattern.
#[derive(Debug, PartialEq, Eq)]
pub struct PatternError {
    pub pattern: String,
    pub message: String,
}

/// A compiled line filter. The regex is always the one compiled from
/// `source`: the fields are private and `new` is the only constructor.
pub struct LinePattern {
    source: String,
    re: regex::Regex,
}

impl View for LinePattern {
    type V = Seq<char>;

    /// The pattern text the filter was compiled from.
    closed spec fn view(&self) -> Seq<char> {
        self.source@
    }
}

impl LinePattern {
    /// Compiles `pattern`, failing exactly when the regex syntax refuses it.
    pub fn new(pattern: &str) -> (r: Result<LinePattern, PatternError>)
        ensures
            r.is_ok() == pattern_compiles(pattern@),
            r matches Ok(p) ==> p@ == pattern@,
            r matches Err(e) ==> e.pattern@ == pattern@,
    {
        match compile_regex(pattern) {
            Ok(re) => Ok(LinePattern { source: pattern.to_string(), re }),
            Err(e) => Err(PatternError { pattern: pattern.to_string(), message: regex_error_text(&e) }),
        }
    }

    /// The pattern text.
    pub fn as_str(&self) -> (r: &str)
        ensures
            r@ == self@,
    {
        self.source.as_str()
    }

    /// Relies on `regex::Regex::is_match`: whether the pattern matches
    /// anywhere in `line`, which depends on the pattern text and the line alone.
    #[verifier::external_body]
    pub(crate) fn is_match(&self, line: &str) -> (r: bool)
        ensures
            r == pattern_matches(self@, line@),
    {
        self.re.is_match(line)
    }
}

} // verus!
