use vstd::prelude::*;
use vstd::string::StringExecFns;
use crate::error::UpdateError;
use crate::error::UpdateErrorView;

verus! {

#[verifier::external_type_specification]
#[verifier::external_body]
pub struct ExRegex(regex::Regex);

#[verifier::external_type_specification]
#[verifier::external_body]
pub struct ExRegexError(regex::Error);

/// Whether `regex::Regex::new` accepts the pattern.  Compilation is a function
/// of the pattern text alone (the default size limit is a fixed constant).
pub uninterp spec fn regex_valid(pattern: Seq<char>) -> bool;

/// What matching `text` against a compiled `pattern` yields: `None` when the
/// text does not match; `Some(None)` when it matches but no group named
/// `version` participates; `Some(Some(v))` when the group captures `v`.  The
/// outcome is a function of the pattern and the text alone.
pub uninterp spec fn regex_capture(pattern: Seq<char>, text: Seq<char>) -> Option<Option<Seq<char>>>;

/// Whether `text` matches `pattern` at all.
pub open spec fn regex_matches(pattern: Seq<char>, text: Seq<char>) -> bool {
    regex_capture(pattern, text) is Some
}

pub open spec fn capture_view(r: Option<Option<String>>) -> Option<Option<Seq<char>>> {
    match r {
        None => None,
        Some(None) => Some(None),
        Some(Some(s)) => Some(Some(s@)),
    }
}

/// Relies on `regex::Regex::new`: it returns `Ok` exactly when the pattern
/// compiles, and what it compiles to depends on the pattern text alone.
#[verifier::external_body]
fn regex_new(pattern: &str) -> (r: Result<regex::Regex, regex::Error>)
    ensures
        r is Ok <==> regex_valid(pattern@),
{
    regex::Regex::new(pattern)
}

/// A compiled pattern, paired with its source text.
///
/// The fields are private and only `compile` builds a value, so `re` is always
/// the compilation of `source`; the contract of `capture_version` rests on
/// that.
pub struct Pattern {
    re: regex::Regex,
    source: String,
}

impl View for Pattern {
    type V = Seq<char>;

    closed spec fn view(&self) -> Seq<char> {
        self.source@
    }
}

impl Pattern {
    /// Compiles a configured pattern; an invalid one is the configuration
    /// defect `UpdateError::Pattern`, carrying the pattern text.
    pub fn compile(pattern: &str) -> (r: Result<Pattern, UpdateError>)
        ensures
            r is Ok <==> regex_valid(pattern@),
            r is Ok ==> r->Ok_0@ == pattern@,
            r is Err ==> r->Err_0@ == UpdateErrorView::Pattern(pattern@),
    {
        match regex_new(pattern) {
            Ok(re) => Ok(Pattern { re, source: String::from_str(pattern) }),
            Err(_) => Err(UpdateError::Pattern(String::from_str(pattern))),
        }
    }

    /// Relies on `regex::Regex::captures` and `regex::Captures::name`: whether
    /// the text matches, and what the group named `version` captured, depend
    /// on the pattern and the text alone.
    #[verifier::external_body]
    pub(crate) fn capture_version(&self, text: &str) -> (r: Option<Option<String>>)
        ensures
            capture_view(r) == regex_capture(self@, text@),
    {
        match self.re.captures(text) {
            Some(caps) => Some(match caps.name("version") {
                Some(m) => Some(m.as_str().to_string()),
                None => None,
            }),
            None => None,
        }
    }

    /// Whether the text matches the pattern.
    pub fn is_match(&self, text: &str) -> (r: bool)
        ensures
            r == regex_matches(self@, text@),
    {
        self.capture_version(text).is_some()
    }
}

} // verus!
