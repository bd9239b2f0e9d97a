use vstd::prelude::*;

verus! {

/// The closed set of failures the update engine reports.
///
/// Only a failed version parse is absorbed locally (as an absent version on the
/// affected link); every kind below is surfaced to the batch runner, which stops
/// the whole run on the first one.
#[derive(Debug)]
pub enum UpdateError {
    /// The package carries updater data but names no strategy to locate links.
    MissingParseUrlStrategy,
    /// The fetch collaborator failed: network, HTTP status or HTML extraction.
    /// Carries the collaborator's message.
    Fetch(String),
    /// A configured regular expression does not compile.  Carries the pattern.
    Pattern(String),
    /// The package definition document could not be parsed.  Carries the
    /// parser's message.
    Definition(String),
}

/// Ghost image of `UpdateError`, with string payloads as character sequences.
pub enum UpdateErrorView {
    MissingParseUrlStrategy,
    Fetch(Seq<char>),
    Pattern(Seq<char>),
    Definition(Seq<char>),
}

impl View for UpdateError {
    type V = UpdateErrorView;

    open spec fn view(&self) -> UpdateErrorView {
        match self {
            UpdateError::MissingParseUrlStrategy => UpdateErrorView::MissingParseUrlStrategy,
            UpdateError::Fetch(s) => UpdateErrorView::Fetch(s@),
            UpdateError::Pattern(s) => UpdateErrorView::Pattern(s@),
            UpdateError::Definition(s) => UpdateErrorView::Definition(s@),
        }
    }
}

/// The process exit code reserved for each error: 5 marks the configuration
/// defect of a missing parse-url strategy, 1 every other failure.
pub open spec fn spec_exit_code(e: UpdateErrorView) -> int {
    if e is MissingParseUrlStrategy {
        5
    } else {
        1
    }
}

/// Maps an error to the exit code the process reports for it.
pub fn exit_code(e: &UpdateError) -> (code: i32)
    ensures
        code == spec_exit_code(e@),
{
    match e {
        UpdateError::MissingParseUrlStrategy => 5,
        UpdateError::Fetch(_) => 1,
        UpdateError::Pattern(_) => 1,
        UpdateError::Definition(_) => 1,
    }
}

} // verus!
