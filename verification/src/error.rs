//! The error taxonomy of the ingestion core.

use vstd::prelude::*;
use vstd::string::StringExecFns;

verus! {

/// Everything that can go wrong while processing one file.
#[derive(Debug)]
pub enum IngestionError {
    /// An invalid stored rule pattern, or an unreachable rule source.
    Config(String),
    /// The raw byte fetch failed.
    S3(String),
    /// A decoder failed, or the declared type is unsupported.
    Parse(String),
    /// A store read or write failed, including audit-log updates.
    Database(String),
    /// No rule pattern matched the file key.
    NoMatchingRule(String),
}

/// The mathematical shape of an error: its class and its detail text.
pub enum ErrorView {
    Config(Seq<char>),
    S3(Seq<char>),
    Parse(Seq<char>),
    Database(Seq<char>),
    NoMatchingRule(Seq<char>),
}

impl View for IngestionError {
    type V = ErrorView;

    open spec fn view(&self) -> ErrorView {
        match self {
            IngestionError::Config(m) => ErrorView::Config(m@),
            IngestionError::S3(m) => ErrorView::S3(m@),
            IngestionError::Parse(m) => ErrorView::Parse(m@),
            IngestionError::Database(m) => ErrorView::Database(m@),
            IngestionError::NoMatchingRule(m) => ErrorView::NoMatchingRule(m@),
        }
    }
}

/// The one-line description of an error: a fixed prefix naming the class,
/// then the carried detail.
pub open spec fn error_message(e: IngestionError) -> Seq<char> {
    match e {
        IngestionError::Config(m) => "Configuration error: "@ + m@,
        IngestionError::S3(m) => "S3 error: "@ + m@,
        IngestionError::Parse(m) => "Parsing error: "@ + m@,
        IngestionError::Database(m) => "Database error: "@ + m@,
        IngestionError::NoMatchingRule(m) => "No matching configuration rule found for key: "@
            + m@,
    }
}

impl IngestionError {
    /// Renders the error as its one-line description.
    pub fn message(&self) -> (s: String)
        ensures
            s@ == error_message(*self),
    {
        match self {
            IngestionError::Config(m) => "Configuration error: ".to_owned().concat(m.as_str()),
            IngestionError::S3(m) => "S3 error: ".to_owned().concat(m.as_str()),
            IngestionError::Parse(m) => "Parsing error: ".to_owned().concat(m.as_str()),
            IngestionError::Database(m) => "Database error: ".to_owned().concat(m.as_str()),
            IngestionError::NoMatchingRule(m) => "No matching configuration rule found for key: "
                .to_owned()
                .concat(m.as_str()),
        }
    }
}

/// An error's description is never empty: the class prefix alone is not.
pub proof fn lemma_error_message_nonempty(e: IngestionError)
    ensures
        error_message(e).len() > 0,
{
    reveal_strlit("Configuration error: ");
    reveal_strlit("S3 error: ");
    reveal_strlit("Parsing error: ");
    reveal_strlit("Database error: ");
    reveal_strlit("No matching configuration rule found for key: ");
}

} // verus!
