//! The data model: files, rules, and the audit-log entry of one attempt.

use vstd::prelude::*;
use crate::value::{value_view, JsonValue, ValueView};

verus! {

/// One rule: a key pattern, the destination it routes to, and optional
/// decode configuration handed uniformly to every decoder.
pub struct IngestionConfigRule {
    /// A regular expression matched against the whole file key.
    pub pattern: String,
    /// Where matching files' records are persisted.
    pub target_table: String,
    /// Optional decoder configuration, an opaque key-value document.
    pub parser_config: Option<JsonValue>,
}

/// The mathematical shape of a rule.
pub struct RuleView {
    pub pattern: Seq<char>,
    pub target_table: Seq<char>,
    pub parser_config: Option<ValueView>,
}

impl View for IngestionConfigRule {
    type V = RuleView;

    open spec fn view(&self) -> RuleView {
        RuleView {
            pattern: self.pattern@,
            target_table: self.target_table@,
            parser_config: match self.parser_config {
                Some(v) => Some(value_view(v)),
                None => None,
            },
        }
    }
}

/// An immutable reference to one file in object storage.
pub struct FileToProcess {
    pub bucket: String,
    pub key: String,
}

/// The terminal outcome of one processing attempt.
#[derive(Clone, Copy, PartialEq, Eq, Structural, Debug)]
pub enum IngestionStatus {
    Success,
    Failed,
}

/// The audit-log entry of one attempt. Times are milliseconds since the
/// Unix epoch; `end_time`, `message` and a terminal `status` are set only
/// by the one terminal update.
pub struct IngestionLog {
    /// Provenance, formatted `<bucket>/<key>`.
    pub file_name: String,
    pub start_time: i64,
    pub end_time: Option<i64>,
    pub status: IngestionStatus,
    pub message: Option<String>,
}

} // verus!
