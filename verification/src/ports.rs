//! The capability ports the orchestrator drives: fetching raw bytes,
//! parsing, the rule source, the record store, the audit log, and a clock.
//!
//! The rule source, the fetch transport and the two stores carry a ghost
//! history of the calls they have received and how each was answered; the
//! orchestrator's contract is stated over those histories, so what it
//! promises about the flow and the audit trail holds for any
//! implementation that models its backend faithfully.

use vstd::prelude::*;
use crate::error::{ErrorView, IngestionError};
use crate::models::{IngestionConfigRule, IngestionLog, IngestionStatus, RuleView};
use crate::parser_adapter::{parse_outcome, unknown_tag};
use crate::csv_parser::opt_config_view;
use crate::value::{arr_view, JsonValue, ValueView};

verus! {

/// The view of an audit-log entry.
pub struct LogEntryView {
    pub file_name: Seq<char>,
    pub start_time: int,
    pub end_time: Option<int>,
    pub status: IngestionStatus,
    pub message: Option<Seq<char>>,
}

/// The view of an optional owned string.
pub open spec fn opt_string_view(m: Option<String>) -> Option<Seq<char>> {
    match m {
        Some(s) => Some(s@),
        None => None,
    }
}

impl View for IngestionLog {
    type V = LogEntryView;

    open spec fn view(&self) -> LogEntryView {
        LogEntryView {
            file_name: self.file_name@,
            start_time: self.start_time as int,
            end_time: match self.end_time {
                Some(t) => Some(t as int),
                None => None,
            },
            status: self.status,
            message: opt_string_view(self.message),
        }
    }
}

/// One call received by an audit-log store: an entry whose creation was
/// requested, with the store's answer (the assigned id, or the failure),
/// or one terminal update requested for an id.
pub enum LogOp {
    Created { entry: LogEntryView, result: Result<Seq<char>, ErrorView> },
    Updated { id: Seq<char>, end_time: int, status: IngestionStatus, message: Option<Seq<char>> },
}

/// One call received by a record store: a batch persisted to a
/// destination, every record associated with the attempt id, with the
/// store's answer (the assigned record ids, or the failure).
pub enum StoreOp {
    Inserted {
        table: Seq<char>,
        docs: Seq<ValueView>,
        log_id: Seq<char>,
        result: Result<Seq<Seq<char>>, ErrorView>,
    },
}

/// One call received by a rule source: a lookup for a key, with the
/// source's answer.
pub enum RuleOp {
    Queried { key: Seq<char>, result: Result<Option<RuleView>, ErrorView> },
}

/// One call received by a byte-fetch transport: a fetch for one object,
/// with the transport's answer.
pub enum FetchOp {
    Fetched { bucket: Seq<char>, key: Seq<char>, result: Result<Seq<u8>, ErrorView> },
}

/// The view of a rule lookup's outcome.
pub open spec fn rule_result_view(r: Result<Option<IngestionConfigRule>, IngestionError>) -> Result<
    Option<RuleView>,
    ErrorView,
> {
    match r {
        Ok(Some(c)) => Ok(Some(c@)),
        Ok(None) => Ok(None),
        Err(e) => Err(e@),
    }
}

/// The view of a fetch outcome.
pub open spec fn fetch_result_view(r: Result<Vec<u8>, IngestionError>) -> Result<
    Seq<u8>,
    ErrorView,
> {
    match r {
        Ok(b) => Ok(b@),
        Err(e) => Err(e@),
    }
}

/// The view of a persist outcome.
pub open spec fn store_result_view(r: Result<Vec<String>, IngestionError>) -> Result<
    Seq<Seq<char>>,
    ErrorView,
> {
    match r {
        Ok(ids) => Ok(ids.deep_view()),
        Err(e) => Err(e@),
    }
}

/// The view of an audit-entry creation outcome.
pub open spec fn create_result_view(r: Result<String, IngestionError>) -> Result<
    Seq<char>,
    ErrorView,
> {
    match r {
        Ok(id) => Ok(id@),
        Err(e) => Err(e@),
    }
}

/// Fetches a file's raw bytes. The transport decides success; the ghost
/// history records every fetch and its outcome, and a returned buffer
/// sits in memory, so its length is below 2^63.
pub trait FileFetcher {
    /// The ghost call history. The constant-empty default exists only so
    /// that unverified implementations need not define it; under it the
    /// method contract below cannot hold, so a verified implementation
    /// must override it with a faithful model of its transport.
    open spec fn history(&self) -> Seq<FetchOp> {
        Seq::empty()
    }

    fn fetch_file(&mut self, bucket: &str, key: &str) -> (r: Result<Vec<u8>, IngestionError>)
        ensures
            final(self).history() == old(self).history().push(
                FetchOp::Fetched { bucket: bucket@, key: key@, result: fetch_result_view(r) },
            ),
            r matches Ok(b) ==> b@.len() < 0x8000_0000_0000_0000,
    ;
}

/// Converts raw bytes into records, as the dispatcher's outcome
/// describes.
pub trait DataParser {
    fn parse(&self, file_bytes: &[u8], file_type: &str) -> (r: Result<
        Vec<JsonValue>,
        IngestionError,
    >)
        requires
            file_bytes@.len() < 0x8000_0000_0000_0000,
        ensures
            match r {
                Ok(recs) => parse_outcome(file_bytes@, file_type@, None) matches Some(rs)
                    && arr_view(recs@) == rs,
                Err(e) => parse_outcome(file_bytes@, file_type@, None) is None && e is Parse && (
                unknown_tag(file_type@) ==> e@ == ErrorView::Parse(
                    "Unsupported file type: "@ + file_type@,
                )),
            },
    ;

    fn parse_with_config(
        &self,
        file_bytes: &[u8],
        file_type: &str,
        config: Option<&JsonValue>,
    ) -> (r: Result<Vec<JsonValue>, IngestionError>)
        requires
            file_bytes@.len() < 0x8000_0000_0000_0000,
        ensures
            match r {
                Ok(recs) => parse_outcome(file_bytes@, file_type@, opt_config_view(config))
                    matches Some(rs) && arr_view(recs@) == rs,
                Err(e) => parse_outcome(file_bytes@, file_type@, opt_config_view(config)) is None
                    && e is Parse && (unknown_tag(file_type@) ==> e@ == ErrorView::Parse(
                    "Unsupported file type: "@ + file_type@,
                )),
            },
    ;
}

/// Supplies the rule matched to a key, or `None` when no rule matches.
/// The rule source decides the outcome; whatever its backend, it must
/// reproduce the longest-pattern, first-wins selection that
/// `crate::rules::resolve_rule` implements. The ghost history records
/// every lookup and its outcome.
pub trait ConfigRepository {
    /// The ghost call history. The constant-empty default exists only so
    /// that unverified implementations need not define it; under it the
    /// method contract below cannot hold, so a verified implementation
    /// must override it with a faithful model of its source.
    open spec fn history(&self) -> Seq<RuleOp> {
        Seq::empty()
    }

    fn get_config_for_key(&mut self, s3_key: &str) -> (r: Result<
        Option<IngestionConfigRule>,
        IngestionError,
    >)
        ensures
            final(self).history() == old(self).history().push(
                RuleOp::Queried { key: s3_key@, result: rule_result_view(r) },
            ),
    ;
}

/// Persists record batches. The ghost history records every batch the
/// store was asked to insert; the store assigns the returned ids.
pub trait DataRepository {
    /// The ghost call history. The constant-empty default exists only so
    /// that unverified implementations need not define it; under it the
    /// method contracts below cannot hold, so a verified implementation
    /// must override it with a faithful model of its store.
    open spec fn history(&self) -> Seq<StoreOp> {
        Seq::empty()
    }

    fn insert_documents(
        &mut self,
        target_table: &str,
        documents: &Vec<JsonValue>,
        log_id: &str,
    ) -> (r: Result<Vec<String>, IngestionError>)
        ensures
            final(self).history() == old(self).history().push(
                StoreOp::Inserted {
                    table: target_table@,
                    docs: arr_view(documents@),
                    log_id: log_id@,
                    result: store_result_view(r),
                },
            ),
    ;
}

/// Keeps the audit log. The ghost history records every create and every
/// update that was requested, together with the store's answer to the
/// create (the assigned id, or the failure).
pub trait LogRepository {
    /// The ghost call history. The constant-empty default exists only so
    /// that unverified implementations need not define it; under it the
    /// method contracts below cannot hold, so a verified implementation
    /// must override it with a faithful model of its store.
    open spec fn history(&self) -> Seq<LogOp> {
        Seq::empty()
    }

    fn insert_log(&mut self, log: &IngestionLog) -> (r: Result<String, IngestionError>)
        ensures
            final(self).history() == old(self).history().push(
                LogOp::Created { entry: log@, result: create_result_view(r) },
            ),
    ;

    fn update_log(
        &mut self,
        log_id: &str,
        end_time: i64,
        status: IngestionStatus,
        message: Option<String>,
    ) -> (r: Result<(), IngestionError>)
        ensures
            final(self).history() == old(self).history().push(
                LogOp::Updated {
                    id: log_id@,
                    end_time: end_time as int,
                    status: status,
                    message: opt_string_view(message),
                },
            ),
    ;
}

/// Reads the current time, in milliseconds since the Unix epoch.
pub trait Clock {
    fn now_millis(&mut self) -> i64;
}

} // verus!
