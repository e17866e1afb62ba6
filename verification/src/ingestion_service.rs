//! Attempt orchestration: one `process_file` call drives one file end to
//! end — resolve the rule, fetch the bytes, derive the declared type,
//! parse, tag every record with its provenance, create the audit entry,
//! persist the batch, and terminally update the audit entry whatever the
//! persist outcome. Failure before the audit entry is created leaves no
//! trail; an attempt that reaches it gets exactly one terminal update.

use vstd::prelude::*;
use vstd::string::{StrSliceExecFns, StringExecFns};
use crate::csv_parser::opt_config_view;
use crate::error::{error_message, lemma_error_message_nonempty, ErrorView, IngestionError};
use crate::models::{FileToProcess, IngestionLog, IngestionStatus};
use crate::parser_adapter::{parse_outcome, unknown_tag};
use crate::ports::{
    Clock, ConfigRepository, DataParser, DataRepository, FetchOp, FileFetcher, LogOp,
    LogRepository, RuleOp, StoreOp,
};
use crate::value::{arr_view, has_field, lemma_tag_view, tag_view, ValueView};

verus! {

/// The position of the last dot in a key, or -1 when it has none.
pub open spec fn last_dot(key: Seq<char>) -> int
    decreases key.len(),
{
    if key.len() == 0 {
        -1
    } else if key.last() == '.' {
        key.len() - 1
    } else {
        last_dot(key.drop_last())
    }
}

/// What `last_dot` finds: the last dot, when the key has one.
pub proof fn lemma_last_dot(key: Seq<char>)
    ensures
        -1 <= last_dot(key) < key.len(),
        last_dot(key) >= 0 ==> key[last_dot(key)] == '.',
        forall|j: int| last_dot(key) < j < key.len() ==> key[j] != '.',
    decreases key.len(),
{
    if key.len() > 0 && key.last() != '.' {
        lemma_last_dot(key.drop_last());
        assert(forall|j: int| 0 <= j < key.len() - 1 ==> key.drop_last()[j] == key[j]);
    }
}

/// The text that a case folding yields. A function of the characters
/// alone.
pub uninterp spec fn lower_of(s: Seq<char>) -> Seq<char>;

/// Relies on `str::to_lowercase`: the result depends on the characters
/// alone, and an empty text stays empty.
#[verifier::external_body]
fn lowercase(s: &str) -> (r: String)
    ensures
        r@ == lower_of(s@),
        s@.len() == 0 ==> r@.len() == 0,
{
    s.to_lowercase()
}

/// The declared type of a key: the lower-cased text after the last dot,
/// or empty when the key has no dot (treated downstream as an unknown
/// type).
pub open spec fn declared_type(key: Seq<char>) -> Seq<char> {
    if last_dot(key) == -1 {
        Seq::empty()
    } else {
        lower_of(key.skip(last_dot(key) + 1))
    }
}

/// Derives the declared type from a key.
#[verifier::loop_isolation(false)]
pub fn extract_file_type(key: &str) -> (r: String)
    ensures
        r@ == declared_type(key@),
{
    proof {
        lemma_last_dot(key@);
    }
    let n = key.unicode_len();
    let mut i: usize = n;
    while i > 0
        invariant
            0 <= i <= n,
            forall|j: int| i <= j < n ==> key@[j] != '.',
        decreases i,
    {
        if key.get_char(i - 1) == '.' {
            proof {
                assert(last_dot(key@) == i - 1);
            }
            let suffix = key.substring_char(i, n);
            return lowercase(suffix);
        }
        i = i - 1;
    }
    proof {
        assert(last_dot(key@) == -1);
    }
    String::new()
}

/// The provenance name of a file: `<bucket>/<key>`.
pub open spec fn provenance_name(file: FileToProcess) -> Seq<char> {
    file.bucket@ + "/"@ + file.key@
}

/// The parsed records tagged for persistence: each with the provenance
/// name, then the attempt id.
pub open spec fn tagged_records(recs: Seq<ValueView>, name: Seq<char>, id: Seq<char>) -> Seq<
    ValueView,
> {
    Seq::new(
        recs.len(),
        |i: int|
            tag_view(
                tag_view(recs[i], "file_name"@, ValueView::Text(name)),
                "log_id"@,
                ValueView::Text(id),
            ),
    )
}

/// Every object record of a tagged batch carries the provenance name and
/// the attempt id.
pub proof fn lemma_tagged_records_fields(recs: Seq<ValueView>, name: Seq<char>, id: Seq<char>)
    ensures
        forall|j: int|
            0 <= j < tagged_records(recs, name, id).len() ==> (#[trigger] tagged_records(
                recs,
                name,
                id,
            )[j]) is Obj ==> has_field(
                tagged_records(recs, name, id)[j],
                "file_name"@,
                ValueView::Text(name),
            ) && has_field(tagged_records(recs, name, id)[j], "log_id"@, ValueView::Text(id)),
{
    reveal_strlit("file_name");
    reveal_strlit("log_id");
    assert("file_name"@.len() == 9);
    assert("log_id"@.len() == 6);
    assert forall|j: int|
        0 <= j < tagged_records(recs, name, id).len() && (#[trigger] tagged_records(
            recs,
            name,
            id,
        )[j]) is Obj implies has_field(
        tagged_records(recs, name, id)[j],
        "file_name"@,
        ValueView::Text(name),
    ) && has_field(tagged_records(recs, name, id)[j], "log_id"@, ValueView::Text(id)) by {
        lemma_tag_view(
            tag_view(recs[j], "file_name"@, ValueView::Text(name)),
            "log_id"@,
            ValueView::Text(id),
        );
        lemma_tag_view(recs[j], "file_name"@, ValueView::Text(name));
    }
}

/// The orchestrator: owns one attempt's lifecycle over the capability
/// ports it was built with.
pub struct IngestionService<F, P, C, D, L, K> {
    pub file_fetcher: F,
    pub data_parser: P,
    pub config_repo: C,
    pub data_repo: D,
    pub log_repo: L,
    pub clock: K,
}

impl<
    F: FileFetcher,
    P: DataParser,
    C: ConfigRepository,
    D: DataRepository,
    L: LogRepository,
    K: Clock,
> IngestionService<F, P, C, D, L, K> {
    pub fn new(
        file_fetcher: F,
        data_parser: P,
        config_repo: C,
        data_repo: D,
        log_repo: L,
        clock: K,
    ) -> (r: IngestionService<F, P, C, D, L, K>)
        ensures
            r.config_repo.history() == config_repo.history(),
            r.file_fetcher.history() == file_fetcher.history(),
            r.log_repo.history() == log_repo.history(),
            r.data_repo.history() == data_repo.history(),
    {
        IngestionService { file_fetcher, data_parser, config_repo, data_repo, log_repo, clock }
    }

    /// Processes one file end to end.
    ///
    /// The contract is stated over the ghost histories of the four
    /// store-backed ports, which record each call and its outcome.
    /// Exactly one rule lookup is made, with the file's key; a lookup
    /// failure or a no-match aborts with that step's own error and
    /// touches nothing else. A matched rule leads to exactly one fetch of
    /// the file's bytes; a fetch failure, or a parse failure of the
    /// fetched bytes under the key's declared type and the rule's decode
    /// configuration, likewise aborts before any audit entry. The parsed
    /// records lead to exactly one audit-entry creation; a creation
    /// failure is fatal, with no persist and no update. A created entry
    /// leads to exactly one persisted batch — the parsed records tagged
    /// with the provenance name and the entry's id, bound for the rule's
    /// destination — and exactly one terminal update under the entry's
    /// id: `Success` and a success return when the store accepted the
    /// batch, else `Failed`, the store's error description in the
    /// message, and that same error returned; the update's own outcome is
    /// swallowed either way.
    pub fn process_file(&mut self, file: FileToProcess) -> (r: Result<(), IngestionError>)
        ensures
            ({
                let rules0 = old(self).config_repo.history();
                let rules1 = final(self).config_repo.history();
                let fet0 = old(self).file_fetcher.history();
                let fet1 = final(self).file_fetcher.history();
                let log0 = old(self).log_repo.history();
                let log1 = final(self).log_repo.history();
                let st0 = old(self).data_repo.history();
                let st1 = final(self).data_repo.history();
                let name = provenance_name(file);
                &&& rules1.len() == rules0.len() + 1
                &&& rules1.take(rules0.len() as int) == rules0
                &&& (rules1.last() matches RuleOp::Queried { key: qkey, result: rres } && {
                    &&& qkey == file.key@
                    &&& match rres {
                        Err(ev) => fet1 == fet0 && log1 == log0 && st1 == st0 && (r matches Err(e)
                            && e@ == ev),
                        Ok(None) => fet1 == fet0 && log1 == log0 && st1 == st0 && (r matches Err(e)
                            && e@ == ErrorView::NoMatchingRule(file.key@)),
                        Ok(Some(rule)) => {
                            &&& fet1.len() == fet0.len() + 1
                            &&& fet1.take(fet0.len() as int) == fet0
                            &&& (fet1.last() matches FetchOp::Fetched {
                                bucket,
                                key: fkey,
                                result: fres,
                            } && {
                                &&& bucket == file.bucket@
                                &&& fkey == file.key@
                                &&& match fres {
                                    Err(ev) => log1 == log0 && st1 == st0 && (r matches Err(e)
                                        && e@ == ev),
                                    Ok(bytes) => match parse_outcome(
                                        bytes,
                                        declared_type(file.key@),
                                        rule.parser_config,
                                    ) {
                                        None => log1 == log0 && st1 == st0 && (r matches Err(e)
                                            && e is Parse && (unknown_tag(declared_type(file.key@))
                                            ==> e@ == ErrorView::Parse(
                                            "Unsupported file type: "@ + declared_type(file.key@),
                                        ))),
                                        Some(recs) => {
                                            &&& log1.len() >= log0.len() + 1
                                            &&& log1.take(log0.len() as int) == log0
                                            &&& (log1[log0.len() as int] matches LogOp::Created {
                                                entry,
                                                result: cres,
                                            } && {
                                                &&& entry.file_name == name
                                                &&& entry.end_time is None
                                                &&& entry.message is None
                                                &&& match cres {
                                                    Err(ev) => log1.len() == log0.len() + 1 && st1
                                                        == st0 && (r matches Err(e) && e@ == ev),
                                                    Ok(id) => {
                                                        &&& st1.len() == st0.len() + 1
                                                        &&& st1.take(st0.len() as int) == st0
                                                        &&& log1.len() == log0.len() + 2
                                                        &&& (st1.last() matches StoreOp::Inserted {
                                                            table,
                                                            docs,
                                                            log_id,
                                                            result: sres,
                                                        } && {
                                                            &&& table == rule.target_table
                                                            &&& log_id == id
                                                            &&& docs == tagged_records(
                                                                recs,
                                                                name,
                                                                id,
                                                            )
                                                            &&& (log1.last()
                                                                matches LogOp::Updated {
                                                                id: uid,
                                                                end_time: _,
                                                                status,
                                                                message,
                                                            } && {
                                                                &&& uid == id
                                                                &&& match sres {
                                                                    Ok(_) => status
                                                                        == IngestionStatus::Success
                                                                        && r is Ok,
                                                                    Err(ev) => status
                                                                        == IngestionStatus::Failed
                                                                        && (r matches Err(e) && e@
                                                                        == ev && message == Some(
                                                                        error_message(e),
                                                                    ) && error_message(e).len()
                                                                        > 0),
                                                                }
                                                            })
                                                        })
                                                    },
                                                }
                                            })
                                        },
                                    },
                                }
                            })
                        },
                    }
                })
            }),
    {
        let start_time = self.clock.now_millis();

        // Step 1: resolve the rule for the key. Failure aborts with no
        // audit entry.
        let config = match self.config_repo.get_config_for_key(file.key.as_str()) {
            Ok(Some(c)) => c,
            Ok(None) => {
                return Err(IngestionError::NoMatchingRule(file.key));
            },
            Err(e) => {
                return Err(e);
            },
        };

        // Step 2: fetch the raw bytes. Failure aborts with no audit entry.
        let file_bytes = match self.file_fetcher.fetch_file(
            file.bucket.as_str(),
            file.key.as_str(),
        ) {
            Ok(b) => b,
            Err(e) => {
                return Err(e);
            },
        };

        // Step 3: derive the declared type from the key.
        let file_type = extract_file_type(file.key.as_str());

        // Step 4: parse. Failure aborts with no audit entry.
        let cfg = config.parser_config.as_ref();
        proof {
            assert(opt_config_view(cfg) == config@.parser_config);
        }
        let documents = match self.data_parser.parse_with_config(
            file_bytes.as_slice(),
            file_type.as_str(),
            cfg,
        ) {
            Ok(d) => d,
            Err(e) => {
                return Err(e);
            },
        };
        let ghost parsed = arr_view(documents@);
        proof {
            assert(parse_outcome(file_bytes@, declared_type(file.key@), config@.parser_config)
                == Some(parsed));
        }

        // Step 5: tag every record with the file's provenance name.
        let mut file_name = file.bucket.clone();
        file_name.append("/");
        file_name.append(file.key.as_str());
        let documents = crate::value::tag_documents(documents, "file_name", &file_name);
        let ghost named = arr_view(documents@);

        // Step 6: create the audit entry. Failure here is fatal for the
        // whole call.
        let log = IngestionLog {
            file_name: file_name.clone(),
            start_time,
            end_time: None,
            status: IngestionStatus::Success,
            message: None,
        };
        let log_id = match self.log_repo.insert_log(&log) {
            Ok(id) => id,
            Err(e) => {
                return Err(e);
            },
        };

        // Step 7: tag each record with the attempt id and persist the
        // batch.
        let documents = crate::value::tag_documents(documents, "log_id", &log_id);
        proof {
            assert(file_name@ == provenance_name(file));
            assert(arr_view(documents@) =~= tagged_records(parsed, file_name@, log_id@));
        }
        let outcome = self.data_repo.insert_documents(
            config.target_table.as_str(),
            &documents,
            log_id.as_str(),
        );

        // Step 8: terminally update the audit entry whatever the persist
        // outcome; a failure updating the log is observed, not
        // propagated.
        let end_time = self.clock.now_millis();
        let (status, message) = match &outcome {
            Ok(_) => (IngestionStatus::Success, "File processed successfully".to_owned()),
            Err(e) => {
                proof {
                    lemma_error_message_nonempty(*e);
                }
                (IngestionStatus::Failed, e.message())
            },
        };
        let _ = self.log_repo.update_log(log_id.as_str(), end_time, status, Some(message));

        // Step 9: return the persist outcome.
        match outcome {
            Ok(_) => Ok(()),
            Err(e) => Err(e),
        }
    }
}

} // verus!
