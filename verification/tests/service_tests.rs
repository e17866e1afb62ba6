//! Orchestrator behaviour: the attempt lifecycle and its audit trail,
//! exercised with in-memory stand-ins for the capability ports.

use data_ingestion::error::IngestionError;
use data_ingestion::ingestion_service::IngestionService;
use data_ingestion::models::{FileToProcess, IngestionConfigRule, IngestionLog, IngestionStatus};
use data_ingestion::parser_adapter::ParserAdapter;
use data_ingestion::ports::{Clock, ConfigRepository, DataRepository, FileFetcher, LogRepository};
use data_ingestion::value::{JsonField, JsonValue};

fn clone_value(v: &JsonValue) -> JsonValue {
    match v {
        JsonValue::Null => JsonValue::Null,
        JsonValue::Bool(b) => JsonValue::Bool(*b),
        JsonValue::Int(i) => JsonValue::Int(*i),
        JsonValue::Num(s) => JsonValue::Num(s.clone()),
        JsonValue::Text(s) => JsonValue::Text(s.clone()),
        JsonValue::Arr(items) => JsonValue::Arr(items.iter().map(clone_value).collect()),
        JsonValue::Obj(fields) => JsonValue::Obj(
            fields
                .iter()
                .map(|f| JsonField { name: f.name.clone(), value: clone_value(&f.value) })
                .collect(),
        ),
    }
}

fn text(rec: &JsonValue, name: &str) -> String {
    match rec.get(name).expect("missing field") {
        JsonValue::Text(s) => s.clone(),
        _ => panic!("field is not text"),
    }
}

struct FakeFetcher {
    bytes: Vec<u8>,
    fail: bool,
}

impl FileFetcher for FakeFetcher {
    fn fetch_file(&mut self, _bucket: &str, _key: &str) -> Result<Vec<u8>, IngestionError> {
        if self.fail {
            Err(IngestionError::S3("object unreachable".to_string()))
        } else {
            Ok(self.bytes.clone())
        }
    }
}

struct FakeRules {
    table: Option<String>,
}

impl ConfigRepository for FakeRules {
    fn get_config_for_key(&mut self, _s3_key: &str) -> Result<Option<IngestionConfigRule>, IngestionError> {
        match &self.table {
            Some(t) => Ok(Some(IngestionConfigRule {
                pattern: ".*".to_string(),
                target_table: t.clone(),
                parser_config: None,
            })),
            None => Ok(None),
        }
    }
}

struct FakeStore {
    fail: bool,
    batches: Vec<(String, Vec<JsonValue>, String)>,
}

impl DataRepository for FakeStore {
    fn insert_documents(
        &mut self,
        target_table: &str,
        documents: &Vec<JsonValue>,
        log_id: &str,
    ) -> Result<Vec<String>, IngestionError> {
        self.batches.push((
            target_table.to_string(),
            documents.iter().map(clone_value).collect(),
            log_id.to_string(),
        ));
        if self.fail {
            Err(IngestionError::Database("insert refused".to_string()))
        } else {
            Ok(vec!["stored-0".to_string()])
        }
    }
}

struct FakeLog {
    fail_insert: bool,
    fail_update: bool,
    entries: Vec<(String, Option<i64>, Option<String>)>,
    updates: Vec<(String, i64, IngestionStatus, Option<String>)>,
}

impl LogRepository for FakeLog {
    fn insert_log(&mut self, log: &IngestionLog) -> Result<String, IngestionError> {
        if self.fail_insert {
            return Err(IngestionError::Database("log store down".to_string()));
        }
        self.entries.push((log.file_name.clone(), log.end_time, log.message.clone()));
        Ok("attempt-1".to_string())
    }

    fn update_log(
        &mut self,
        log_id: &str,
        end_time: i64,
        status: IngestionStatus,
        message: Option<String>,
    ) -> Result<(), IngestionError> {
        self.updates.push((log_id.to_string(), end_time, status, message));
        if self.fail_update {
            return Err(IngestionError::Database("log store down".to_string()));
        }
        Ok(())
    }
}

struct FakeClock {
    t: i64,
}

impl Clock for FakeClock {
    fn now_millis(&mut self) -> i64 {
        self.t += 1;
        self.t
    }
}

fn service(
    bytes: &[u8],
    fetch_fail: bool,
    table: Option<&str>,
    store_fail: bool,
    log_fail: bool,
) -> IngestionService<FakeFetcher, ParserAdapter, FakeRules, FakeStore, FakeLog, FakeClock> {
    IngestionService::new(
        FakeFetcher { bytes: bytes.to_vec(), fail: fetch_fail },
        ParserAdapter::new(),
        FakeRules { table: table.map(|t| t.to_string()) },
        FakeStore { fail: store_fail, batches: Vec::new() },
        FakeLog {
            fail_insert: log_fail,
            fail_update: false,
            entries: Vec::new(),
            updates: Vec::new(),
        },
        FakeClock { t: 0 },
    )
}

fn csv_file() -> FileToProcess {
    FileToProcess { bucket: "bucket".to_string(), key: "data/x.csv".to_string() }
}

#[test]
fn test_persist_success_tags_and_logs_success() {
    let mut svc = service(b"name,age\nJohn,25", false, Some("t"), false, false);
    let r = svc.process_file(csv_file());
    assert!(r.is_ok());

    assert_eq!(svc.log_repo.entries.len(), 1);
    assert_eq!(svc.log_repo.entries[0].0, "bucket/data/x.csv");
    assert!(svc.log_repo.entries[0].1.is_none());

    assert_eq!(svc.log_repo.updates.len(), 1);
    let (id, _, status, message) = &svc.log_repo.updates[0];
    assert_eq!(id, "attempt-1");
    assert!(matches!(status, IngestionStatus::Success));
    assert!(message.is_some());

    assert_eq!(svc.data_repo.batches.len(), 1);
    let (table, docs, log_id) = &svc.data_repo.batches[0];
    assert_eq!(table, "t");
    assert_eq!(log_id, "attempt-1");
    assert_eq!(docs.len(), 1);
    for d in docs {
        assert_eq!(text(d, "file_name"), "bucket/data/x.csv");
        assert_eq!(text(d, "log_id"), "attempt-1");
        assert_eq!(text(d, "name"), "John");
        assert_eq!(text(d, "age"), "25");
    }
}

#[test]
fn test_persist_failure_logs_failed_with_message() {
    let mut svc = service(b"name,age\nJohn,25", false, Some("t"), true, false);
    let r = svc.process_file(csv_file());
    assert!(matches!(r, Err(IngestionError::Database(_))));

    assert_eq!(svc.log_repo.updates.len(), 1);
    let (id, _, status, message) = &svc.log_repo.updates[0];
    assert_eq!(id, "attempt-1");
    assert!(matches!(status, IngestionStatus::Failed));
    assert!(!message.as_ref().unwrap().is_empty());
}

#[test]
fn test_unsupported_type_creates_no_attempt() {
    let mut svc = service(b"%PDF-1.4", false, Some("t"), false, false);
    let r = svc.process_file(FileToProcess {
        bucket: "bucket".to_string(),
        key: "doc.pdf".to_string(),
    });
    assert!(matches!(r, Err(IngestionError::Parse(_))));
    assert_eq!(svc.log_repo.entries.len(), 0);
    assert_eq!(svc.log_repo.updates.len(), 0);
    assert_eq!(svc.data_repo.batches.len(), 0);
}

#[test]
fn test_no_matching_rule_aborts_early() {
    let mut svc = service(b"name,age\nJohn,25", false, None, false, false);
    let r = svc.process_file(csv_file());
    assert!(matches!(r, Err(IngestionError::NoMatchingRule(_))));
    assert_eq!(svc.log_repo.entries.len(), 0);
    assert_eq!(svc.data_repo.batches.len(), 0);
}

#[test]
fn test_fetch_failure_aborts_early() {
    let mut svc = service(b"", true, Some("t"), false, false);
    let r = svc.process_file(csv_file());
    assert!(matches!(r, Err(IngestionError::S3(_))));
    assert_eq!(svc.log_repo.entries.len(), 0);
    assert_eq!(svc.data_repo.batches.len(), 0);
}

#[test]
fn test_log_create_failure_is_fatal() {
    let mut svc = service(b"name,age\nJohn,25", false, Some("t"), false, true);
    let r = svc.process_file(csv_file());
    assert!(matches!(r, Err(IngestionError::Database(_))));
    assert_eq!(svc.log_repo.updates.len(), 0);
    assert_eq!(svc.data_repo.batches.len(), 0);
}

#[test]
fn test_log_update_failure_is_swallowed() {
    let mut svc = service(b"name,age\nJohn,25", false, Some("t"), false, false);
    svc.log_repo.fail_update = true;
    let r = svc.process_file(csv_file());
    assert!(r.is_ok());
    assert_eq!(svc.log_repo.updates.len(), 1);
    assert_eq!(svc.data_repo.batches.len(), 1);
}

#[test]
fn test_error_messages_name_the_class() {
    let e = IngestionError::Parse("bad bytes".to_string());
    assert_eq!(e.message(), "Parsing error: bad bytes");
    let e = IngestionError::NoMatchingRule("k".to_string());
    assert_eq!(e.message(), "No matching configuration rule found for key: k");
    let e = IngestionError::Config("x".to_string());
    assert_eq!(e.message(), "Configuration error: x");
    let e = IngestionError::S3("y".to_string());
    assert_eq!(e.message(), "S3 error: y");
    let e = IngestionError::Database("z".to_string());
    assert_eq!(e.message(), "Database error: z");
}

#[test]
fn test_extract_file_type_lowers_last_extension() {
    assert_eq!(data_ingestion::ingestion_service::extract_file_type("a/b/data.CSV"), "csv");
    assert_eq!(data_ingestion::ingestion_service::extract_file_type("archive.tar.GZ"), "gz");
    assert_eq!(data_ingestion::ingestion_service::extract_file_type("no_extension"), "");
}
