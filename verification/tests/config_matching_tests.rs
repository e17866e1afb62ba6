//! Rule resolution behaviour: pattern matching and specificity.

use data_ingestion::error::IngestionError;
use data_ingestion::models::IngestionConfigRule;
use data_ingestion::rules::resolve_rule;
use data_ingestion::value::{JsonField, JsonValue};

fn headers_config(names: &[&str]) -> JsonValue {
    let mut items: Vec<JsonValue> = Vec::new();
    for n in names {
        items.push(JsonValue::Text((*n).to_string()));
    }
    let mut fields = Vec::new();
    fields.push(JsonField { name: "headers".to_string(), value: JsonValue::Arr(items) });
    JsonValue::Obj(fields)
}

fn create_test_rules() -> Vec<IngestionConfigRule> {
    vec![
        IngestionConfigRule {
            pattern: ".*\\.csv$".to_string(),
            target_table: "csv_data".to_string(),
            parser_config: None,
        },
        IngestionConfigRule {
            pattern: ".*test_no_headers\\.csv$".to_string(),
            target_table: "csv_no_headers_data".to_string(),
            parser_config: Some(headers_config(&["name", "age", "email", "city"])),
        },
        IngestionConfigRule {
            pattern: "reports/.*\\.xlsx$".to_string(),
            target_table: "excel_reports".to_string(),
            parser_config: None,
        },
    ]
}

#[test]
fn test_specific_pattern_wins() {
    let rules = create_test_rules();
    let result = resolve_rule(&rules, "data/test_no_headers.csv").unwrap().unwrap();

    assert_eq!(result.target_table, "csv_no_headers_data");
    assert_eq!(result.pattern, ".*test_no_headers\\.csv$");
}

#[test]
fn test_general_pattern_fallback() {
    let rules = create_test_rules();
    let result = resolve_rule(&rules, "data/regular.csv").unwrap().unwrap();

    assert_eq!(result.target_table, "csv_data");
    assert_eq!(result.pattern, ".*\\.csv$");
}

#[test]
fn test_no_match() {
    let rules = create_test_rules();
    let result = resolve_rule(&rules, "data/file.txt").unwrap();

    assert!(result.is_none());
}

#[test]
fn test_excel_reports_match() {
    let rules = create_test_rules();
    let result = resolve_rule(&rules, "reports/monthly.xlsx").unwrap().unwrap();

    assert_eq!(result.target_table, "excel_reports");
}

#[test]
fn test_invalid_pattern_is_config_error() {
    let rules = vec![IngestionConfigRule {
        pattern: "[".to_string(),
        target_table: "t".to_string(),
        parser_config: None,
    }];
    let result = resolve_rule(&rules, "anything");
    assert!(matches!(result, Err(IngestionError::Config(_))));
}

#[test]
fn test_pattern_length_is_measured_in_bytes() {
    let rules = vec![
        IngestionConfigRule {
            pattern: ".*\u{e9}$".to_string(),
            target_table: "accented".to_string(),
            parser_config: None,
        },
        IngestionConfigRule {
            pattern: ".*o.$".to_string(),
            target_table: "plain".to_string(),
            parser_config: None,
        },
    ];
    let result = resolve_rule(&rules, "fo\u{e9}").unwrap().unwrap();
    assert_eq!(result.target_table, "accented");
}

#[test]
fn test_equal_length_patterns_first_wins() {
    let rules = vec![
        IngestionConfigRule {
            pattern: "data/.*$".to_string(),
            target_table: "first".to_string(),
            parser_config: None,
        },
        IngestionConfigRule {
            pattern: ".*\\.csv$".to_string(),
            target_table: "second".to_string(),
            parser_config: None,
        },
    ];
    let result = resolve_rule(&rules, "data/x.csv").unwrap().unwrap();
    assert_eq!(result.target_table, "first");
}
