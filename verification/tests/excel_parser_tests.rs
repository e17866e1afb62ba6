//! Spreadsheet decoding behaviour.

use data_ingestion::error::IngestionError;
use data_ingestion::excel_parser::parse_excel;
use data_ingestion::value::JsonValue;
use std::io::Write;

fn text(rec: &JsonValue, name: &str) -> String {
    match rec.get(name).expect("missing field") {
        JsonValue::Text(s) => s.clone(),
        _ => panic!("field is not text"),
    }
}

/// A minimal workbook with one worksheet: a header row `name, age` and a
/// data row `John, 25`.
fn create_test_workbook() -> Vec<u8> {
    let parts: &[(&str, &str)] = &[
        (
            "[Content_Types].xml",
            r#"<?xml version="1.0" encoding="UTF-8" standalone="yes"?>
<Types xmlns="http://schemas.openxmlformats.org/package/2006/content-types">
<Default Extension="rels" ContentType="application/vnd.openxmlformats-package.relationships+xml"></Default>
<Default Extension="xml" ContentType="application/xml"></Default>
<Override PartName="/xl/workbook.xml" ContentType="application/vnd.openxmlformats-officedocument.spreadsheetml.sheet.main+xml"></Override>
<Override PartName="/xl/worksheets/sheet1.xml" ContentType="application/vnd.openxmlformats-officedocument.spreadsheetml.worksheet+xml"></Override>
</Types>"#,
        ),
        (
            "_rels/.rels",
            r#"<?xml version="1.0" encoding="UTF-8" standalone="yes"?>
<Relationships xmlns="http://schemas.openxmlformats.org/package/2006/relationships">
<Relationship Id="rId1" Type="http://schemas.openxmlformats.org/officeDocument/2006/relationships/officeDocument" Target="xl/workbook.xml"></Relationship>
</Relationships>"#,
        ),
        (
            "xl/workbook.xml",
            r#"<?xml version="1.0" encoding="UTF-8" standalone="yes"?>
<workbook xmlns="http://schemas.openxmlformats.org/spreadsheetml/2006/main" xmlns:r="http://schemas.openxmlformats.org/officeDocument/2006/relationships">
<sheets><sheet name="Sheet1" sheetId="1" r:id="rId1"></sheet></sheets>
</workbook>"#,
        ),
        (
            "xl/_rels/workbook.xml.rels",
            r#"<?xml version="1.0" encoding="UTF-8" standalone="yes"?>
<Relationships xmlns="http://schemas.openxmlformats.org/package/2006/relationships">
<Relationship Id="rId1" Type="http://schemas.openxmlformats.org/officeDocument/2006/relationships/worksheet" Target="worksheets/sheet1.xml"></Relationship>
</Relationships>"#,
        ),
        (
            "xl/worksheets/sheet1.xml",
            r#"<?xml version="1.0" encoding="UTF-8" standalone="yes"?>
<worksheet xmlns="http://schemas.openxmlformats.org/spreadsheetml/2006/main">
<sheetData>
<row r="1">
<c r="A1" t="inlineStr"><is><t>name</t></is></c>
<c r="B1" t="inlineStr"><is><t>age</t></is></c>
</row>
<row r="2">
<c r="A2" t="inlineStr"><is><t>John</t></is></c>
<c r="B2"><v>25</v></c>
</row>
</sheetData>
</worksheet>"#,
        ),
    ];
    let mut writer = zip::ZipWriter::new(std::io::Cursor::new(Vec::new()));
    let options = zip::write::SimpleFileOptions::default()
        .compression_method(zip::CompressionMethod::Stored);
    for (path, content) in parts {
        writer.start_file(*path, options).unwrap();
        writer.write_all(content.as_bytes()).unwrap();
    }
    writer.finish().unwrap().into_inner()
}

#[test]
fn test_excel_first_row_names_columns() {
    let workbook = create_test_workbook();
    let result = parse_excel(&workbook).unwrap();
    assert_eq!(result.len(), 1);
    assert_eq!(text(&result[0], "name"), "John");
    assert_eq!(text(&result[0], "age"), "25");
}

#[test]
fn test_excel_invalid_bytes_is_parse_error() {
    let result = parse_excel(b"this is not a workbook");
    assert!(matches!(result, Err(IngestionError::Parse(_))));
}

#[test]
fn test_excel_empty_bytes_is_parse_error() {
    let result = parse_excel(b"");
    assert!(matches!(result, Err(IngestionError::Parse(_))));
}
