//! The parser dispatcher: a fixed mapping from a declared type tag to the
//! decoder for that format. An unknown tag fails without invoking any
//! decoder; the decode configuration is handed uniformly to every decoder,
//! and decoders that do not understand it ignore it silently.

use vstd::prelude::*;
use vstd::string::StringExecFns;
use vstd::utf8::valid_utf8;
use crate::avro_parser::{avro_records, parse_avro};
use crate::csv_parser::{
    delimited_records, delimited_rows, headers_of_config, opt_config_view, parse_csv_with_config,
};
use crate::error::{ErrorView, IngestionError};
use crate::excel_parser::{parse_excel, sheet_of, sheet_records};
use crate::json_parser::{json_doc, json_records, parse_json};
use crate::parquet_parser::{batches_records, parquet_batches, parse_parquet};
use crate::strutil::str_eq;
use crate::txt_parser::{parse_txt, split_lines, txt_records};
use crate::value::{arr_view, JsonValue, ValueView};
use crate::xml_parser::{markup_outcome, parse_xml};

verus! {

/// What dispatching yields for bytes, a declared type tag and a decode
/// configuration: the record sequence of the decoder mapped to the tag,
/// or `None` when that decoder rejects the bytes or no decoder is mapped
/// to the tag.
pub open spec fn parse_outcome(bytes: Seq<u8>, tag: Seq<char>, cfg: Option<ValueView>) -> Option<
    Seq<ValueView>,
> {
    if tag == "avro"@ {
        avro_records(bytes)
    } else if tag == "csv"@ {
        match delimited_rows(bytes) {
            Some(rows) => Some(delimited_records(rows, headers_of_config(cfg))),
            None => None,
        }
    } else if tag == "json"@ {
        match json_doc(bytes) {
            Some(d) => Some(json_records(d)),
            None => None,
        }
    } else if tag == "parquet"@ {
        match parquet_batches(bytes) {
            Some(bs) => Some(batches_records(bs)),
            None => None,
        }
    } else if tag == "txt"@ {
        if forall|i: int|
            0 <= i < split_lines(bytes).len() ==> valid_utf8(#[trigger] split_lines(bytes)[i]) {
            Some(txt_records(bytes))
        } else {
            None
        }
    } else if tag == "xml"@ {
        markup_outcome(bytes)
    } else if tag == "xls"@ || tag == "xlsx"@ {
        match sheet_of(bytes) {
            Some(g) => Some(
                match g {
                    Some(grid) => sheet_records(grid),
                    None => Seq::empty(),
                },
            ),
            None => None,
        }
    } else {
        None
    }
}

/// Whether a tag names no decoder.
pub open spec fn unknown_tag(tag: Seq<char>) -> bool {
    tag != "avro"@ && tag != "csv"@ && tag != "json"@ && tag != "parquet"@ && tag != "txt"@ && tag
        != "xml"@ && tag != "xls"@ && tag != "xlsx"@
}

/// The parser dispatcher. Its tag-to-decoder mapping is fixed at build
/// time and never mutated.
pub struct ParserAdapter;

impl ParserAdapter {
    pub fn new() -> ParserAdapter {
        ParserAdapter
    }

    /// Routes the bytes to the decoder for the tag, handing every decoder
    /// the decode configuration. Succeeds exactly when a decoder is mapped
    /// to the tag and accepts the bytes; an unknown tag is a decode error
    /// that invokes no decoder.
    pub fn parse_with_config(
        &self,
        file_bytes: &[u8],
        file_type: &str,
        config: Option<&JsonValue>,
    ) -> (r: Result<Vec<JsonValue>, IngestionError>)
        requires
            file_bytes@.len() < 0x8000_0000_0000_0000,
        ensures
            match r {
                Ok(recs) => parse_outcome(file_bytes@, file_type@, opt_config_view(config))
                    matches Some(rs) && arr_view(recs@) == rs,
                Err(e) => parse_outcome(file_bytes@, file_type@, opt_config_view(config)) is None
                    && e is Parse && (unknown_tag(file_type@) ==> e@ == ErrorView::Parse(
                    "Unsupported file type: "@ + file_type@,
                )),
            },
    {
        if str_eq(file_type, "avro") {
            parse_avro(file_bytes)
        } else if str_eq(file_type, "csv") {
            parse_csv_with_config(file_bytes, config)
        } else if str_eq(file_type, "json") {
            parse_json(file_bytes)
        } else if str_eq(file_type, "parquet") {
            parse_parquet(file_bytes)
        } else if str_eq(file_type, "txt") {
            parse_txt(file_bytes)
        } else if str_eq(file_type, "xml") {
            parse_xml(file_bytes)
        } else if str_eq(file_type, "xls") || str_eq(file_type, "xlsx") {
            parse_excel(file_bytes)
        } else {
            let mut m = "Unsupported file type: ".to_owned();
            m.append(file_type);
            Err(IngestionError::Parse(m))
        }
    }

    /// Routes the bytes to the decoder for the tag, with no decode
    /// configuration.
    pub fn parse(&self, file_bytes: &[u8], file_type: &str) -> (r: Result<
        Vec<JsonValue>,
        IngestionError,
    >)
        requires
            file_bytes@.len() < 0x8000_0000_0000_0000,
        ensures
            match r {
                Ok(recs) => parse_outcome(file_bytes@, file_type@, None) matches Some(rs)
                    && arr_view(recs@) == rs,
                Err(e) => parse_outcome(file_bytes@, file_type@, None) is None && e is Parse && (
                unknown_tag(file_type@) ==> e@ == ErrorView::Parse(
                    "Unsupported file type: "@ + file_type@,
                )),
            },
    {
        self.parse_with_config(file_bytes, file_type, None)
    }
}

/// Decoding is deterministic: every decoder's outcome is a function of
/// the bytes, the declared type tag and the decode configuration alone,
/// so two successful runs on identical inputs yield structurally
/// identical record sequences, in the same order.
pub proof fn lemma_parse_deterministic(
    bytes: Seq<u8>,
    tag: Seq<char>,
    cfg: Option<ValueView>,
    r1: Seq<ValueView>,
    r2: Seq<ValueView>,
)
    requires
        parse_outcome(bytes, tag, cfg) == Some(r1),
        parse_outcome(bytes, tag, cfg) == Some(r2),
    ensures
        r1 == r2,
{
}

/// A tag that names no decoder is rejected for every byte stream and
/// every configuration: no decoder is invoked and dispatch cannot
/// succeed.
pub proof fn lemma_unknown_tag_rejected(bytes: Seq<u8>, tag: Seq<char>, cfg: Option<ValueView>)
    requires
        unknown_tag(tag),
    ensures
        parse_outcome(bytes, tag, cfg) is None,
{
}

impl crate::ports::DataParser for ParserAdapter {
    fn parse(&self, file_bytes: &[u8], file_type: &str) -> (r: Result<
        Vec<JsonValue>,
        IngestionError,
    >) {
        ParserAdapter::parse(self, file_bytes, file_type)
    }

    fn parse_with_config(
        &self,
        file_bytes: &[u8],
        file_type: &str,
        config: Option<&JsonValue>,
    ) -> (r: Result<Vec<JsonValue>, IngestionError>) {
        ParserAdapter::parse_with_config(self, file_bytes, file_type, config)
    }
}

} // verus!
