//! Delimited-text decoding.
//!
//! The first row names the columns unless the decode configuration carries
//! an explicit `headers` list, in which case every row (the first included)
//! is data. All cell values are decoded as text; a row with more cells than
//! there are column names gets synthetic names `column_<index>` for the
//! extras, and a shorter row simply yields a shorter record.

use vstd::prelude::*;
use vstd::string::StringExecFns;
use crate::error::IngestionError;
use crate::strutil::{dec_str, usize_to_dec};
use crate::value::{
    arr_view, fields_insert, fields_view, find_field, obj_insert, value_view, JsonField, JsonValue,
    ValueView,
};

verus! {

broadcast use crate::value::lemma_arr_value_view, crate::value::lemma_obj_value_view;

/// The rows that the delimited-text reader yields for a byte stream, every
/// row taken as data; `None` when the stream is rejected (rows of unequal
/// width, or cells that are not valid text).
pub uninterp spec fn delimited_rows(bytes: Seq<u8>) -> Option<Seq<Seq<Seq<char>>>>;

/// Relies on `csv::ReaderBuilder` and `csv::Reader`: the record rows of a
/// delimited byte stream, read without treating any row as headers. The
/// result is a function of the bytes alone.
#[verifier::external_body]
fn read_delimited_rows(bytes: &[u8]) -> (r: Result<Vec<Vec<String>>, String>)
    ensures
        match delimited_rows(bytes@) {
            Some(rows) => r matches Ok(v) && v.deep_view() == rows,
            None => r is Err,
        },
{
    let rdr = csv::ReaderBuilder::new().has_headers(false).from_reader(bytes);
    let mut rows: Vec<Vec<String>> = Vec::new();
    for rec in rdr.into_records() {
        match rec {
            Ok(sr) => rows.push(sr.iter().map(|f| f.to_string()).collect()),
            Err(e) => return Err(e.to_string()),
        }
    }
    Ok(rows)
}

/// The name of column `i`: the header at `i` when there is one, else the
/// synthetic `column_<i>`.
pub open spec fn column_name(headers: Seq<Seq<char>>, i: int) -> Seq<char> {
    if 0 <= i < headers.len() {
        headers[i]
    } else {
        "column_"@ + dec_str(i as nat)
    }
}

/// One row as a field mapping: each cell as text under its column name,
/// inserted left to right.
pub open spec fn row_fields(headers: Seq<Seq<char>>, row: Seq<Seq<char>>) -> Seq<
    (Seq<char>, ValueView),
>
    decreases row.len(),
{
    if row.len() == 0 {
        Seq::empty()
    } else {
        fields_insert(
            row_fields(headers, row.drop_last()),
            column_name(headers, row.len() - 1),
            ValueView::Text(row.last()),
        )
    }
}

/// One row as a record.
pub open spec fn row_record(headers: Seq<Seq<char>>, row: Seq<Seq<char>>) -> ValueView {
    ValueView::Obj(row_fields(headers, row))
}

/// What decoding a row list yields: with configured headers every row is
/// data; otherwise the first row names the columns and the rest are data.
pub open spec fn delimited_records(
    rows: Seq<Seq<Seq<char>>>,
    cfg: Option<Seq<Seq<char>>>,
) -> Seq<ValueView> {
    let headers = match cfg {
        Some(h) => h,
        None => if rows.len() == 0 {
            Seq::empty()
        } else {
            rows[0]
        },
    };
    let data = match cfg {
        Some(h) => rows,
        None => if rows.len() == 0 {
            rows
        } else {
            rows.drop_first()
        },
    };
    Seq::new(data.len(), |i: int| row_record(headers, data[i]))
}

/// Only the text items of a list, in order.
pub open spec fn text_items(items: Seq<ValueView>) -> Seq<Seq<char>>
    decreases items.len(),
{
    if items.len() == 0 {
        Seq::empty()
    } else {
        let rest = text_items(items.drop_last());
        match items.last() {
            ValueView::Text(t) => rest.push(t),
            _ => rest,
        }
    }
}

/// The header list configured for the delimited-text decoder: the text
/// items of the configuration's `headers` list, when the configuration is
/// an object with such a list; `None` otherwise.
pub open spec fn headers_of_config(cfg: Option<ValueView>) -> Option<Seq<Seq<char>>> {
    match cfg {
        Some(c) => match c {
            ValueView::Obj(fs) => {
                let k = find_field(fs, "headers"@);
                if k >= 0 {
                    match fs[k].1 {
                        ValueView::Arr(items) => Some(text_items(items)),
                        _ => None,
                    }
                } else {
                    None
                }
            },
            _ => None,
        },
        None => None,
    }
}

/// The view of an optional borrowed configuration value.
pub open spec fn opt_config_view(cfg: Option<&JsonValue>) -> Option<ValueView> {
    match cfg {
        Some(c) => Some(value_view(*c)),
        None => None,
    }
}

/// Extracts the configured header list, as `headers_of_config` describes.
#[verifier::loop_isolation(false)]
fn headers_from_config(config: Option<&JsonValue>) -> (r: Option<Vec<String>>)
    ensures
        match headers_of_config(opt_config_view(config)) {
            Some(hs) => r matches Some(v) && v.deep_view() == hs,
            None => r is None,
        },
{
    let c = match config {
        Some(c) => c,
        None => { return None },
    };
    let items = match c.get("headers") {
        Some(h) => match h {
            JsonValue::Arr(items) => items,
            _ => { return None },
        },
        None => { return None },
    };
    let ghost iv = value_view(*c)->Obj_0[find_field(value_view(*c)->Obj_0, "headers"@)].1->Arr_0;
    proof {
        assert(iv =~= arr_view(items@));
    }
    let mut out: Vec<String> = Vec::new();
    let n = items.len();
    let mut i: usize = 0;
    while i < n
        invariant
            0 <= i <= n,
            out.deep_view() == text_items(arr_view(items@).take(i as int)),
        decreases n - i,
    {
        let ghost pre = arr_view(items@).take(i as int);
        match &items[i] {
            JsonValue::Text(s) => {
                out.push(s.clone());
                proof {
                    assert(arr_view(items@).take(i + 1).drop_last() =~= pre);
                    assert(out.deep_view() =~= text_items(arr_view(items@).take(i + 1)));
                }
            },
            _ => {
                proof {
                    assert(arr_view(items@).take(i + 1).drop_last() =~= pre);
                    assert(out.deep_view() =~= text_items(arr_view(items@).take(i + 1)));
                }
            },
        }
        i = i + 1;
    }
    proof {
        assert(arr_view(items@).take(n as int) =~= arr_view(items@));
        assert(text_items(iv) == text_items(arr_view(items@)));
    }
    Some(out)
}

/// Builds the record for one data row.
#[verifier::loop_isolation(false)]
fn build_row_record(headers: &Vec<String>, row: &Vec<String>) -> (r: JsonValue)
    ensures
        value_view(r) == row_record(headers.deep_view(), row.deep_view()),
{
    let ghost hv = headers.deep_view();
    let ghost rv = row.deep_view();
    let mut fields: Vec<JsonField> = Vec::new();
    let n = row.len();
    let mut i: usize = 0;
    while i < n
        invariant
            0 <= i <= n,
            fields_view(fields@) == row_fields(hv, rv.take(i as int)),
        decreases n - i,
    {
        let ghost pre = rv.take(i as int);
        let name: String = if i < headers.len() {
            headers[i].clone()
        } else {
            let mut s = "column_".to_owned();
            let d = usize_to_dec(i);
            s.append(d.as_str());
            s
        };
        proof {
            assert(name@ == column_name(hv, i as int));
        }
        obj_insert(&mut fields, name, JsonValue::Text(row[i].clone()));
        proof {
            assert(rv.take(i + 1).drop_last() =~= pre);
            assert(rv.take(i + 1).last() == rv[i as int]);
            assert(fields_view(fields@) == row_fields(hv, rv.take(i + 1)));
        }
        i = i + 1;
    }
    proof {
        assert(rv.take(n as int) =~= rv);
    }
    JsonValue::Obj(fields)
}

/// Decodes delimited text, with the decode configuration of the matched
/// rule. Succeeds exactly when the reader accepts the byte stream, and
/// then yields the records that `delimited_records` describes.
#[verifier::loop_isolation(false)]
pub fn parse_csv_with_config(bytes: &[u8], config: Option<&JsonValue>) -> (r: Result<
    Vec<JsonValue>,
    IngestionError,
>)
    ensures
        match r {
            Ok(recs) => delimited_rows(bytes@) matches Some(rows) && arr_view(recs@)
                == delimited_records(rows, headers_of_config(opt_config_view(config))),
            Err(e) => delimited_rows(bytes@) is None && e is Parse,
        },
{
    let mut rows = match read_delimited_rows(bytes) {
        Ok(rows) => rows,
        Err(m) => { return Err(IngestionError::Parse(m)) },
    };
    let ghost all_rows = rows.deep_view();
    let ghost cfg = headers_of_config(opt_config_view(config));
    let headers: Vec<String> = match headers_from_config(config) {
        Some(h) => h,
        None => {
            if rows.len() == 0 {
                proof {
                    assert(arr_view(Seq::<JsonValue>::empty()) =~= delimited_records(
                        all_rows,
                        cfg,
                    ));
                }
                return Ok(Vec::new());
            }
            rows.remove(0)
        },
    };
    let ghost hv = headers.deep_view();
    let ghost data = rows.deep_view();
    proof {
        assert(data =~= match cfg {
            Some(h) => all_rows,
            None => all_rows.drop_first(),
        });
        assert(hv == match cfg {
            Some(h) => h,
            None => all_rows[0],
        });
    }
    let mut recs: Vec<JsonValue> = Vec::new();
    let n = rows.len();
    let mut i: usize = 0;
    while i < n
        invariant
            0 <= i <= n,
            n == rows.len(),
            rows.deep_view() == data,
            recs@.len() == i,
            forall|j: int| 0 <= j < i ==> arr_view(recs@)[j] == row_record(hv, data[j]),
        decreases n - i,
    {
        let ghost pre_recs = recs@;
        let rec = build_row_record(&headers, &rows[i]);
        recs.push(rec);
        proof {
            assert forall|j: int| 0 <= j < i + 1 implies arr_view(recs@)[j] == row_record(
                hv,
                data[j],
            ) by {
                if j < i {
                    assert(recs@[j] == pre_recs[j]);
                    assert(arr_view(pre_recs)[j] == row_record(hv, data[j]));
                } else {
                    assert(recs@[j] == rec);
                    assert(rows@[i as int].deep_view() == data[i as int]);
                }
            }
        }
        i = i + 1;
    }
    proof {
        assert(arr_view(recs@) =~= delimited_records(all_rows, cfg));
    }
    Ok(recs)
}

/// With an explicit header list every row, the first included, is data;
/// without one the first row names the columns and only the remaining
/// rows are data.
pub proof fn lemma_delimited_row_count(rows: Seq<Seq<Seq<char>>>, cfg: Option<Seq<Seq<char>>>)
    ensures
        delimited_records(rows, cfg).len() == (match cfg {
            Some(_) => rows.len(),
            None => if rows.len() == 0 {
                0
            } else {
                (rows.len() - 1) as nat
            },
        }),
{
}

/// Decodes delimited text with the default configuration: the first row
/// names the columns.
pub fn parse_csv(bytes: &[u8]) -> (r: Result<Vec<JsonValue>, IngestionError>)
    ensures
        match r {
            Ok(recs) => delimited_rows(bytes@) matches Some(rows) && arr_view(recs@)
                == delimited_records(rows, None),
            Err(e) => delimited_rows(bytes@) is None && e is Parse,
        },
{
    parse_csv_with_config(bytes, None)
}

} // verus!
