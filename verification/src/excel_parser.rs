//! Spreadsheet decoding: only the first worksheet is read, its first row
//! names the columns, and every cell value is stringified. A workbook with
//! no worksheet or no header row yields no records, which is not an error.

use vstd::prelude::*;
use crate::error::IngestionError;
use crate::value::{
    arr_view, fields_insert, fields_view, value_view, JsonField, JsonValue, ValueView,
};

verus! {

broadcast use crate::value::lemma_obj_value_view;

/// The stringified cell grid of the first worksheet of a workbook byte
/// stream: `None` when the bytes are not a readable workbook; `Some(None)`
/// when the workbook has no readable first worksheet; rows of cell texts
/// otherwise. A function of the bytes alone.
pub uninterp spec fn sheet_of(bytes: Seq<u8>) -> Option<Option<Seq<Seq<Seq<char>>>>>;

/// Relies on `calamine::Xlsx` and `worksheet_range_at`: the first
/// worksheet's rows, each cell rendered as text.
#[verifier::external_body]
fn read_first_sheet(bytes: &[u8]) -> (r: Result<Option<Vec<Vec<String>>>, String>)
    ensures
        match r {
            Ok(o) => sheet_of(bytes@) matches Some(g) && (match g {
                Some(grid) => o matches Some(v) && v.deep_view() == grid,
                None => o is None,
            }),
            Err(_) => sheet_of(bytes@) is None,
        },
{
    let mut workbook: calamine::Xlsx<_> = match calamine::Reader::new(std::io::Cursor::new(bytes)) {
        Ok(w) => w,
        Err(e) => return Err(e.to_string()),
    };
    match calamine::Reader::worksheet_range_at(&mut workbook, 0) {
        Some(Ok(range)) => Ok(
            Some(range.rows().map(|r| r.iter().map(|c| c.to_string()).collect()).collect()),
        ),
        _ => Ok(None),
    }
}

/// One worksheet row as a field mapping: each cell as text under its
/// column's header, inserted left to right; cells beyond the last header
/// are dropped.
pub open spec fn sheet_row_fields(headers: Seq<Seq<char>>, row: Seq<Seq<char>>) -> Seq<
    (Seq<char>, ValueView),
>
    decreases row.len(),
{
    if row.len() == 0 {
        Seq::empty()
    } else {
        let rest = sheet_row_fields(headers, row.drop_last());
        if row.len() - 1 < headers.len() {
            fields_insert(rest, headers[row.len() - 1], ValueView::Text(row.last()))
        } else {
            rest
        }
    }
}

/// What decoding a worksheet grid yields: the first row names the columns
/// and every further row is one record.
pub open spec fn sheet_records(grid: Seq<Seq<Seq<char>>>) -> Seq<ValueView> {
    if grid.len() == 0 {
        Seq::empty()
    } else {
        Seq::new(
            (grid.len() - 1) as nat,
            |i: int| ValueView::Obj(sheet_row_fields(grid[0], grid[i + 1])),
        )
    }
}

/// Builds the record for one worksheet row.
#[verifier::loop_isolation(false)]
fn build_sheet_record(headers: &Vec<String>, row: &Vec<String>) -> (r: JsonValue)
    ensures
        value_view(r) == ValueView::Obj(sheet_row_fields(headers.deep_view(), row.deep_view())),
{
    let ghost hv = headers.deep_view();
    let ghost rv = row.deep_view();
    let mut fields: Vec<JsonField> = Vec::new();
    let n = row.len();
    let mut i: usize = 0;
    while i < n
        invariant
            0 <= i <= n,
            fields_view(fields@) == sheet_row_fields(hv, rv.take(i as int)),
        decreases n - i,
    {
        let ghost pre = rv.take(i as int);
        if i < headers.len() {
            crate::value::obj_insert(
                &mut fields,
                headers[i].clone(),
                JsonValue::Text(row[i].clone()),
            );
        }
        proof {
            assert(rv.take(i + 1).drop_last() =~= pre);
            assert(rv.take(i + 1).last() == rv[i as int]);
            assert(fields_view(fields@) == sheet_row_fields(hv, rv.take(i + 1)));
        }
        i = i + 1;
    }
    proof {
        assert(rv.take(n as int) =~= rv);
    }
    JsonValue::Obj(fields)
}

/// Decodes a spreadsheet workbook. Succeeds exactly when the bytes open as
/// a workbook; a missing or empty first worksheet yields no records, and
/// otherwise the records are those that `sheet_records` describes.
#[verifier::loop_isolation(false)]
pub fn parse_excel(bytes: &[u8]) -> (r: Result<Vec<JsonValue>, IngestionError>)
    ensures
        match r {
            Ok(recs) => sheet_of(bytes@) matches Some(g) && arr_view(recs@) == (match g {
                Some(grid) => sheet_records(grid),
                None => Seq::<ValueView>::empty(),
            }),
            Err(e) => sheet_of(bytes@) is None && e is Parse,
        },
{
    let grid = match read_first_sheet(bytes) {
        Ok(Some(g)) => g,
        Ok(None) => {
            let recs: Vec<JsonValue> = Vec::new();
            proof {
                assert(arr_view(recs@) =~= Seq::<ValueView>::empty());
            }
            return Ok(recs);
        },
        Err(m) => { return Err(IngestionError::Parse(m)) },
    };
    let ghost gv = grid.deep_view();
    if grid.len() == 0 {
        let recs: Vec<JsonValue> = Vec::new();
        proof {
            assert(arr_view(recs@) =~= sheet_records(gv));
        }
        return Ok(recs);
    }
    let headers: &Vec<String> = &grid[0];
    let mut recs: Vec<JsonValue> = Vec::new();
    let n = grid.len();
    let mut i: usize = 1;
    while i < n
        invariant
            1 <= i <= n,
            recs@.len() == i - 1,
            forall|j: int| 0 <= j < i - 1 ==> arr_view(recs@)[j] == sheet_records(gv)[j],
        decreases n - i,
    {
        let ghost pre_recs = recs@;
        let rec = build_sheet_record(headers, &grid[i]);
        recs.push(rec);
        proof {
            assert forall|j: int| 0 <= j < i implies arr_view(recs@)[j] == sheet_records(gv)[j] by {
                if j < i - 1 {
                    assert(recs@[j] == pre_recs[j]);
                    assert(arr_view(pre_recs)[j] == sheet_records(gv)[j]);
                } else {
                    assert(recs@[j] == rec);
                    assert(grid@[0].deep_view() == gv[0]);
                    assert(grid@[i as int].deep_view() == gv[i as int]);
                }
            }
        }
        i = i + 1;
    }
    proof {
        assert(arr_view(recs@) =~= sheet_records(gv));
    }
    Ok(recs)
}

} // verus!
