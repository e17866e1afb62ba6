//! Columnar container decoding: batches are read sequentially and
//! transposed row-wise into records. Text and 32/64-bit integer columns
//! convert faithfully; a column of any other type serialises to an opaque
//! debug rendering, a documented limitation rather than an error.

use vstd::prelude::*;
use arrow::record_batch::RecordBatch;
use crate::error::IngestionError;
use crate::value::{
    arr_view, fields_insert, fields_view, value_view, JsonField, JsonValue, ValueView,
};

verus! {

broadcast use crate::value::lemma_obj_value_view;

/// One batch of the columnar reader, held opaquely.
#[verifier::external_body]
pub struct Batch {
    inner: RecordBatch,
}

/// The batches read from a columnar container byte stream, in order;
/// `None` when the header or any batch is malformed. A function of the
/// bytes alone.
pub uninterp spec fn parquet_batches(bytes: Seq<u8>) -> Option<Seq<Batch>>;

/// The column names of a batch, in schema order.
pub uninterp spec fn batch_columns(b: Batch) -> Seq<Seq<char>>;

/// The cell values of a batch, row-wise, in the library's value shape.
pub uninterp spec fn batch_cells(b: Batch) -> Seq<Seq<ValueView>>;

/// Relies on `parquet::arrow::arrow_reader::ParquetRecordBatchReaderBuilder`:
/// reads every batch of the stream; any malformed batch aborts the read.
#[verifier::external_body]
fn read_parquet_batches(bytes: &[u8]) -> (r: Result<Vec<Batch>, String>)
    ensures
        match r {
            Ok(v) => parquet_batches(bytes@) matches Some(bs) && v@ == bs,
            Err(_) => parquet_batches(bytes@) is None,
        },
{
    let data = bytes::Bytes::from(bytes.to_vec());
    let reader = parquet::arrow::arrow_reader::ParquetRecordBatchReaderBuilder::try_new(data)
        .map_err(|e| e.to_string())?
        .build()
        .map_err(|e| e.to_string())?;
    let mut out = Vec::new();
    for batch in reader {
        out.push(Batch { inner: batch.map_err(|e| e.to_string())? });
    }
    Ok(out)
}

/// Relies on `RecordBatch::num_rows`: the row count of a batch.
#[verifier::external_body]
fn batch_row_count(b: &Batch) -> (r: usize)
    ensures
        r == batch_cells(*b).len(),
{
    b.inner.num_rows()
}

/// Relies on `RecordBatch::num_columns`, and on the batch invariant that
/// every column holds one value per row: the column count of a batch.
#[verifier::external_body]
fn batch_col_count(b: &Batch) -> (r: usize)
    ensures
        r == batch_columns(*b).len(),
        forall|i: int| 0 <= i < batch_cells(*b).len() ==> #[trigger] batch_cells(*b)[i].len() == r,
{
    b.inner.num_columns()
}

/// Relies on `RecordBatch::schema_ref` and `arrow::datatypes::Field::name`:
/// the name of one column.
#[verifier::external_body]
fn batch_field_name(b: &Batch, col: usize) -> (r: String)
    requires
        col < batch_columns(*b).len(),
    ensures
        r@ == batch_columns(*b)[col as int],
{
    b.inner.schema_ref().field(col).name().clone()
}

/// Relies on `RecordBatch::column`, `data_type` and the arrow array
/// accessors: one cell, as text for a text column, exactly for a 32- or
/// 64-bit integer column, and as the column's debug rendering otherwise.
#[verifier::external_body]
fn batch_cell(b: &Batch, row: usize, col: usize) -> (r: JsonValue)
    requires
        row < batch_cells(*b).len(),
        col < batch_columns(*b).len(),
    ensures
        value_view(r) == batch_cells(*b)[row as int][col as int],
{
    let column = b.inner.column(col);
    match column.data_type() {
        arrow::datatypes::DataType::Utf8 => JsonValue::Text(
            column.as_any().downcast_ref::<arrow::array::StringArray>().unwrap().value(
                row,
            ).to_string(),
        ),
        arrow::datatypes::DataType::Int32 => JsonValue::Int(
            column.as_any().downcast_ref::<arrow::array::Int32Array>().unwrap().value(row) as i64,
        ),
        arrow::datatypes::DataType::Int64 => JsonValue::Int(
            column.as_any().downcast_ref::<arrow::array::Int64Array>().unwrap().value(row),
        ),
        _ => JsonValue::Text(format!("{:?}", column)),
    }
}

/// One batch row as a field mapping: each cell under its column name,
/// inserted left to right.
pub open spec fn batch_row_fields(names: Seq<Seq<char>>, cells: Seq<ValueView>) -> Seq<
    (Seq<char>, ValueView),
>
    decreases cells.len(),
{
    if cells.len() == 0 {
        Seq::empty()
    } else {
        fields_insert(
            batch_row_fields(names, cells.drop_last()),
            names[cells.len() - 1],
            cells.last(),
        )
    }
}

/// The records of one batch, row-wise.
pub open spec fn batch_records(b: Batch) -> Seq<ValueView> {
    Seq::new(
        batch_cells(b).len(),
        |i: int| ValueView::Obj(batch_row_fields(batch_columns(b), batch_cells(b)[i])),
    )
}

/// The records of a batch list, batch by batch.
pub open spec fn batches_records(bs: Seq<Batch>) -> Seq<ValueView>
    decreases bs.len(),
{
    if bs.len() == 0 {
        Seq::empty()
    } else {
        batches_records(bs.drop_last()) + batch_records(bs.last())
    }
}

/// Builds the record for one batch row.
#[verifier::loop_isolation(false)]
fn build_batch_record(b: &Batch, row: usize) -> (r: JsonValue)
    requires
        row < batch_cells(*b).len(),
    ensures
        value_view(r) == ValueView::Obj(
            batch_row_fields(batch_columns(*b), batch_cells(*b)[row as int]),
        ),
{
    let ghost names = batch_columns(*b);
    let ghost cells = batch_cells(*b)[row as int];
    let n = batch_col_count(b);
    let mut fields: Vec<JsonField> = Vec::new();
    let mut c: usize = 0;
    while c < n
        invariant
            0 <= c <= n,
            fields_view(fields@) == batch_row_fields(names, cells.take(c as int)),
        decreases n - c,
    {
        let ghost pre = cells.take(c as int);
        let name = batch_field_name(b, c);
        let cell = batch_cell(b, row, c);
        crate::value::obj_insert(&mut fields, name, cell);
        proof {
            assert(cells.take(c + 1).drop_last() =~= pre);
            assert(cells.take(c + 1).last() == cells[c as int]);
            assert(fields_view(fields@) == batch_row_fields(names, cells.take(c + 1)));
        }
        c = c + 1;
    }
    proof {
        assert(cells.take(n as int) =~= cells);
    }
    JsonValue::Obj(fields)
}

/// Decodes a columnar container. Succeeds exactly when every batch reads,
/// and then yields the records of every batch in order, transposed
/// row-wise.
#[verifier::loop_isolation(false)]
pub fn parse_parquet(bytes: &[u8]) -> (r: Result<Vec<JsonValue>, IngestionError>)
    ensures
        match r {
            Ok(recs) => parquet_batches(bytes@) matches Some(bs) && arr_view(recs@)
                == batches_records(bs),
            Err(e) => parquet_batches(bytes@) is None && e is Parse,
        },
{
    let batches = match read_parquet_batches(bytes) {
        Ok(bs) => bs,
        Err(m) => { return Err(IngestionError::Parse(m)) },
    };
    let mut recs: Vec<JsonValue> = Vec::new();
    let nb = batches.len();
    let mut i: usize = 0;
    while i < nb
        invariant
            0 <= i <= nb,
            arr_view(recs@) == batches_records(batches@.take(i as int)),
        decreases nb - i,
    {
        let ghost pre = batches@.take(i as int);
        let b = &batches[i];
        let rows = batch_row_count(b);
        let ghost pre_len = recs@.len();
        let mut row: usize = 0;
        while row < rows
            invariant
                0 <= row <= rows,
                rows == batch_cells(batches@[i as int]).len(),
                arr_view(recs@) == batches_records(batches@.take(i as int)) + batch_records(
                    batches@[i as int],
                ).take(row as int),
            decreases rows - row,
        {
            let ghost pre_recs = recs@;
            let rec = build_batch_record(b, row);
            recs.push(rec);
            proof {
                let base = batches_records(batches@.take(i as int));
                let brs = batch_records(batches@[i as int]);
                assert(brs.take(row + 1).drop_last() =~= brs.take(row as int));
                assert forall|j: int| 0 <= j < recs@.len() implies arr_view(recs@)[j] == (base
                    + brs.take(row + 1))[j] by {
                    if j < pre_recs.len() {
                        assert(recs@[j] == pre_recs[j]);
                        assert(arr_view(pre_recs)[j] == (base + brs.take(row as int))[j]);
                    } else {
                        assert(recs@[j] == rec);
                        assert(brs[row as int] == ValueView::Obj(
                            batch_row_fields(
                                batch_columns(batches@[i as int]),
                                batch_cells(batches@[i as int])[row as int],
                            ),
                        ));
                    }
                }
                assert(arr_view(recs@) =~= base + brs.take(row + 1));
            }
            row = row + 1;
        }
        proof {
            assert(batches@.take(i + 1).drop_last() =~= batches@.take(i as int));
            assert(batches@.take(i + 1).last() == batches@[i as int]);
            assert(batch_records(batches@[i as int]).take(rows as int) =~= batch_records(
                batches@[i as int],
            ));
            assert(arr_view(recs@) =~= batches_records(batches@.take(i + 1)));
        }
        i = i + 1;
    }
    proof {
        assert(batches@.take(nb as int) =~= batches@);
    }
    Ok(recs)
}

} // verus!
