//! Plaintext decoding: one record per line, carrying the 1-based line
//! number and the line's text.

use vstd::prelude::*;
use vstd::slice::{slice_subrange, slice_to_vec};
use vstd::utf8::{decode_utf8, valid_utf8};
use crate::error::IngestionError;
use crate::value::{arr_view, fields_view, value_view, JsonField, JsonValue, ValueView};

verus! {

broadcast use crate::value::lemma_obj_value_view;

/// Relies on `String::from_utf8`: yields the decoded text exactly when the
/// bytes are valid UTF-8, as vstd's `valid_utf8` and `decode_utf8` state.
#[verifier::external_body]
fn utf8_to_string(bytes: Vec<u8>) -> (r: Result<String, String>)
    ensures
        match r {
            Ok(s) => valid_utf8(bytes@) && s@ == decode_utf8(bytes@),
            Err(_) => !valid_utf8(bytes@),
        },
{
    String::from_utf8(bytes).map_err(|e| e.to_string())
}

/// The position of the first newline byte, or the length when there is
/// none.
pub open spec fn first_nl(bytes: Seq<u8>) -> int
    decreases bytes.len(),
{
    if bytes.len() == 0 {
        0
    } else if bytes[0] == 10u8 {
        0
    } else {
        1 + first_nl(bytes.drop_first())
    }
}

/// What `first_nl` finds: the first newline, when the stream has one.
pub proof fn lemma_first_nl(bytes: Seq<u8>)
    ensures
        0 <= first_nl(bytes) <= bytes.len(),
        first_nl(bytes) < bytes.len() ==> bytes[first_nl(bytes)] == 10u8 && forall|j: int|
            0 <= j < first_nl(bytes) ==> bytes[j] != 10u8,
        first_nl(bytes) == bytes.len() ==> forall|j: int|
            0 <= j < bytes.len() ==> bytes[j] != 10u8,
    decreases bytes.len(),
{
    if bytes.len() > 0 && bytes[0] != 10u8 {
        let tail = bytes.drop_first();
        lemma_first_nl(tail);
        let k = first_nl(bytes);
        if k < bytes.len() {
            assert(bytes[k] == tail[k - 1]);
            assert forall|j: int| 0 <= j < k implies bytes[j] != 10u8 by {
                if j > 0 {
                    assert(bytes[j] == tail[j - 1]);
                }
            }
        } else {
            assert forall|j: int| 0 <= j < bytes.len() implies bytes[j] != 10u8 by {
                if j > 0 {
                    assert(bytes[j] == tail[j - 1]);
                }
            }
        }
    }
}

/// One carriage return stripped from the end of a line that ended at a
/// newline.
pub open spec fn strip_cr(line: Seq<u8>) -> Seq<u8> {
    if line.len() > 0 && line.last() == 13u8 {
        line.drop_last()
    } else {
        line
    }
}

/// The lines of a byte stream: split at each newline, one carriage return
/// stripped from the end of every line that ended at a newline, and no
/// final empty line after a trailing newline.
pub open spec fn split_lines(bytes: Seq<u8>) -> Seq<Seq<u8>>
    decreases bytes.len() via split_lines_dec
{
    if bytes.len() == 0 {
        Seq::empty()
    } else {
        let k = first_nl(bytes);
        if k == bytes.len() {
            seq![bytes]
        } else {
            seq![strip_cr(bytes.take(k))] + split_lines(bytes.skip(k + 1))
        }
    }
}

#[via_fn]
proof fn split_lines_dec(bytes: Seq<u8>) {
    lemma_first_nl(bytes);
}

/// One line as a record: its 1-based number and its text.
pub open spec fn line_record(n: int, content: Seq<char>) -> ValueView {
    ValueView::Obj(
        seq![("line_number"@, ValueView::Int(n)), ("content"@, ValueView::Text(content))],
    )
}

/// What decoding plaintext yields: one record per line, in order.
pub open spec fn txt_records(bytes: Seq<u8>) -> Seq<ValueView> {
    Seq::new(
        split_lines(bytes).len(),
        |i: int| line_record(i + 1, decode_utf8(split_lines(bytes)[i])),
    )
}

/// Splits a byte stream into its lines.
#[verifier::loop_isolation(false)]
fn split_byte_lines(bytes: &[u8]) -> (r: Vec<Vec<u8>>)
    ensures
        r.deep_view() == split_lines(bytes@),
{
    let mut out: Vec<Vec<u8>> = Vec::new();
    let mut rest: &[u8] = bytes;
    loop
        invariant
            split_lines(bytes@) == out.deep_view() + split_lines(rest@),
        decreases rest@.len(),
    {
        let n = rest.len();
        if n == 0 {
            proof {
                assert(out.deep_view() =~~= split_lines(bytes@));
            }
            return out;
        }
        proof {
            lemma_first_nl(rest@);
        }
        let mut k: usize = 0;
        while k < n && rest[k] != 10u8
            invariant
                0 <= k <= n,
                forall|j: int| 0 <= j < k ==> rest@[j] != 10u8,
            decreases n - k,
        {
            k = k + 1;
        }
        proof {
            let f = first_nl(rest@);
            if f < k {
                assert(rest@[f] != 10u8);
            }
            if k < f {
                assert(rest@[k as int] != 10u8);
            }
            assert(first_nl(rest@) == k);
        }
        let ghost pre = out.deep_view();
        let ghost prev_rest = rest@;
        if k == n {
            out.push(slice_to_vec(rest));
            proof {
                assert(out.deep_view() =~~= pre.push(rest@));
                assert(out.deep_view() =~~= split_lines(bytes@));
            }
            return out;
        }
        let end = if k > 0 && rest[k - 1] == 13u8 {
            k - 1
        } else {
            k
        };
        let line = slice_to_vec(slice_subrange(rest, 0, end));
        proof {
            assert(line@ =~= strip_cr(rest@.take(k as int)));
        }
        out.push(line);
        rest = slice_subrange(rest, k + 1, n);
        proof {
            assert(rest@ =~= prev_rest.skip(k + 1));
            assert(out.deep_view() =~~= pre.push(line@));
            assert(split_lines(prev_rest) == seq![strip_cr(prev_rest.take(k as int))]
                + split_lines(prev_rest.skip(k + 1)));
            assert(split_lines(bytes@) =~~= out.deep_view() + split_lines(rest@));
        }
    }
}

/// Builds the record for one line.
fn build_line_record(number: i64, content: String) -> (r: JsonValue)
    ensures
        value_view(r) == line_record(number as int, content@),
{
    let mut fields: Vec<JsonField> = Vec::new();
    fields.push(JsonField { name: "line_number".to_owned(), value: JsonValue::Int(number) });
    fields.push(JsonField { name: "content".to_owned(), value: JsonValue::Text(content) });
    let r = JsonValue::Obj(fields);
    proof {
        assert(fields_view(fields@) =~= line_record(number as int, content@)->Obj_0);
    }
    r
}

/// Decodes plaintext: one record per line. Succeeds exactly when every
/// line is valid UTF-8, and then yields the records that `txt_records`
/// describes.
#[verifier::loop_isolation(false)]
pub fn parse_txt(bytes: &[u8]) -> (r: Result<Vec<JsonValue>, IngestionError>)
    requires
        bytes@.len() < 0x8000_0000_0000_0000,
    ensures
        match r {
            Ok(recs) => arr_view(recs@) == txt_records(bytes@) && forall|i: int|
                0 <= i < split_lines(bytes@).len() ==> valid_utf8(split_lines(bytes@)[i]),
            Err(e) => e is Parse && exists|i: int|
                0 <= i < split_lines(bytes@).len() && !valid_utf8(split_lines(bytes@)[i]),
        },
{
    let lines = split_byte_lines(bytes);
    proof {
        lemma_split_lines_count(bytes@);
    }
    let mut recs: Vec<JsonValue> = Vec::new();
    let n = lines.len();
    let mut i: usize = 0;
    while i < n
        invariant
            0 <= i <= n,
            recs@.len() == i,
            forall|j: int| 0 <= j < i ==> valid_utf8(split_lines(bytes@)[j]),
            forall|j: int| 0 <= j < i ==> arr_view(recs@)[j] == txt_records(bytes@)[j],
        decreases n - i,
    {
        let ghost pre_recs = recs@;
        proof {
            assert(lines.deep_view()[i as int] =~= lines@[i as int]@);
            assert(lines.deep_view()[i as int] == lines@[i as int]@);
            assert(lines@[i as int]@ == split_lines(bytes@)[i as int]);
        }
        let line = slice_to_vec(lines[i].as_slice());
        let content = match utf8_to_string(line) {
            Ok(s) => s,
            Err(m) => { return Err(IngestionError::Parse(m)) },
        };
        let rec = build_line_record((i + 1) as i64, content);
        recs.push(rec);
        proof {
            assert forall|j: int| 0 <= j < i + 1 implies arr_view(recs@)[j] == txt_records(
                bytes@,
            )[j] by {
                if j < i {
                    assert(recs@[j] == pre_recs[j]);
                    assert(arr_view(pre_recs)[j] == txt_records(bytes@)[j]);
                } else {
                    assert(recs@[j] == rec);
                }
            }
        }
        i = i + 1;
    }
    proof {
        assert(arr_view(recs@) =~= txt_records(bytes@));
    }
    Ok(recs)
}

/// A byte stream has no more lines than bytes.
pub proof fn lemma_split_lines_count(bytes: Seq<u8>)
    ensures
        split_lines(bytes).len() <= bytes.len(),
    decreases bytes.len(),
{
    if bytes.len() > 0 {
        lemma_first_nl(bytes);
        let k = first_nl(bytes);
        if k < bytes.len() {
            lemma_split_lines_count(bytes.skip(k + 1));
        }
    }
}

} // verus!
