//! Trigger notifications: a payload names zero or more stored objects,
//! each by container and key. An entry missing either name is skipped,
//! not fatal to the remaining entries; only an unreadable payload is an
//! error.

use vstd::prelude::*;
use crate::error::IngestionError;
use crate::json_parser::{json_doc, parse_json_value};
use crate::models::FileToProcess;
use crate::value::{find_field, value_view, JsonValue, ValueView};

verus! {

broadcast use crate::value::lemma_arr_value_view, crate::value::lemma_obj_value_view;

/// The value of the first field of an object under a name, if any.
pub open spec fn obj_field(v: ValueView, name: Seq<char>) -> Option<ValueView> {
    match v {
        ValueView::Obj(fs) => {
            let k = find_field(fs, name);
            if k >= 0 {
                Some(fs[k].1)
            } else {
                None
            }
        },
        _ => None,
    }
}

/// The container and key named by one notification entry, when the entry
/// carries both under its storage record; `None` otherwise.
pub open spec fn entry_file(e: ValueView) -> Option<(Seq<char>, Seq<char>)> {
    match obj_field(e, "s3"@) {
        Some(s3) => match (obj_field(s3, "bucket"@), obj_field(s3, "object"@)) {
            (Some(bucket), Some(object)) => match (
                obj_field(bucket, "name"@),
                obj_field(object, "key"@),
            ) {
                (Some(ValueView::Text(n)), Some(ValueView::Text(k))) => Some((n, k)),
                _ => None,
            },
            _ => None,
        },
        None => None,
    }
}

/// The files named by a list of entries, in order, entries without both
/// names skipped.
pub open spec fn files_of(items: Seq<ValueView>) -> Seq<(Seq<char>, Seq<char>)>
    decreases items.len(),
{
    if items.len() == 0 {
        Seq::empty()
    } else {
        let rest = files_of(items.drop_last());
        match entry_file(items.last()) {
            Some(f) => rest.push(f),
            None => rest,
        }
    }
}

/// The files named by a whole notification document: those of its
/// `Records` list, or none when the document has no such list.
pub open spec fn notification_files(doc: ValueView) -> Seq<(Seq<char>, Seq<char>)> {
    match obj_field(doc, "Records"@) {
        Some(v) => match v {
            ValueView::Arr(items) => files_of(items),
            _ => Seq::empty(),
        },
        None => Seq::empty(),
    }
}

/// The views of a file list.
pub open spec fn files_view(files: Seq<FileToProcess>) -> Seq<(Seq<char>, Seq<char>)> {
    Seq::new(
        files.len(),
        |i: int|
            if 0 <= i < files.len() {
                (files[i].bucket@, files[i].key@)
            } else {
                (Seq::empty(), Seq::empty())
            },
    )
}

/// The container and key of one entry, as `entry_file` describes.
fn entry_to_file(e: &JsonValue) -> (r: Option<FileToProcess>)
    ensures
        match entry_file(value_view(*e)) {
            Some(f) => r matches Some(file) && file.bucket@ == f.0 && file.key@ == f.1,
            None => r is None,
        },
{
    proof {
        crate::value::lemma_value_view_shape(*e);
    }
    let s3 = match e.get("s3") {
        Some(v) => v,
        None => { return None },
    };
    proof {
        crate::value::lemma_value_view_shape(*s3);
    }
    let bucket = match s3.get("bucket") {
        Some(v) => v,
        None => { return None },
    };
    let object = match s3.get("object") {
        Some(v) => v,
        None => { return None },
    };
    proof {
        crate::value::lemma_value_view_shape(*bucket);
        crate::value::lemma_value_view_shape(*object);
    }
    let name = match bucket.get("name") {
        Some(v) => match v {
            JsonValue::Text(s) => s.clone(),
            _ => {
                proof {
                    crate::value::lemma_value_view_shape(*v);
                }
                return None
            },
        },
        None => { return None },
    };
    let key = match object.get("key") {
        Some(v) => match v {
            JsonValue::Text(s) => s.clone(),
            _ => {
                proof {
                    crate::value::lemma_value_view_shape(*v);
                }
                return None
            },
        },
        None => { return None },
    };
    Some(FileToProcess { bucket: name, key })
}

/// Reads a notification payload: the named files in order, entries
/// missing a container or key skipped. Fails exactly when the payload is
/// not a well-formed document.
#[verifier::loop_isolation(false)]
pub fn parse_notification(body: &[u8]) -> (r: Result<Vec<FileToProcess>, IngestionError>)
    ensures
        match r {
            Ok(files) => json_doc(body@) matches Some(d) && files_view(files@)
                == notification_files(d),
            Err(e) => json_doc(body@) is None && e is Parse,
        },
{
    let doc = match parse_json_value(body) {
        Ok(v) => v,
        Err(m) => { return Err(IngestionError::Parse(m)) },
    };
    let mut out: Vec<FileToProcess> = Vec::new();
    let items = match doc.get("Records") {
        Some(v) => match v {
            JsonValue::Arr(items) => items,
            _ => {
                proof {
                    crate::value::lemma_value_view_shape(*v);
                    assert(files_view(out@) =~= notification_files(value_view(doc)));
                }
                return Ok(out);
            },
        },
        None => {
            proof {
                assert(files_view(out@) =~= notification_files(value_view(doc)));
            }
            return Ok(out);
        },
    };
    let ghost iv = crate::value::arr_view(items@);
    proof {
        assert(notification_files(value_view(doc)) == files_of(iv));
    }
    let n = items.len();
    let mut i: usize = 0;
    while i < n
        invariant
            0 <= i <= n,
            files_view(out@) == files_of(iv.take(i as int)),
        decreases n - i,
    {
        let ghost pre = out@;
        proof {
            assert(iv.take(i + 1).drop_last() =~= iv.take(i as int));
            assert(iv.take(i + 1).last() == iv[i as int]);
        }
        match entry_to_file(&items[i]) {
            Some(f) => {
                out.push(f);
                proof {
                    assert(files_view(out@) =~= files_view(pre).push(
                        (out@.last().bucket@, out@.last().key@),
                    ));
                }
            },
            None => {},
        }
        i = i + 1;
    }
    proof {
        assert(iv.take(n as int) =~= iv);
    }
    Ok(out)
}

} // verus!
