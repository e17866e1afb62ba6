//! The uniform record representation: a JSON-like value tree.
//!
//! Every decoder produces a sequence of these values, one per record, and
//! the orchestrator tags them with provenance fields before they are handed
//! to the persistence capability.

use vstd::prelude::*;
use crate::strutil::str_eq;

verus! {

broadcast use vstd::std_specs::vec::group_vec_axioms;

/// One named field of an object value.
pub struct JsonField {
    pub name: String,
    pub value: JsonValue,
}

/// A JSON-like value: the uniform shape every decoder normalises into.
///
/// Numbers that fit a signed 64-bit integer are held exactly; any other
/// number is carried as its decimal rendering, since the core never
/// computes with record values.
pub enum JsonValue {
    Null,
    Bool(bool),
    Int(i64),
    Num(String),
    Text(String),
    Arr(Vec<JsonValue>),
    Obj(Vec<JsonField>),
}

/// The mathematical shape of a `JsonValue`: strings become character
/// sequences, vectors become sequences. Two values with equal views are
/// structurally identical records.
pub enum ValueView {
    Null,
    Bool(bool),
    Int(int),
    Num(Seq<char>),
    Text(Seq<char>),
    Arr(Seq<ValueView>),
    Obj(Seq<(Seq<char>, ValueView)>),
}

// In the two recursive arms below, the closures guard their index so that
// the recursive call is only made on a child of `v`, which is what lets
// the termination checker accept the definition; out of range the closure
// is never relevant to the sequence that `Seq::new` builds.
pub open spec fn value_view(v: JsonValue) -> ValueView
    decreases v,
{
    match v {
        JsonValue::Null => ValueView::Null,
        JsonValue::Bool(b) => ValueView::Bool(b),
        JsonValue::Int(i) => ValueView::Int(i as int),
        JsonValue::Num(s) => ValueView::Num(s@),
        JsonValue::Text(s) => ValueView::Text(s@),
        JsonValue::Arr(vs) => ValueView::Arr(
            Seq::new(
                vs@.len(),
                |i: int|
                    if 0 <= i < vs@.len() {
                        value_view(vs@[i])
                    } else {
                        ValueView::Null
                    },
            ),
        ),
        JsonValue::Obj(fs) => ValueView::Obj(
            Seq::new(
                fs@.len(),
                |i: int|
                    if 0 <= i < fs@.len() {
                        (fs@[i].name@, value_view(fs@[i].value))
                    } else {
                        (Seq::empty(), ValueView::Null)
                    },
            ),
        ),
    }
}

impl View for JsonValue {
    type V = ValueView;

    open spec fn view(&self) -> ValueView {
        value_view(*self)
    }
}

/// The view of each value in a sequence of values.
pub open spec fn arr_view(vs: Seq<JsonValue>) -> Seq<ValueView> {
    Seq::new(
        vs.len(),
        |i: int|
            if 0 <= i < vs.len() {
                value_view(vs[i])
            } else {
                ValueView::Null
            },
    )
}

/// The view of each field in a sequence of fields: name and value.
pub open spec fn fields_view(fs: Seq<JsonField>) -> Seq<(Seq<char>, ValueView)> {
    Seq::new(
        fs.len(),
        |i: int|
            if 0 <= i < fs.len() {
                (fs[i].name@, value_view(fs[i].value))
            } else {
                (Seq::empty(), ValueView::Null)
            },
    )
}

pub broadcast proof fn lemma_arr_value_view(vs: Vec<JsonValue>)
    ensures
        #[trigger] value_view(JsonValue::Arr(vs)) == ValueView::Arr(arr_view(vs@)),
{
    assert(value_view(JsonValue::Arr(vs))->Arr_0 =~= arr_view(vs@));
}

pub broadcast proof fn lemma_obj_value_view(fs: Vec<JsonField>)
    ensures
        #[trigger] value_view(JsonValue::Obj(fs)) == ValueView::Obj(fields_view(fs@)),
{
    assert(value_view(JsonValue::Obj(fs))->Obj_0 =~= fields_view(fs@));
}

/// A value and its view agree on which shape they have.
pub proof fn lemma_value_view_shape(v: JsonValue)
    ensures
        value_view(v) is Obj <==> v is Obj,
        value_view(v) is Arr <==> v is Arr,
        value_view(v) is Text <==> v is Text,
{
    match v {
        JsonValue::Null => {},
        JsonValue::Bool(_) => {},
        JsonValue::Int(_) => {},
        JsonValue::Num(_) => {},
        JsonValue::Text(_) => {},
        JsonValue::Arr(_) => {},
        JsonValue::Obj(_) => {},
    }
}

/// The position of the first field named `name`, or -1 if there is none.
pub open spec fn find_field(fs: Seq<(Seq<char>, ValueView)>, name: Seq<char>) -> int
    decreases fs.len(),
{
    if fs.len() == 0 {
        -1
    } else if fs[0].0 == name {
        0
    } else {
        let r = find_field(fs.drop_first(), name);
        if r == -1 {
            -1
        } else {
            r + 1
        }
    }
}

/// What `find_field` finds: the first position bearing the name, if any.
pub proof fn lemma_find_field(fs: Seq<(Seq<char>, ValueView)>, name: Seq<char>)
    ensures
        find_field(fs, name) == -1 ==> forall|j: int| 0 <= j < fs.len() ==> fs[j].0 != name,
        find_field(fs, name) != -1 ==> {
            let k = find_field(fs, name);
            &&& 0 <= k < fs.len()
            &&& fs[k].0 == name
            &&& forall|j: int| 0 <= j < k ==> fs[j].0 != name
        },
    decreases fs.len(),
{
    if fs.len() > 0 && fs[0].0 != name {
        let tail = fs.drop_first();
        lemma_find_field(tail, name);
        let r = find_field(tail, name);
        if r == -1 {
            assert forall|j: int| 0 <= j < fs.len() implies fs[j].0 != name by {
                if j > 0 {
                    assert(fs[j] == tail[j - 1]);
                }
            }
        } else {
            assert(fs[r + 1] == tail[r]);
            assert forall|j: int| 0 <= j < r + 1 implies fs[j].0 != name by {
                if j > 0 {
                    assert(fs[j] == tail[j - 1]);
                }
            }
        }
    }
}

/// Insertion into an ordered field mapping: the first field bearing the
/// name is replaced in place; a fresh name is appended at the end.
pub open spec fn fields_insert(
    fs: Seq<(Seq<char>, ValueView)>,
    name: Seq<char>,
    v: ValueView,
) -> Seq<(Seq<char>, ValueView)> {
    let k = find_field(fs, name);
    if k == -1 {
        fs.push((name, v))
    } else {
        fs.update(k, (name, v))
    }
}

/// Tagging: an object value gains (or overwrites) one field; any other
/// value is left untouched.
pub open spec fn tag_view(v: ValueView, name: Seq<char>, tag: ValueView) -> ValueView {
    match v {
        ValueView::Obj(fs) => ValueView::Obj(fields_insert(fs, name, tag)),
        _ => v,
    }
}

/// Whether a value is an object carrying a field of the given name and
/// value.
pub open spec fn has_field(v: ValueView, name: Seq<char>, val: ValueView) -> bool {
    match v {
        ValueView::Obj(fs) => {
            let k = find_field(fs, name);
            k >= 0 && fs[k].1 == val
        },
        _ => false,
    }
}

/// A position that carries the name first is the one `find_field` finds.
pub proof fn lemma_find_field_is(fs: Seq<(Seq<char>, ValueView)>, name: Seq<char>, k: int)
    requires
        0 <= k < fs.len(),
        fs[k].0 == name,
        forall|j: int| 0 <= j < k ==> fs[j].0 != name,
    ensures
        find_field(fs, name) == k,
{
    lemma_find_field(fs, name);
    let f = find_field(fs, name);
    if f == -1 {
        assert(fs[k].0 != name);
    } else if f < k {
        assert(fs[f].0 != name);
    } else if f > k {
        assert(fs[k].0 != name);
    }
}

/// Insertion leaves the inserted field behind, under its name.
pub proof fn lemma_fields_insert_found(fs: Seq<(Seq<char>, ValueView)>, name: Seq<char>, v: ValueView)
    ensures
        has_field(ValueView::Obj(fields_insert(fs, name, v)), name, v),
{
    lemma_find_field(fs, name);
    let fs2 = fields_insert(fs, name, v);
    let k0 = find_field(fs, name);
    if k0 == -1 {
        lemma_find_field_is(fs2, name, fs.len() as int);
    } else {
        lemma_find_field_is(fs2, name, k0);
    }
}

/// Insertion under one name does not disturb a field of another name.
pub proof fn lemma_fields_insert_other(
    fs: Seq<(Seq<char>, ValueView)>,
    name: Seq<char>,
    v: ValueView,
    other: Seq<char>,
    val: ValueView,
)
    requires
        other != name,
        has_field(ValueView::Obj(fs), other, val),
    ensures
        has_field(ValueView::Obj(fields_insert(fs, name, v)), other, val),
{
    lemma_find_field(fs, other);
    lemma_find_field(fs, name);
    let k = find_field(fs, other);
    let fs2 = fields_insert(fs, name, v);
    lemma_find_field_is(fs2, other, k);
}

impl JsonValue {
    /// The value of the first field named `name`, when this value is an
    /// object that has one; `None` otherwise.
    #[verifier::loop_isolation(false)]
    pub fn get<'a>(&'a self, name: &str) -> (r: Option<&'a JsonValue>)
        ensures
            match *self {
                JsonValue::Obj(fs) => {
                    let k = find_field(fields_view(fs@), name@);
                    if k >= 0 {
                        r matches Some(v) && value_view(*v) == fields_view(fs@)[k].1
                    } else {
                        r is None
                    }
                },
                _ => r is None,
            },
    {
        match self {
            JsonValue::Obj(fs) => {
                proof {
                    lemma_find_field(fields_view(fs@), name@);
                }
                let n = fs.len();
                let mut i: usize = 0;
                while i < n
                    invariant
                        0 <= i <= n,
                        forall|j: int| 0 <= j < i ==> fields_view(fs@)[j].0 != name@,
                    decreases n - i,
                {
                    if str_eq(fs[i].name.as_str(), name) {
                        proof {
                            assert(fields_view(fs@)[i as int].0 == name@);
                            assert(find_field(fields_view(fs@), name@) == i);
                        }
                        return Some(&fs[i].value);
                    }
                    i = i + 1;
                }
                None
            },
            _ => None,
        }
    }
}

/// Tagging leaves a value's shape alone, puts the tag on every object,
/// and does not disturb a field of another name.
pub proof fn lemma_tag_view(v: ValueView, name: Seq<char>, tag: ValueView)
    ensures
        tag_view(v, name, tag) is Obj <==> v is Obj,
        v is Obj ==> has_field(tag_view(v, name, tag), name, tag),
        forall|other: Seq<char>, val: ValueView|
            other != name && has_field(v, other, val) ==> has_field(
                #[trigger] tag_view(v, name, tag),
                other,
                val,
            ),
{
    match v {
        ValueView::Obj(fs) => {
            lemma_fields_insert_found(fs, name, tag);
            assert forall|other: Seq<char>, val: ValueView|
                other != name && has_field(v, other, val) implies has_field(
                tag_view(v, name, tag),
                other,
                val,
            ) by {
                lemma_fields_insert_other(fs, name, tag, other, val);
            }
        },
        _ => {},
    }
}

/// Tags one record: an object gains (or overwrites) the field, any other
/// value is returned untouched.
pub fn tag_record(rec: JsonValue, name: &str, value: &String) -> (r: JsonValue)
    ensures
        value_view(r) == tag_view(value_view(rec), name@, ValueView::Text(value@)),
{
    proof {
        lemma_value_view_shape(rec);
    }
    match rec {
        JsonValue::Obj(mut fs) => {
            proof {
                lemma_obj_value_view(fs);
            }
            let ghost fs0 = fields_view(fs@);
            obj_insert(&mut fs, name.to_owned(), JsonValue::Text(value.clone()));
            let r = JsonValue::Obj(fs);
            proof {
                lemma_obj_value_view(fs);
                assert(fields_view(fs@) == fields_insert(fs0, name@, ValueView::Text(value@)));
            }
            r
        },
        other => other,
    }
}

/// Tags every record of a batch, in place of the batch.
#[verifier::loop_isolation(false)]
pub fn tag_documents(docs: Vec<JsonValue>, name: &str, value: &String) -> (r: Vec<JsonValue>)
    ensures
        arr_view(r@) == Seq::new(
            arr_view(docs@).len(),
            |i: int| tag_view(arr_view(docs@)[i], name@, ValueView::Text(value@)),
        ),
{
    let ghost dv = arr_view(docs@);
    let mut rest = docs;
    let mut out: Vec<JsonValue> = Vec::new();
    let n = rest.len();
    let mut i: usize = 0;
    while i < n
        invariant
            0 <= i <= n,
            rest.len() == n - i,
            forall|j: int| 0 <= j < n - i ==> arr_view(rest@)[j] == dv[j + i],
            out.len() == i,
            forall|j: int|
                0 <= j < i ==> arr_view(out@)[j] == tag_view(dv[j], name@, ValueView::Text(value@)),
        decreases n - i,
    {
        let ghost pre_rest = rest@;
        let ghost pre_out = out@;
        let d = rest.remove(0);
        proof {
            assert(arr_view(pre_rest)[0] == dv[i as int]);
            assert(value_view(d) == dv[i as int]);
        }
        let tagged = tag_record(d, name, value);
        out.push(tagged);
        proof {
            assert forall|j: int| 0 <= j < n - (i + 1) implies arr_view(rest@)[j] == dv[j + i
                + 1] by {
                assert(rest@[j] == pre_rest[j + 1]);
                assert(arr_view(pre_rest)[j + 1] == dv[j + 1 + i]);
            }
            assert forall|j: int| 0 <= j < i + 1 implies arr_view(out@)[j] == tag_view(
                dv[j],
                name@,
                ValueView::Text(value@),
            ) by {
                if j < i {
                    assert(out@[j] == pre_out[j]);
                    assert(arr_view(pre_out)[j] == tag_view(dv[j], name@, ValueView::Text(value@)));
                } else {
                    assert(out@[j] == tagged);
                }
            }
        }
        i = i + 1;
    }
    proof {
        assert(arr_view(out@) =~= Seq::new(
            dv.len(),
            |i: int| tag_view(dv[i], name@, ValueView::Text(value@)),
        ));
    }
    out
}

/// Inserts a field into an ordered field list, replacing the first field
/// of the same name if one exists.
#[verifier::loop_isolation(false)]
pub fn obj_insert(fields: &mut Vec<JsonField>, name: String, value: JsonValue)
    ensures
        fields_view(final(fields)@) == fields_insert(fields_view(old(fields)@), name@, value@),
{
    let ghost fs0 = fields_view(old(fields)@);
    proof {
        lemma_find_field(fs0, name@);
    }
    let n = fields.len();
    let mut i: usize = 0;
    while i < n
        invariant
            n == fields.len(),
            0 <= i <= n,
            *fields == *old(fields),
            forall|j: int| 0 <= j < i ==> fields_view(fields@)[j].0 != name@,
        decreases n - i,
    {
        if str_eq(fields[i].name.as_str(), name.as_str()) {
            proof {
                assert(fs0[i as int].0 == name@);
                assert(find_field(fs0, name@) == i);
            }
            fields[i] = JsonField { name, value };
            proof {
                assert(fields_view(fields@) =~~= fs0.update(i as int, (name@, value@)));
            }
            return ;
        }
        i = i + 1;
    }
    fields.push(JsonField { name, value });
    proof {
        assert(find_field(fs0, name@) == -1);
        assert(fields_view(fields@) =~~= fs0.push((name@, value@)));
    }
}

} // verus!
