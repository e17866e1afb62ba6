//! Markup decoding: records are delimited by elements literally named
//! `record`; their attributes become fields, and immediate child elements
//! become fields keyed by tag name with their text content as value — one
//! nesting level only, so text under deeper descendants is not collected.
//! Zero records anywhere in the input is an error.

use vstd::prelude::*;
use vstd::string::{StrSliceExecFns, StringExecFns};
use quick_xml::events::Event as Ev;
use quick_xml::Reader as XmlReader;
use crate::error::IngestionError;
use crate::strutil::str_eq;
use crate::value::{
    arr_view, fields_insert, fields_view, obj_insert, value_view, JsonField, JsonValue, ValueView,
};

verus! {

broadcast use crate::value::lemma_obj_value_view;

/// One attribute of a markup element.
pub struct MarkupAttr {
    pub name: String,
    pub value: String,
}

/// One event of a markup stream, as the decoder sees it: an opening tag
/// with its attributes, a run of text (a raw character run, or one
/// resolved reference), a closing tag, or anything else (declarations,
/// comments, self-closing tags, ...), which the decoder ignores.
pub enum MarkupEvent {
    Open(String, Vec<MarkupAttr>),
    Text(String),
    Close(String),
    Other,
}

/// The mathematical shape of one markup event.
pub enum MarkupEventView {
    Open(Seq<char>, Seq<(Seq<char>, Seq<char>)>),
    Text(Seq<char>),
    Close(Seq<char>),
    Other,
}

impl View for MarkupEvent {
    type V = MarkupEventView;

    open spec fn view(&self) -> MarkupEventView {
        match self {
            MarkupEvent::Open(name, attrs) => MarkupEventView::Open(
                name@,
                Seq::new(
                    attrs@.len(),
                    |i: int|
                        if 0 <= i < attrs@.len() {
                            (attrs@[i].name@, attrs@[i].value@)
                        } else {
                            (Seq::empty(), Seq::empty())
                        },
                ),
            ),
            MarkupEvent::Text(t) => MarkupEventView::Text(t@),
            MarkupEvent::Close(name) => MarkupEventView::Close(name@),
            MarkupEvent::Other => MarkupEventView::Other,
        }
    }
}

/// The view of each event in a sequence of events.
pub open spec fn events_view(evs: Seq<MarkupEvent>) -> Seq<MarkupEventView> {
    Seq::new(
        evs.len(),
        |i: int|
            if 0 <= i < evs.len() {
                evs[i]@
            } else {
                MarkupEventView::Other
            },
    )
}

/// The events of a markup byte stream, in order, and the reader's error
/// when it stopped on one instead of reaching the end. A function of the
/// bytes alone.
pub uninterp spec fn markup_events(bytes: Seq<u8>) -> (Seq<MarkupEventView>, Option<Seq<char>>);

/// Relies on `quick_xml::Reader::read_event_into`: every event of the
/// stream in order; opening tags carry their well-formed attributes, raw
/// text runs have line endings normalized, character and predefined
/// entity references become the text they stand for, and a read error
/// ends the stream.
#[verifier::external_body]
fn read_markup_events(bytes: &[u8]) -> (r: (Vec<MarkupEvent>, Option<String>))
    ensures
        ({
            let (evs, err) = markup_events(bytes@);
            events_view(r.0@) == evs && (match err {
                Some(m) => r.1 matches Some(s) && s@ == m,
                None => r.1 is None,
            })
        }),
{
    let mut rd = XmlReader::from_reader(bytes);
    let mut evs = Vec::new();
    loop {
        match rd.read_event_into(&mut Vec::new()) {
            Ok(Ev::Start(e)) => evs.push(open_event(&e)),
            Ok(Ev::Text(t)) => evs.push(MarkupEvent::Text(t.xml10_content().to_string())),
            Ok(Ev::GeneralRef(r)) => evs.push(ref_event(&r)),
            Ok(Ev::End(e)) => evs.push(MarkupEvent::Close(e.name().as_ref().to_string())),
            Ok(Ev::Eof) => return (evs, None),
            Ok(_) => evs.push(MarkupEvent::Other),
            Err(e) => return (evs, Some(e.to_string())),
        }
    }
}

/// The opening-tag type of the markup reader, opaque to the verifier.
#[verifier::external_type_specification]
#[verifier::external_body]
pub struct ExBytesStart<'a>(quick_xml::events::BytesStart<'a>);

/// The reference type of the markup reader, opaque to the verifier.
#[verifier::external_type_specification]
#[verifier::external_body]
pub struct ExBytesRef<'a>(quick_xml::events::BytesRef<'a>);

/// Relies on `BytesStart::name` and `BytesStart::attributes`: an opening
/// tag as an event, carrying its well-formed attributes as name and raw
/// value text; malformed attributes are skipped.
#[verifier::external_body]
fn open_event(e: &quick_xml::events::BytesStart<'_>) -> MarkupEvent {
    let name = e.name().as_ref().to_string();
    let mut attrs = Vec::new();
    for attr in e.attributes() {
        if let Ok(a) = attr {
            attrs.push(MarkupAttr { name: a.key.as_ref().to_string(), value: a.value.to_string() });
        }
    }
    MarkupEvent::Open(name, attrs)
}

/// Relies on `BytesRef::resolve_char_ref` and
/// `quick_xml::escape::resolve_predefined_entity`: a character or
/// predefined-entity reference as the text it stands for; a reference
/// that resolves to nothing yields empty text, as lenient unescaping did.
#[verifier::external_body]
fn ref_event(r: &quick_xml::events::BytesRef<'_>) -> MarkupEvent {
    let text = match r.resolve_char_ref() {
        Ok(Some(c)) => c.to_string(),
        Ok(None) => quick_xml::escape::resolve_predefined_entity(r.as_ref())
            .unwrap_or("")
            .to_string(),
        Err(_) => String::new(),
    };
    MarkupEvent::Text(text)
}

/// Markup whitespace: the four characters trimmed from the ends of a text
/// run.
pub open spec fn is_markup_ws(c: char) -> bool {
    (c as u32) == 32 || (c as u32) == 9 || (c as u32) == 13 || (c as u32) == 10
}

fn is_ws_char(c: char) -> (r: bool)
    ensures
        r == is_markup_ws(c),
{
    let u = c as u32;
    u == 32 || u == 9 || u == 13 || u == 10
}

/// Leading markup whitespace removed.
pub open spec fn trim_front(s: Seq<char>) -> Seq<char>
    decreases s.len(),
{
    if s.len() > 0 && is_markup_ws(s[0]) {
        trim_front(s.drop_first())
    } else {
        s
    }
}

/// Trailing markup whitespace removed.
pub open spec fn trim_back(s: Seq<char>) -> Seq<char>
    decreases s.len(),
{
    if s.len() > 0 && is_markup_ws(s.last()) {
        trim_back(s.drop_last())
    } else {
        s
    }
}

/// A text run trimmed of markup whitespace at both ends.
pub open spec fn trim_ws(s: Seq<char>) -> Seq<char> {
    trim_back(trim_front(s))
}

/// `trim_front` keeps the suffix after the leading whitespace.
proof fn lemma_trim_front(s: Seq<char>, a: int)
    requires
        0 <= a <= s.len(),
        forall|j: int| 0 <= j < a ==> is_markup_ws(#[trigger] s[j]),
        a < s.len() ==> !is_markup_ws(s[a]),
    ensures
        trim_front(s) == s.skip(a),
    decreases a,
{
    if a == 0 {
        assert(trim_front(s) =~= s.skip(0));
    } else {
        assert(is_markup_ws(s[0]));
        let tail = s.drop_first();
        assert(forall|j: int| 0 <= j < a - 1 ==> tail[j] == s[j + 1]);
        assert(a - 1 < tail.len() ==> tail[a - 1] == s[a]);
        lemma_trim_front(tail, a - 1);
        assert(tail.skip(a - 1) =~= s.skip(a));
    }
}

/// `trim_back` keeps the prefix before the trailing whitespace.
proof fn lemma_trim_back(s: Seq<char>, b: int)
    requires
        0 <= b <= s.len(),
        forall|j: int| b <= j < s.len() ==> is_markup_ws(#[trigger] s[j]),
        b > 0 ==> !is_markup_ws(s[b - 1]),
    ensures
        trim_back(s) == s.take(b),
    decreases s.len() - b,
{
    if b == s.len() {
        if b == 0 {
            assert(trim_back(s) =~= s.take(0));
        } else {
            assert(trim_back(s) =~= s.take(b));
        }
    } else {
        assert(is_markup_ws(s.last()));
        let head = s.drop_last();
        assert(forall|j: int| 0 <= j < head.len() ==> head[j] == s[j]);
        lemma_trim_back(head, b);
        assert(head.take(b) =~= s.take(b));
    }
}

/// Trims markup whitespace from both ends of a text run.
#[verifier::loop_isolation(false)]
fn trim_markup(s: &str) -> (r: String)
    ensures
        r@ == trim_ws(s@),
{
    let n = s.unicode_len();
    let mut a: usize = 0;
    while a < n && is_ws_char(s.get_char(a))
        invariant
            0 <= a <= n,
            forall|j: int| 0 <= j < a ==> is_markup_ws(#[trigger] s@[j]),
        decreases n - a,
    {
        a = a + 1;
    }
    let mut b: usize = n;
    while b > a && is_ws_char(s.get_char(b - 1))
        invariant
            a <= b <= n,
            forall|j: int| b <= j < n ==> is_markup_ws(#[trigger] s@[j]),
        decreases b,
    {
        b = b - 1;
    }
    proof {
        lemma_trim_front(s@, a as int);
        if b == a {
            assert(s@.skip(a as int).len() == n - a);
            assert(forall|j: int|
                0 <= j < s@.skip(a as int).len() ==> s@.skip(a as int)[j] == s@[j + a]);
            lemma_trim_back(s@.skip(a as int), 0);
        } else {
            assert(forall|j: int|
                0 <= j < s@.skip(a as int).len() ==> s@.skip(a as int)[j] == s@[j + a]);
            lemma_trim_back(s@.skip(a as int), b - a);
        }
    }
    let mid = s.substring_char(a, b);
    proof {
        assert(mid@ =~= s@.skip(a as int).take(b - a));
        assert(mid@ =~= trim_ws(s@));
    }
    mid.to_owned()
}

/// Flushing pending text: its trimmed run as one text event, or nothing
/// when only whitespace (or nothing) was pending.
pub open spec fn flush_text(pending: Seq<char>) -> Seq<MarkupEventView> {
    if trim_ws(pending).len() == 0 {
        Seq::empty()
    } else {
        seq![MarkupEventView::Text(trim_ws(pending))]
    }
}

/// Coalescing a raw event stream: adjacent text runs (raw characters and
/// resolved references) merge into one text event, trimmed of markup
/// whitespace at its ends; whitespace-only stretches disappear; every
/// other event passes through unchanged.
pub open spec fn coalesce_from(evs: Seq<MarkupEventView>, pending: Seq<char>) -> Seq<
    MarkupEventView,
>
    decreases evs.len(),
{
    if evs.len() == 0 {
        flush_text(pending)
    } else {
        match evs[0] {
            MarkupEventView::Text(t) => coalesce_from(evs.drop_first(), pending + t),
            e => flush_text(pending) + seq![e] + coalesce_from(evs.drop_first(), Seq::empty()),
        }
    }
}

pub open spec fn coalesce(evs: Seq<MarkupEventView>) -> Seq<MarkupEventView> {
    coalesce_from(evs, Seq::empty())
}

/// Merges adjacent text runs, as `coalesce` describes.
#[verifier::loop_isolation(false)]
fn coalesce_events(events: Vec<MarkupEvent>) -> (r: Vec<MarkupEvent>)
    ensures
        events_view(r@) == coalesce(events_view(events@)),
{
    let ghost evs = coalesce(events_view(events@));
    let mut rest = events;
    let mut out: Vec<MarkupEvent> = Vec::new();
    let mut pending = String::new();
    proof {
        assert(events_view(out@) =~= Seq::<MarkupEventView>::empty());
    }
    while rest.len() > 0
        invariant
            events_view(out@) + coalesce_from(events_view(rest@), pending@) == evs,
        decreases rest@.len(),
    {
        let ghost pre_rest = events_view(rest@);
        let ghost pre_out = events_view(out@);
        let ghost pre_pending = pending@;
        let ev = rest.remove(0);
        proof {
            assert(ev@ == pre_rest[0]);
            assert(forall|j: int|
                0 <= j < rest@.len() ==> #[trigger] events_view(rest@)[j] == pre_rest[j + 1]);
            assert(events_view(rest@) =~= pre_rest.drop_first());
        }
        match ev {
            MarkupEvent::Text(t) => {
                pending.append(t.as_str());
                proof {
                    assert(events_view(out@) + coalesce_from(events_view(rest@), pending@)
                        =~= evs);
                }
            },
            other => {
                let trimmed = trim_markup(pending.as_str());
                if !trimmed.as_str().is_empty() {
                    out.push(MarkupEvent::Text(trimmed));
                }
                out.push(other);
                pending = String::new();
                proof {
                    assert(events_view(out@) + coalesce_from(events_view(rest@), pending@)
                        =~= evs);
                }
            },
        }
    }
    let trimmed = trim_markup(pending.as_str());
    if !trimmed.as_str().is_empty() {
        out.push(MarkupEvent::Text(trimmed));
    }
    proof {
        assert(events_view(rest@) =~= Seq::<MarkupEventView>::empty());
        assert(events_view(out@) =~= evs);
    }
    out
}

/// The attribute list of an opening `record` tag as the record's first
/// fields, inserted left to right.
pub open spec fn attrs_fields(attrs: Seq<(Seq<char>, Seq<char>)>) -> Seq<(Seq<char>, ValueView)>
    decreases attrs.len(),
{
    if attrs.len() == 0 {
        Seq::empty()
    } else {
        fields_insert(
            attrs_fields(attrs.drop_last()),
            attrs.last().0,
            ValueView::Text(attrs.last().1),
        )
    }
}

/// The decoder's state: the record being assembled (with its fields so
/// far), how many elements are open inside it, the immediate child whose
/// text is awaited, and the finished records.
pub struct MarkupState {
    pub rec: Option<Seq<(Seq<char>, ValueView)>>,
    pub depth: nat,
    pub field: Seq<char>,
    pub recs: Seq<ValueView>,
}

pub open spec fn markup_init() -> MarkupState {
    MarkupState { rec: None, depth: 0, field: Seq::empty(), recs: Seq::empty() }
}

/// One step of the decoder: how one event changes the state. Only an
/// immediate child of the record (depth one) names a field and has its
/// text collected; deeper descendants are passed over.
pub open spec fn markup_step(st: MarkupState, e: MarkupEventView) -> MarkupState {
    match e {
        MarkupEventView::Open(name, attrs) => {
            if name == "record"@ {
                MarkupState {
                    rec: Some(attrs_fields(attrs)),
                    depth: 0,
                    field: Seq::empty(),
                    recs: st.recs,
                }
            } else if st.rec is Some {
                let d = st.depth + 1;
                MarkupState {
                    depth: d,
                    field: if d == 1 {
                        name
                    } else {
                        st.field
                    },
                    ..st
                }
            } else {
                st
            }
        },
        MarkupEventView::Text(t) => {
            match st.rec {
                Some(fs) => {
                    if st.depth == 1 && st.field.len() > 0 {
                        MarkupState {
                            rec: Some(fields_insert(fs, st.field, ValueView::Text(t))),
                            ..st
                        }
                    } else {
                        st
                    }
                },
                None => st,
            }
        },
        MarkupEventView::Close(name) => {
            if name == "record"@ {
                match st.rec {
                    Some(fs) => MarkupState {
                        rec: None,
                        depth: 0,
                        field: Seq::empty(),
                        recs: st.recs.push(ValueView::Obj(fs)),
                    },
                    None => st,
                }
            } else if st.rec is Some && st.depth > 0 {
                let d = (st.depth - 1) as nat;
                MarkupState {
                    depth: d,
                    field: if d == 0 {
                        Seq::empty()
                    } else {
                        st.field
                    },
                    ..st
                }
            } else {
                st
            }
        },
        MarkupEventView::Other => st,
    }
}

/// The state after a sequence of events, from the initial state.
pub open spec fn markup_run(events: Seq<MarkupEventView>) -> MarkupState
    decreases events.len(),
{
    if events.len() == 0 {
        markup_init()
    } else {
        markup_step(markup_run(events.drop_last()), events.last())
    }
}

/// The records that a sequence of events yields.
pub open spec fn markup_records(events: Seq<MarkupEventView>) -> Seq<ValueView> {
    markup_run(events).recs
}

/// A markup stream in which no record is assembled — however the stream
/// reads — never decodes successfully.
pub proof fn lemma_markup_no_records(bytes: Seq<u8>)
    requires
        markup_records(coalesce(markup_events(bytes).0)).len() == 0,
    ensures
        markup_outcome(bytes) is None,
{
}

/// What decoding markup yields: the records assembled from the coalesced
/// event stream, unless the reader stopped on an error or no record was
/// found, which are the failure cases.
pub open spec fn markup_outcome(bytes: Seq<u8>) -> Option<Seq<ValueView>> {
    let (evs, err) = markup_events(bytes);
    if err is Some {
        None
    } else if markup_records(coalesce(evs)).len() == 0 {
        None
    } else {
        Some(markup_records(coalesce(evs)))
    }
}

/// Builds the fields of a fresh record from an opening tag's attributes.
#[verifier::loop_isolation(false)]
fn build_attr_fields(attrs: &Vec<MarkupAttr>) -> (r: Vec<JsonField>)
    ensures
        fields_view(r@) == attrs_fields(
            Seq::new(
                attrs@.len(),
                |i: int|
                    if 0 <= i < attrs@.len() {
                        (attrs@[i].name@, attrs@[i].value@)
                    } else {
                        (Seq::empty(), Seq::empty())
                    },
            ),
        ),
{
    let ghost av = Seq::new(
        attrs@.len(),
        |i: int|
            if 0 <= i < attrs@.len() {
                (attrs@[i].name@, attrs@[i].value@)
            } else {
                (Seq::empty(), Seq::empty())
            },
    );
    let mut fields: Vec<JsonField> = Vec::new();
    let n = attrs.len();
    let mut i: usize = 0;
    while i < n
        invariant
            0 <= i <= n,
            fields_view(fields@) == attrs_fields(av.take(i as int)),
        decreases n - i,
    {
        let ghost pre = av.take(i as int);
        obj_insert(&mut fields, attrs[i].name.clone(), JsonValue::Text(attrs[i].value.clone()));
        proof {
            assert(av.take(i + 1).drop_last() =~= pre);
            assert(av.take(i + 1).last() == av[i as int]);
            assert(fields_view(fields@) == attrs_fields(av.take(i + 1)));
        }
        i = i + 1;
    }
    proof {
        assert(av.take(n as int) =~= av);
    }
    fields
}

/// The decoder's exec state seen as the specification state.
pub open spec fn exec_state(
    rec: Option<Vec<JsonField>>,
    depth: nat,
    field: Seq<char>,
    recs: Seq<JsonValue>,
) -> MarkupState {
    MarkupState {
        rec: match rec {
            Some(fs) => Some(fields_view(fs@)),
            None => None,
        },
        depth: depth,
        field: field,
        recs: arr_view(recs),
    }
}

/// Decodes markup. Succeeds exactly when the reader reads the whole
/// stream and at least one record is found, and then yields the records
/// that `markup_records` describes, in order.
#[verifier::loop_isolation(false)]
pub fn parse_xml(bytes: &[u8]) -> (r: Result<Vec<JsonValue>, IngestionError>)
    ensures
        match r {
            Ok(recs) => markup_outcome(bytes@) matches Some(rs) && arr_view(recs@) == rs,
            Err(e) => markup_outcome(bytes@) is None && e is Parse,
        },
{
    let (raw_events, err) = read_markup_events(bytes);
    if let Some(m) = err {
        return Err(IngestionError::Parse(m));
    }
    let events = coalesce_events(raw_events);
    let ghost evs = events_view(events@);
    let mut rec_fields: Option<Vec<JsonField>> = None;
    let mut depth: usize = 0;
    let mut field: String = String::new();
    let mut recs: Vec<JsonValue> = Vec::new();
    proof {
        assert(evs.take(0) =~= Seq::<MarkupEventView>::empty());
        assert(arr_view(recs@) =~= Seq::<ValueView>::empty());
    }
    let n = events.len();
    let mut i: usize = 0;
    while i < n
        invariant
            0 <= i <= n,
            depth <= i,
            exec_state(rec_fields, depth as nat, field@, recs@) == markup_run(evs.take(i as int)),
        decreases n - i,
    {
        let ghost pre_state = markup_run(evs.take(i as int));
        proof {
            assert(evs.take(i + 1).drop_last() =~= evs.take(i as int));
            assert(evs.take(i + 1).last() == evs[i as int]);
            assert(evs[i as int] == events@[i as int]@);
        }
        match &events[i] {
            MarkupEvent::Open(name, attrs) => {
                if str_eq(name.as_str(), "record") {
                    rec_fields = Some(build_attr_fields(attrs));
                    depth = 0;
                    field = String::new();
                } else if rec_fields.is_some() {
                    depth = depth + 1;
                    if depth == 1 {
                        field = name.clone();
                    }
                }
                proof {
                    assert(exec_state(rec_fields, depth as nat, field@, recs@) == markup_step(
                        pre_state,
                        evs[i as int],
                    ));
                }
            },
            MarkupEvent::Text(t) => {
                if depth == 1 && !field.as_str().is_empty() {
                    let taken = rec_fields;
                    rec_fields = match taken {
                        Some(mut fs) => {
                            obj_insert(&mut fs, field.clone(), JsonValue::Text(t.clone()));
                            Some(fs)
                        },
                        None => None,
                    };
                }
                proof {
                    assert(exec_state(rec_fields, depth as nat, field@, recs@) == markup_step(
                        pre_state,
                        evs[i as int],
                    ));
                }
            },
            MarkupEvent::Close(name) => {
                if str_eq(name.as_str(), "record") {
                    if rec_fields.is_some() {
                        let taken = rec_fields;
                        rec_fields = None;
                        depth = 0;
                        field = String::new();
                        if let Some(fs) = taken {
                            let rec = JsonValue::Obj(fs);
                            let ghost pre_recs = recs@;
                            recs.push(rec);
                            proof {
                                assert(arr_view(recs@) =~= arr_view(pre_recs).push(
                                    value_view(rec),
                                ));
                            }
                        }
                    }
                } else if rec_fields.is_some() && depth > 0 {
                    depth = depth - 1;
                    if depth == 0 {
                        field = String::new();
                    }
                }
                proof {
                    assert(exec_state(rec_fields, depth as nat, field@, recs@) == markup_step(
                        pre_state,
                        evs[i as int],
                    ));
                }
            },
            MarkupEvent::Other => {
                proof {
                    assert(exec_state(rec_fields, depth as nat, field@, recs@) == markup_step(
                        pre_state,
                        evs[i as int],
                    ));
                }
            },
        }
        i = i + 1;
    }
    proof {
        assert(evs.take(n as int) =~= evs);
    }
    if recs.len() == 0 {
        return Err(IngestionError::Parse("No records found in XML".to_owned()));
    }
    Ok(recs)
}

} // verus!
