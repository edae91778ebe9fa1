//! Log records: normalizing an event plus the innermost span's state into a
//! flat record, and rendering records and batches as JSON.

use vstd::prelude::*;
use vstd::string::StringExecFns;

use crate::fields::{
    contains_key, get_value, insert_entry, merge_entries, remove_key, wf_entries, Entries,
    FieldMap, FieldValue, ValueView,
};
use crate::fields::{lemma_key_index, lemma_remove_key_absent};
use crate::json::{
    json_of_value, json_string, object_json, push_char, push_json_string, push_object, push_value,
};

verus! {

/// The live state of one span: its name, fixed at creation, and the fields
/// recorded against it so far.
pub struct SpanState {
    pub name: String,
    pub fields: FieldMap,
}

impl View for SpanState {
    type V = (Seq<char>, Entries);

    open spec fn view(&self) -> (Seq<char>, Entries) {
        (self.name@, self.fields@)
    }
}

impl SpanState {
    /// A span entry with its declared name and initially recorded fields.
    pub fn new(name: String, fields: FieldMap) -> (r: Self)
        ensures
            r@ == (name@, fields@),
    {
        SpanState { name, fields }
    }

    /// Merge later-recorded fields into the entry, overwriting on name
    /// collision and preserving the rest. The name never changes.
    pub fn record(&mut self, values: &FieldMap)
        ensures
            final (self)@.0 == old(self)@.0,
            final (self)@.1 == merge_entries(old(self)@.1, values@),
            wf_entries(old(self)@.1) ==> wf_entries(final (self)@.1),
    {
        self.fields.merge(values);
    }
}

/// The mathematical value of a log record.
#[verifier::ext_equal]
pub ghost struct RecordView {
    pub dt: Seq<char>,
    pub level: Seq<char>,
    pub message: ValueView,
    pub target: Seq<char>,
    pub fields: Entries,
    pub span: Option<Entries>,
}

/// One normalized record: the unit that moves through the pipeline.
pub struct LogRecord {
    pub dt: String,
    pub level: String,
    pub message: FieldValue,
    pub target: String,
    pub fields: FieldMap,
    pub span: Option<FieldMap>,
}

impl View for LogRecord {
    type V = RecordView;

    open spec fn view(&self) -> RecordView {
        RecordView {
            dt: self.dt@,
            level: self.level@,
            message: self.message@,
            target: self.target@,
            fields: self.fields@,
            span: match self.span {
                Some(m) => Some(m@),
                None => None,
            },
        }
    }
}

/// The entries of a record's `span` object: the span's name under `name`,
/// with the span's own fields merged in.
pub open spec fn span_entries(name: Seq<char>, fields: Entries) -> Entries {
    merge_entries(seq![("name"@, ValueView::Str(name))], fields)
}

/// The span argument the normalizer sees: the innermost active span's name
/// and fields, if one is active.
pub open spec fn span_arg(span: Option<&SpanState>) -> Option<(Seq<char>, Entries)> {
    match span {
        Some(st) => Some(st@),
        None => None,
    }
}

/// What normalizing an event yields: the field literally named `message`
/// is lifted out (defaulting to the empty string), the remaining fields
/// stay verbatim, and the active span, if any, becomes a `name`-plus-fields
/// object. Event fields and span fields are never merged into one map.
pub open spec fn spec_normalize(
    dt: Seq<char>,
    level: Seq<char>,
    target: Seq<char>,
    fields: Entries,
    span: Option<(Seq<char>, Entries)>,
) -> RecordView {
    RecordView {
        dt,
        level,
        message: match get_value(fields, "message"@) {
            Some(v) => v,
            None => ValueView::Str(Seq::empty()),
        },
        target,
        fields: remove_key(fields, "message"@),
        span: match span {
            Some(s) => Some(span_entries(s.0, s.1)),
            None => None,
        },
    }
}

/// Build the one record for an event: severity, target and fields of the
/// event, the timestamp of the moment of normalization, and the innermost
/// active span's accumulated state.
pub fn normalize_event(
    dt: String,
    level: String,
    target: String,
    fields: FieldMap,
    span: Option<&SpanState>,
) -> (r: LogRecord)
    ensures
        r@ == spec_normalize(dt@, level@, target@, fields@, span_arg(span)),
{
    let ghost fields0 = fields@;
    let mut fields = fields;
    let msg_key: String = "message".to_owned();
    let message = match fields.remove(&msg_key) {
        Some(v) => v,
        None => FieldValue::Str(String::new()),
    };
    let span_map = match span {
        Some(st) => {
            let mut m = FieldMap::new();
            m.insert("name".to_owned(), FieldValue::Str(st.name.clone()));
            m.merge(&st.fields);
            proof {
                assert(insert_entry(Seq::empty(), "name"@, ValueView::Str(st.name@)) =~= seq![
                    ("name"@, ValueView::Str(st.name@)),
                ]);
            }
            Some(m)
        },
        None => None,
    };
    let r = LogRecord { dt, level, message, target, fields, span: span_map };
    proof {
        assert(r@ =~= spec_normalize(r.dt@, r.level@, r.target@, fields0, span_arg(span)));
    }
    r
}

/// Normalization writes the same inputs to the same record whatever the
/// timestamp: only the `dt` value differs between two normalizations of
/// one event-plus-span state, so with equal timestamps the records, and
/// hence their JSON renderings, are identical.
pub proof fn lemma_normalize_deterministic(
    dt1: Seq<char>,
    dt2: Seq<char>,
    level: Seq<char>,
    target: Seq<char>,
    fields: Entries,
    span: Option<(Seq<char>, Entries)>,
)
    ensures
        spec_normalize(dt1, level, target, fields, span).dt == dt1,
        spec_normalize(dt1, level, target, fields, span).level == spec_normalize(
            dt2,
            level,
            target,
            fields,
            span,
        ).level,
        spec_normalize(dt1, level, target, fields, span).message == spec_normalize(
            dt2,
            level,
            target,
            fields,
            span,
        ).message,
        spec_normalize(dt1, level, target, fields, span).target == spec_normalize(
            dt2,
            level,
            target,
            fields,
            span,
        ).target,
        spec_normalize(dt1, level, target, fields, span).fields == spec_normalize(
            dt2,
            level,
            target,
            fields,
            span,
        ).fields,
        spec_normalize(dt1, level, target, fields, span).span == spec_normalize(
            dt2,
            level,
            target,
            fields,
            span,
        ).span,
        record_json_after_dt(spec_normalize(dt1, level, target, fields, span))
            == record_json_after_dt(spec_normalize(dt2, level, target, fields, span)),
        dt1 == dt2 ==> record_json(spec_normalize(dt1, level, target, fields, span))
            == record_json(spec_normalize(dt2, level, target, fields, span)),
{
}

/// A field named `message` is always lifted into the record's top-level
/// `message` value and never remains among its `fields`; an event that
/// carried no `message` field yields the empty-string message and its
/// field map unchanged.
pub proof fn lemma_message_extracted(
    dt: Seq<char>,
    level: Seq<char>,
    target: Seq<char>,
    fields: Entries,
    span: Option<(Seq<char>, Entries)>,
)
    requires
        wf_entries(fields),
    ensures
        !contains_key(spec_normalize(dt, level, target, fields, span).fields, "message"@),
        contains_key(fields, "message"@) ==> Some(
            spec_normalize(dt, level, target, fields, span).message,
        ) == get_value(fields, "message"@),
        !contains_key(fields, "message"@) ==> spec_normalize(dt, level, target, fields, span).message
            == ValueView::Str(Seq::empty()) && spec_normalize(
            dt,
            level,
            target,
            fields,
            span,
        ).fields == fields,
{
    lemma_remove_key_absent(fields, "message"@);
    if contains_key(fields, "message"@) {
        lemma_key_index(fields, "message"@);
    }
}

/// Everything of a record's JSON object after the `dt` value: `level`,
/// `message` and `target` always present and in that order; `fields` only
/// when the event had fields left; `span` only when a span was active.
pub open spec fn record_json_after_dt(r: RecordView) -> Seq<char> {
    ",\"level\":"@ + json_string(r.level) + ",\"message\":"@ + json_of_value(r.message)
        + ",\"target\":"@ + json_string(r.target) + (if r.fields.len() > 0 {
        ",\"fields\":"@ + object_json(r.fields)
    } else {
        Seq::empty()
    }) + (match r.span {
        Some(sm) => ",\"span\":"@ + object_json(sm),
        None => Seq::<char>::empty(),
    }) + "}"@
}

/// The JSON object for one record: the `dt` value first, then everything
/// that does not depend on the timestamp.
pub open spec fn record_json(r: RecordView) -> Seq<char> {
    "{\"dt\":"@ + json_string(r.dt) + record_json_after_dt(r)
}

/// Render one record as its JSON object.
pub fn record_to_json(r: &LogRecord) -> (out: String)
    ensures
        out@ == record_json(r@),
{
    let mut out = String::new();
    out.append("{\"dt\":");
    push_json_string(&mut out, r.dt.as_str());
    out.append(",\"level\":");
    push_json_string(&mut out, r.level.as_str());
    out.append(",\"message\":");
    push_value(&mut out, &r.message);
    out.append(",\"target\":");
    push_json_string(&mut out, r.target.as_str());
    if r.fields.len() > 0 {
        out.append(",\"fields\":");
        push_object(&mut out, &r.fields);
    }
    match &r.span {
        Some(sm) => {
            out.append(",\"span\":");
            push_object(&mut out, sm);
        },
        None => {},
    }
    out.append("}");
    proof {
        assert(out@ =~= record_json(r@));
    }
    out
}

/// The record views of a sequence of records, in order.
pub open spec fn views_of(rs: Seq<LogRecord>) -> Seq<RecordView> {
    rs.map(|i: int, r: LogRecord| r@)
}

/// The comma-separated JSON objects of a batch, in delivery order.
pub open spec fn records_json(rs: Seq<RecordView>) -> Seq<char>
    decreases rs.len(),
{
    if rs.len() == 0 {
        Seq::empty()
    } else if rs.len() == 1 {
        record_json(rs[0])
    } else {
        records_json(rs.drop_last()) + seq![','] + record_json(rs.last())
    }
}

/// The JSON array delivered for a batch, brackets included.
pub open spec fn batch_json(rs: Seq<RecordView>) -> Seq<char> {
    seq!['['] + records_json(rs) + seq![']']
}

/// Render a batch of records as one JSON array, preserving their order.
#[verifier::loop_isolation(false)]
pub fn batch_to_json(records: &Vec<LogRecord>) -> (out: String)
    ensures
        out@ == batch_json(views_of(records@)),
{
    let mut out = String::new();
    push_char(&mut out, '[');
    let ghost rvs = views_of(records@);
    let n = records.len();
    for i in 0..n
        invariant
            out@ == seq!['['] + records_json(rvs.take(i as int)),
    {
        if i > 0 {
            push_char(&mut out, ',');
        }
        let one = record_to_json(&records[i]);
        out.append(one.as_str());
        proof {
            assert(rvs[i as int] == records@[i as int]@);
            assert(rvs.take(i as int + 1).drop_last() =~= rvs.take(i as int));
            assert(rvs.take(i as int + 1).last() == rvs[i as int]);
            assert(out@ =~= seq!['['] + records_json(rvs.take(i as int + 1)));
        }
    }
    push_char(&mut out, ']');
    proof {
        assert(rvs.take(n as int) =~= rvs);
        assert(out@ =~= batch_json(views_of(records@)));
    }
    out
}

} // verus!
