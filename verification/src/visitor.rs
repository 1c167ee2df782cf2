//! From spans and events to records.
//!
//! While a span or an event is visited, each of its attributes is written
//! into a [`HoneycombVisitor`]. When it is reported, the attributes are
//! joined with the reserved fields, which say where the span or event
//! belongs: its trace, its span, its time. An attribute never stands in the
//! way of a reserved field. One that bears a reserved name is kept under
//! that name with `tracing.` in front, and the reserved fields are written
//! last, over whatever the attributes hold.

use crate::record::{FieldValue, Fields, Record, Scalar};
use crate::span_id::{span_id_text, SpanId};
use crate::text::same_text;
use crate::trace_id::TraceId;
use vstd::prelude::*;
use vstd::string::*;

verus! {

/// Whether a name is that of a reserved field.
pub open spec fn is_reserved(name: Seq<char>) -> bool {
    ||| name == "trace.span_id"@
    ||| name == "trace.trace_id"@
    ||| name == "trace.parent_id"@
    ||| name == "service_name"@
    ||| name == "level"@
    ||| name == "Timestamp"@
    ||| name == "name"@
    ||| name == "target"@
    ||| name == "duration_ms"@
}

/// The name under which an attribute is kept.
pub open spec fn field_name(name: Seq<char>) -> Seq<char> {
    if is_reserved(name) {
        "tracing."@ + name
    } else {
        name
    }
}

/// An attribute is never kept under a reserved name.
pub proof fn lemma_field_name_is_free(name: Seq<char>)
    ensures
        !is_reserved(field_name(name)),
{
    reveal_strlit("trace.span_id");
    reveal_strlit("trace.trace_id");
    reveal_strlit("trace.parent_id");
    reveal_strlit("service_name");
    reveal_strlit("level");
    reveal_strlit("Timestamp");
    reveal_strlit("name");
    reveal_strlit("target");
    reveal_strlit("duration_ms");
    reveal_strlit("tracing.");
    if is_reserved(name) {
        let kept = "tracing."@ + name;
        assert(kept[0] == 't' && kept[4] == 'i');
    }
}

fn is_reserved_name(name: &str) -> (reserved: bool)
    ensures
        reserved == is_reserved(name@),
{
    same_text(name, "trace.span_id")
        || same_text(name, "trace.trace_id")
        || same_text(name, "trace.parent_id")
        || same_text(name, "service_name")
        || same_text(name, "level")
        || same_text(name, "Timestamp")
        || same_text(name, "name")
        || same_text(name, "target")
        || same_text(name, "duration_ms")
}

/// The name under which an attribute is kept.
pub fn mk_field_name(name: &str) -> (kept: String)
    ensures
        kept@ == field_name(name@),
{
    if is_reserved_name(name) {
        String::from_str("tracing.").concat(name)
    } else {
        String::from_str(name)
    }
}

/// Gathers the attributes of one span or one event.
///
/// A visitor is made anew for each span and each event, and is used up when
/// that span or event is reported.
#[derive(Debug)]
pub struct HoneycombVisitor(Record);

impl View for HoneycombVisitor {
    type V = Fields;

    closed spec fn view(&self) -> Fields {
        self.0@
    }
}

impl Default for HoneycombVisitor {
    fn default() -> (visitor: HoneycombVisitor)
        ensures
            visitor@ == Fields::empty(),
    {
        HoneycombVisitor(Record::new())
    }
}

impl HoneycombVisitor {
    #[verifier::type_invariant]
    closed spec fn names_are_free(self) -> bool {
        forall|name: Seq<char>| #[trigger] self.0@.contains_key(name) ==> !is_reserved(name)
    }

    fn record(&mut self, name: &str, value: FieldValue)
        ensures
            final(self)@ == old(self)@.insert(field_name(name@), value@),
    {
        proof {
            use_type_invariant(&*self);
            lemma_field_name_is_free(name@);
        }
        let mut record = Record::new();
        core::mem::swap(&mut self.0, &mut record);
        record.insert(mk_field_name(name), value);
        self.0 = record;
    }

    /// The visitor that has seen no attribute yet.
    pub fn new() -> (visitor: HoneycombVisitor)
        ensures
            visitor@ == Fields::empty(),
    {
        HoneycombVisitor(Record::new())
    }

    /// Writes a signed number. The last value written under a name stays.
    pub fn record_i64(&mut self, name: &str, value: i64)
        ensures
            final(self)@ == old(self)@.insert(field_name(name@), Scalar::Int(value as int)),
    {
        self.record(name, FieldValue::I64(value));
    }

    /// Writes an unsigned number. The last value written under a name stays.
    pub fn record_u64(&mut self, name: &str, value: u64)
        ensures
            final(self)@ == old(self)@.insert(field_name(name@), Scalar::Int(value as int)),
    {
        self.record(name, FieldValue::U64(value));
    }

    /// Writes a truth value. The last value written under a name stays.
    pub fn record_bool(&mut self, name: &str, value: bool)
        ensures
            final(self)@ == old(self)@.insert(field_name(name@), Scalar::Bool(value)),
    {
        self.record(name, FieldValue::Bool(value));
    }

    /// Writes a text. The last value written under a name stays.
    pub fn record_str(&mut self, name: &str, value: &str)
        ensures
            final(self)@ == old(self)@.insert(field_name(name@), Scalar::Text(value@)),
    {
        self.record(name, FieldValue::Str(String::from_str(value)));
    }

    /// Writes a value of any other kind, by the text that its debug
    /// formatting gave. The last value written under a name stays.
    pub fn record_debug(&mut self, name: &str, rendered: &str)
        ensures
            final(self)@ == old(self)@.insert(field_name(name@), Scalar::Text(rendered@)),
    {
        self.record(name, FieldValue::Str(String::from_str(rendered)));
    }

    /// The value kept under a name, if any.
    pub fn get(&self, kept: &str) -> (value: Option<&FieldValue>)
        ensures
            match value {
                Some(v) => self@.contains_key(kept@) && self@[kept@] == v@,
                None => !self@.contains_key(kept@),
            },
    {
        self.0.get(kept)
    }
}

/// A finished span, as the instrumentation hands it over.
#[derive(Debug)]
pub struct Span {
    /// The span itself.
    pub id: SpanId,
    /// The trace that the span belongs to.
    pub trace_id: TraceId,
    /// The span that this one was entered in, if any.
    pub parent_id: Option<SpanId>,
    /// When the span was entered, in milliseconds since the Unix epoch.
    pub initialized_at: u64,
    /// When the span was closed, in milliseconds since the Unix epoch.
    pub completed_at: u64,
    /// The service that the span was recorded in.
    pub service_name: String,
    /// The severity of the span.
    pub level: String,
    /// The name of the span.
    pub name: String,
    /// The part of the program that the span was recorded in.
    pub target: String,
    /// The attributes of the span.
    pub values: HoneycombVisitor,
}

/// An event, as the instrumentation hands it over.
#[derive(Debug)]
pub struct Event {
    /// The trace that the event belongs to.
    pub trace_id: TraceId,
    /// The span that the event happened in, if any.
    pub parent_id: Option<SpanId>,
    /// When the event happened, in milliseconds since the Unix epoch.
    pub initialized_at: u64,
    /// The service that the event was recorded in.
    pub service_name: String,
    /// The severity of the event.
    pub level: String,
    /// The name of the event.
    pub name: String,
    /// The part of the program that the event was recorded in.
    pub target: String,
    /// The attributes of the event.
    pub values: HoneycombVisitor,
}

/// The value of the field that names the parent span.
pub open spec fn parent_scalar(parent_id: Option<SpanId>) -> Scalar {
    match parent_id {
        Some(id) => Scalar::Text(span_id_text(id@)),
        None => Scalar::Null,
    }
}

/// The milliseconds from one instant to a later one; zero where the second
/// is not later.
pub open spec fn elapsed_ms(from: u64, to: u64) -> int {
    if to >= from {
        to - from
    } else {
        0
    }
}

/// The reserved fields of a span.
pub open spec fn span_reserved(span: Span) -> Fields {
    map![
        "trace.span_id"@ => Scalar::Text(span_id_text(span.id@)),
        "trace.trace_id"@ => Scalar::Text(span.trace_id@),
        "trace.parent_id"@ => parent_scalar(span.parent_id),
        "service_name"@ => Scalar::Text(span.service_name@),
        "level"@ => Scalar::Text(span.level@),
        "Timestamp"@ => Scalar::Int(span.initialized_at as int),
        "name"@ => Scalar::Text(span.name@),
        "target"@ => Scalar::Text(span.target@),
        "duration_ms"@ => Scalar::Int(elapsed_ms(span.initialized_at, span.completed_at)),
    ]
}

/// The reserved fields of an event.
pub open spec fn event_reserved(event: Event) -> Fields {
    map![
        "trace.trace_id"@ => Scalar::Text(event.trace_id@),
        "trace.parent_id"@ => parent_scalar(event.parent_id),
        "service_name"@ => Scalar::Text(event.service_name@),
        "level"@ => Scalar::Text(event.level@),
        "Timestamp"@ => Scalar::Int(event.initialized_at as int),
        "name"@ => Scalar::Text(event.name@),
        "target"@ => Scalar::Text(event.target@),
    ]
}

/// The record of a span: its attributes, and over them its reserved fields.
pub open spec fn span_record(span: Span) -> Fields {
    span.values@.union_prefer_right(span_reserved(span))
}

/// The record of an event: its attributes, and over them its reserved fields.
pub open spec fn event_record(event: Event) -> Fields {
    event.values@.union_prefer_right(event_reserved(event))
}

/// The reserved names are of nine different lengths.
proof fn lemma_reserved_names_differ()
    ensures
        "trace.span_id"@.len() == 13,
        "trace.trace_id"@.len() == 14,
        "trace.parent_id"@.len() == 15,
        "service_name"@.len() == 12,
        "level"@.len() == 5,
        "Timestamp"@.len() == 9,
        "name"@.len() == 4,
        "target"@.len() == 6,
        "duration_ms"@.len() == 11,
{
    reveal_strlit("trace.span_id");
    reveal_strlit("trace.trace_id");
    reveal_strlit("trace.parent_id");
    reveal_strlit("service_name");
    reveal_strlit("level");
    reveal_strlit("Timestamp");
    reveal_strlit("name");
    reveal_strlit("target");
    reveal_strlit("duration_ms");
}

/// Reserved fields come first. Whatever the attributes of a span hold, each
/// reserved field stands in the record with its own value, and an attribute
/// under any other name stands there as it was written.
pub proof fn lemma_span_reserved_fields_win(span: Span)
    ensures
        span_record(span)["trace.span_id"@] == Scalar::Text(span_id_text(span.id@)),
        span_record(span)["trace.trace_id"@] == Scalar::Text(span.trace_id@),
        span_record(span)["trace.parent_id"@] == parent_scalar(span.parent_id),
        span_record(span)["service_name"@] == Scalar::Text(span.service_name@),
        span_record(span)["level"@] == Scalar::Text(span.level@),
        span_record(span)["Timestamp"@] == Scalar::Int(span.initialized_at as int),
        span_record(span)["name"@] == Scalar::Text(span.name@),
        span_record(span)["target"@] == Scalar::Text(span.target@),
        span_record(span)["duration_ms"@] == Scalar::Int(
            elapsed_ms(span.initialized_at, span.completed_at),
        ),
        forall|name: Seq<char>|
            is_reserved(name) <==> #[trigger] span_reserved(span).contains_key(name),
        forall|name: Seq<char>|
            is_reserved(name) ==> #[trigger] span_record(span).contains_key(name),
        forall|name: Seq<char>|
            !is_reserved(name) ==> (#[trigger] span_record(span).contains_key(name)
                <==> span.values@.contains_key(name)),
        forall|name: Seq<char>|
            !is_reserved(name) && span.values@.contains_key(name) ==> #[trigger] span_record(
                span,
            )[name] == span.values@[name],
{
    lemma_reserved_names_differ();
    let reserved = span_reserved(span);
    assert(reserved["trace.span_id"@] == Scalar::Text(span_id_text(span.id@)));
    assert(reserved["trace.trace_id"@] == Scalar::Text(span.trace_id@));
    assert(reserved["trace.parent_id"@] == parent_scalar(span.parent_id));
    assert(reserved["service_name"@] == Scalar::Text(span.service_name@));
    assert(reserved["level"@] == Scalar::Text(span.level@));
    assert(reserved["Timestamp"@] == Scalar::Int(span.initialized_at as int));
    assert(reserved["name"@] == Scalar::Text(span.name@));
    assert(reserved["target"@] == Scalar::Text(span.target@));
}

/// Reserved fields come first. Whatever the attributes of an event hold,
/// each of its reserved fields stands in the record with its own value, and
/// an attribute under any other name stands there as it was written.
pub proof fn lemma_event_reserved_fields_win(event: Event)
    ensures
        event_record(event)["trace.trace_id"@] == Scalar::Text(event.trace_id@),
        event_record(event)["trace.parent_id"@] == parent_scalar(event.parent_id),
        event_record(event)["service_name"@] == Scalar::Text(event.service_name@),
        event_record(event)["level"@] == Scalar::Text(event.level@),
        event_record(event)["Timestamp"@] == Scalar::Int(event.initialized_at as int),
        event_record(event)["name"@] == Scalar::Text(event.name@),
        event_record(event)["target"@] == Scalar::Text(event.target@),
        forall|name: Seq<char>| #[trigger]
            event_reserved(event).contains_key(name) ==> is_reserved(name),
        forall|name: Seq<char>|
            !is_reserved(name) ==> (#[trigger] event_record(event).contains_key(name)
                <==> event.values@.contains_key(name)),
        forall|name: Seq<char>|
            !is_reserved(name) && event.values@.contains_key(name) ==> #[trigger] event_record(
                event,
            )[name] == event.values@[name],
{
    lemma_reserved_names_differ();
    let reserved = event_reserved(event);
    assert(reserved["trace.trace_id"@] == Scalar::Text(event.trace_id@));
    assert(reserved["trace.parent_id"@] == parent_scalar(event.parent_id));
    assert(reserved["service_name"@] == Scalar::Text(event.service_name@));
    assert(reserved["level"@] == Scalar::Text(event.level@));
    assert(reserved["Timestamp"@] == Scalar::Int(event.initialized_at as int));
    assert(reserved["name"@] == Scalar::Text(event.name@));
}

fn parent_value(parent_id: Option<SpanId>) -> (value: FieldValue)
    ensures
        value@ == parent_scalar(parent_id),
{
    match parent_id {
        Some(id) => FieldValue::Str(id.to_string()),
        None => FieldValue::Null,
    }
}

/// Finishes a span: the record that is reported for it. Each reserved field
/// stands in it, and no attribute is lost.
pub fn span_to_values(span: Span) -> (record: Record)
    ensures
        record@ == span_record(span),
        forall|name: Seq<char>| #[trigger]
            span.values@.contains_key(name) ==> record@.contains_key(name) && record@[name]
                == span.values@[name],
{
    proof {
        use_type_invariant(&span.values);
        lemma_span_reserved_fields_win(span);
    }
    let ghost reserved = span_reserved(span);
    let ghost attributes = span.values@;
    let Span {
        id,
        trace_id,
        parent_id,
        initialized_at,
        completed_at,
        service_name,
        level,
        name,
        target,
        values,
    } = span;
    let mut record = values.0;
    let elapsed: u64 = if completed_at >= initialized_at {
        completed_at - initialized_at
    } else {
        0
    };
    record.insert(String::from_str("trace.span_id"), FieldValue::Str(id.to_string()));
    record.insert(String::from_str("trace.trace_id"), FieldValue::Str(trace_id.to_string()));
    record.insert(String::from_str("trace.parent_id"), parent_value(parent_id));
    record.insert(String::from_str("service_name"), FieldValue::Str(service_name));
    record.insert(String::from_str("level"), FieldValue::Str(level));
    record.insert(String::from_str("Timestamp"), FieldValue::U64(initialized_at));
    record.insert(String::from_str("name"), FieldValue::Str(name));
    record.insert(String::from_str("target"), FieldValue::Str(target));
    record.insert(String::from_str("duration_ms"), FieldValue::U64(elapsed));
    assert(record@ =~= attributes.union_prefer_right(reserved));
    record
}

/// Finishes an event: the record that is reported for it. Each reserved
/// field stands in it, and no attribute is lost.
pub fn event_to_values(event: Event) -> (record: Record)
    ensures
        record@ == event_record(event),
        forall|name: Seq<char>| #[trigger]
            event.values@.contains_key(name) ==> record@.contains_key(name) && record@[name]
                == event.values@[name],
{
    proof {
        use_type_invariant(&event.values);
        lemma_event_reserved_fields_win(event);
    }
    let ghost reserved = event_reserved(event);
    let ghost attributes = event.values@;
    let Event { trace_id, parent_id, initialized_at, service_name, level, name, target, values } =
        event;
    let mut record = values.0;
    record.insert(String::from_str("trace.trace_id"), FieldValue::Str(trace_id.to_string()));
    record.insert(String::from_str("trace.parent_id"), parent_value(parent_id));
    record.insert(String::from_str("service_name"), FieldValue::Str(service_name));
    record.insert(String::from_str("level"), FieldValue::Str(level));
    record.insert(String::from_str("Timestamp"), FieldValue::U64(initialized_at));
    record.insert(String::from_str("name"), FieldValue::Str(name));
    record.insert(String::from_str("target"), FieldValue::Str(target));
    assert(record@ =~= attributes.union_prefer_right(reserved));
    record
}

} // verus!
