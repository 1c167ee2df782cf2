use tracing_honeycomb::{
    Blackhole, Event, FieldValue, HoneycombTelemetry, HoneycombVisitor, MemorySink, Sink, Span,
    SpanId, TraceId,
};

fn text(s: &str) -> FieldValue {
    FieldValue::Str(s.to_string())
}

fn span(trace: &str, local: u64) -> Span {
    let mut values = HoneycombVisitor::new();
    values.record_u64("n", local);
    Span {
        id: SpanId::new(local, 0).unwrap(),
        trace_id: TraceId::from_str(trace),
        parent_id: None,
        initialized_at: 10,
        completed_at: 30,
        service_name: "checkout".to_string(),
        level: "INFO".to_string(),
        name: format!("span {}", local),
        target: "shop".to_string(),
        values,
    }
}

fn event(trace: &str, local: u64) -> Event {
    Event {
        trace_id: TraceId::from_str(trace),
        parent_id: SpanId::new(local, 0),
        initialized_at: 20,
        service_name: "checkout".to_string(),
        level: "DEBUG".to_string(),
        name: format!("event {}", local),
        target: "shop".to_string(),
        values: HoneycombVisitor::new(),
    }
}

#[test]
fn should_report_follows_the_rate() {
    let none = HoneycombTelemetry::new(MemorySink::new(), None);
    let all = HoneycombTelemetry::new(MemorySink::new(), Some(1));
    let half = HoneycombTelemetry::new(MemorySink::new(), Some(2));
    for trace in ["A", "B", "trace-a", "trace-b"] {
        let id = TraceId::from_str(trace);
        assert!(!none.should_report(&id));
        assert!(all.should_report(&id));
    }
    assert!(half.should_report(&TraceId::from_str("A")));
    assert!(!half.should_report(&TraceId::from_str("B")));
}

#[test]
fn mk_visitor_is_empty() {
    let telemetry = HoneycombTelemetry::new(Blackhole::new(), Some(1));
    let visitor = telemetry.mk_visitor();
    assert_eq!(visitor.get("n"), None);
}

#[test]
fn delivers_once_for_each_record_of_a_kept_trace() {
    let mut telemetry = HoneycombTelemetry::new(MemorySink::new(), Some(1));
    let n = 17;
    for i in 1..=n {
        if i % 2 == 0 {
            telemetry.report_span(span("any", i));
        } else {
            telemetry.report_event(event("any", i));
        }
        assert_eq!(telemetry.reporter().len(), i as usize);
    }
    assert_eq!(telemetry.into_reporter().len(), n as usize);
}

#[test]
fn delivers_nothing_for_a_dropped_trace() {
    let mut telemetry = HoneycombTelemetry::new(MemorySink::new(), Some(2));
    for i in 1..=9 {
        telemetry.report_span(span("B", i));
        telemetry.report_event(event("B", i));
    }
    assert_eq!(telemetry.reporter().len(), 0);
}

#[test]
fn delivers_nothing_without_a_rate() {
    let mut telemetry = HoneycombTelemetry::new(MemorySink::new(), None);
    for i in 1..=9 {
        telemetry.report_span(span("A", i));
        telemetry.report_event(event("A", i));
    }
    assert_eq!(telemetry.reporter().len(), 0);
}

#[test]
fn delivers_in_the_order_of_the_reports() {
    let mut telemetry = HoneycombTelemetry::new(MemorySink::new(), Some(1));
    telemetry.report_span(span("x", 1));
    telemetry.report_event(event("x", 2));
    telemetry.report_span(span("y", 3));
    let sink = telemetry.into_reporter();
    assert_eq!(sink.get(0).unwrap().get("name"), Some(&text("span 1")));
    assert_eq!(sink.get(1).unwrap().get("name"), Some(&text("event 2")));
    assert_eq!(sink.get(2).unwrap().get("name"), Some(&text("span 3")));
    assert!(sink.get(3).is_none());
}

#[test]
fn a_trace_is_exported_whole_or_not_at_all() {
    let traces = ["A", "B", "trace-a", "trace-b", "t0", "t1", "t2", "t3", "t4"];
    for rate in [1u32, 2, 3, 10] {
        for trace in traces {
            let mut telemetry = HoneycombTelemetry::new(MemorySink::new(), Some(rate));
            let kept = telemetry.should_report(&TraceId::from_str(trace));
            for i in 1..=4 {
                telemetry.report_span(span(trace, i));
                telemetry.report_event(event(trace, i));
            }
            let expected = if kept { 8 } else { 0 };
            assert_eq!(telemetry.reporter().len(), expected, "trace {:?} at rate {}", trace, rate);
        }
    }
}

#[test]
fn end_to_end_checkout_at_rate_two() {
    // hash("A") is even and hash("B") is odd.
    let mut telemetry = HoneycombTelemetry::new(MemorySink::new(), Some(2));
    telemetry.report_span(span("A", 1));
    telemetry.report_span(span("B", 1));
    telemetry.report_event(event("A", 1));
    telemetry.report_event(event("B", 1));
    telemetry.report_span(span("A", 2));
    telemetry.report_span(span("B", 2));
    telemetry.report_event(event("A", 2));
    telemetry.report_event(event("B", 2));
    telemetry.report_span(span("A", 3));
    telemetry.report_span(span("B", 3));
    let sink = telemetry.into_reporter();
    assert_eq!(sink.len(), 5);
    let names = ["span 1", "event 1", "span 2", "event 2", "span 3"];
    for (i, name) in names.iter().enumerate() {
        let record = sink.get(i).unwrap();
        assert_eq!(record.get("trace.trace_id"), Some(&text("A")));
        assert_eq!(record.get("service_name"), Some(&text("checkout")));
        assert_eq!(record.get("name"), Some(&text(name)));
    }
    assert_eq!(sink.get(0).unwrap().get("trace.span_id"), Some(&text("1-0")));
    assert_eq!(sink.get(0).unwrap().get("duration_ms"), Some(&FieldValue::U64(20)));
    assert_eq!(sink.get(0).unwrap().get("n"), Some(&FieldValue::U64(1)));
    assert_eq!(sink.get(1).unwrap().get("trace.parent_id"), Some(&text("1-0")));
}

#[test]
fn blackhole_takes_records_and_keeps_none() {
    let mut telemetry = HoneycombTelemetry::new(Blackhole::new(), Some(1));
    telemetry.report_span(span("A", 1));
    telemetry.report_event(event("A", 1));
    let mut sink = telemetry.into_reporter();
    sink.report_data(tracing_honeycomb::Record::new());
}

#[test]
fn a_sink_of_the_caller_takes_part() {
    struct Counter(usize);
    impl Sink for Counter {
        fn report_data(&mut self, _data: tracing_honeycomb::Record) {
            self.0 += 1;
        }
    }
    let mut telemetry = HoneycombTelemetry::new(Counter(0), Some(2));
    telemetry.report_span(span("A", 1));
    telemetry.report_span(span("B", 1));
    telemetry.report_event(event("A", 1));
    assert_eq!(telemetry.reporter().0, 2);
}

#[test]
fn the_pipeline_can_be_shared_behind_a_lock() {
    fn is_send<T: Send>(_: &T) {}
    fn is_sync<T: Sync>(_: &T) {}
    let telemetry = HoneycombTelemetry::new(MemorySink::new(), Some(1));
    is_send(&telemetry);
    let shared = std::sync::Arc::new(std::sync::Mutex::new(telemetry));
    is_send(&shared);
    is_sync(&shared);
    for i in 1..=5u64 {
        let handle = std::sync::Arc::clone(&shared);
        handle.lock().unwrap().report_span(span("A", i));
    }
    assert_eq!(shared.lock().unwrap().reporter().len(), 5);
}
