use dist_tracing::{
    current_dist_trace_ctx, register_dist_tracing_root, Attrs, Level, SpanId, SpanMeta,
    TelemetryLayer, TestTelemetry, TraceCtx, TraceCtxError, TraceId, Value,
};

type Layer = TelemetryLayer<TestTelemetry<dist_tracing::HoneycombVisitor>>;

fn meta(name: &str) -> SpanMeta {
    SpanMeta { name: name.to_string(), target: "scenario".to_string(), level: Level::Info }
}

fn span_attrs(name: &str, fields: Vec<(String, Value)>) -> Attrs {
    Attrs { meta: meta(name), parent: None, is_root: false, fields }
}

fn test_layer() -> Layer {
    TelemetryLayer::new("test_svc_name".to_string(), TestTelemetry::new(), 0)
}

fn explicit_trace_id() -> TraceId {
    TraceId(135)
}

fn explicit_parent_span_id() -> SpanId {
    SpanId { tracing_id: 246, instance_id: 0 }
}

fn event_fields() -> Vec<(String, Value)> {
    vec![
        ("duration_ms".to_string(), Value::Str("duration-value".to_string())),
        ("foo".to_string(), Value::Str("bar".to_string())),
    ]
}

fn check_scenario_results(layer: &Layer) {
    let spans = &layer.telemetry.spans;
    let events = &layer.telemetry.events;
    assert_eq!(spans.len(), 4);
    assert_eq!(events.len(), 3);

    // root span is exited (and reported) last
    let root_span = &spans[3];
    let child_spans = &spans[0..3];

    assert_eq!(root_span.parent_id, Some(explicit_parent_span_id()));
    assert_eq!(root_span.trace_id, explicit_trace_id());

    // the root span's record carries its own accumulated fields
    assert_eq!(
        root_span.values.0.get("ns"),
        Some(&Value::Str("[1, 2, 3]".to_string()))
    );

    for (span, event) in child_spans.iter().zip(events.iter()) {
        // confirm parent and trace ids are as expected
        assert_eq!(span.parent_id, Some(root_span.id));
        assert_eq!(event.parent_id, Some(span.id));
        assert_eq!(span.trace_id, explicit_trace_id());
        assert_eq!(event.trace_id, explicit_trace_id());

        // each event record carries that event's own fields, with reserved
        // names renamed
        assert_eq!(
            event.values.0.get("tracing.duration_ms"),
            Some(&Value::Str("duration-value".to_string()))
        );
        assert_eq!(event.values.0.get("foo"), Some(&Value::Str("bar".to_string())));
        assert_eq!(event.values.0.get("duration_ms"), None);
    }
}

#[test]
fn telemetry_layer_test_instrument() {
    let mut l = test_layer();
    l.new_span(
        &span_attrs("f", vec![("ns".to_string(), Value::Str("[1, 2, 3]".to_string()))]),
        1,
        0,
    );
    l.enter(1);
    register_dist_tracing_root(&mut l, explicit_trace_id(), Some(explicit_parent_span_id()))
        .unwrap();
    for n in [1u64, 2, 3] {
        let id = 1 + n;
        l.new_span(&span_attrs("g", vec![]), id, 10);
        l.enter(id);
        l.on_event(&span_attrs("event", event_fields()), 15);
        assert_eq!(
            current_dist_trace_ctx(&mut l).map(|x| x.0).unwrap(),
            explicit_trace_id(),
        );
        l.exit();
        l.on_close(id, 20);
    }
    l.exit();
    l.on_close(1, 30);
    check_scenario_results(&l);
}

// the same scenario with repeated entry and exit of each child span, as a
// suspending task would produce
#[test]
fn telemetry_layer_test_async_instrument() {
    let mut l = test_layer();
    l.new_span(
        &span_attrs("f", vec![("ns".to_string(), Value::Str("[1, 2, 3]".to_string()))]),
        1,
        0,
    );
    l.enter(1);
    register_dist_tracing_root(&mut l, explicit_trace_id(), Some(explicit_parent_span_id()))
        .unwrap();
    let mut now = 0i64;
    for n in [1u64, 2, 3] {
        let id = 1 + n;
        l.new_span(&span_attrs("g", vec![]), id, now);
        // first entry ends at a suspension point; the task resumes later
        l.enter(id);
        l.exit();
        now += 100;
        l.enter(id);
        l.on_event(&span_attrs("event", event_fields()), now);
        assert_eq!(
            current_dist_trace_ctx(&mut l).map(|x| x.0).unwrap(),
            explicit_trace_id(),
        );
        l.exit();
        l.on_close(id, now);
    }
    l.exit();
    l.on_close(1, now);
    check_scenario_results(&l);
}

#[test]
fn unregistered_tree_reports_nothing() {
    let mut l = test_layer();
    l.new_span(&span_attrs("a", vec![]), 1, 0);
    l.enter(1);
    l.new_span(&span_attrs("b", vec![]), 2, 1);
    l.enter(2);
    l.on_event(&span_attrs("event", event_fields()), 2);
    l.exit();
    l.on_close(2, 3);
    l.exit();
    l.on_close(1, 4);
    assert_eq!(l.telemetry.spans.len(), 0);
    assert_eq!(l.telemetry.events.len(), 0);
}

#[test]
fn double_registration_keeps_first() {
    let mut l = test_layer();
    l.new_span(&span_attrs("a", vec![]), 1, 0);
    l.enter(1);
    register_dist_tracing_root(&mut l, TraceId(1), None).unwrap();
    register_dist_tracing_root(&mut l, TraceId(2), None).unwrap();
    l.exit();
    l.on_close(1, 5);
    assert_eq!(l.telemetry.spans.len(), 1);
    assert_eq!(l.telemetry.spans[0].trace_id, TraceId(1));
}

#[test]
fn registration_without_current_span_fails() {
    let mut l = test_layer();
    assert_eq!(
        register_dist_tracing_root(&mut l, TraceId(1), None),
        Err(TraceCtxError::NoEnabledSpan)
    );
    assert_eq!(current_dist_trace_ctx(&mut l), Err(TraceCtxError::NoEnabledSpan));
}

#[test]
fn unregistered_current_ctx_fails() {
    let mut l = test_layer();
    l.new_span(&span_attrs("a", vec![]), 1, 0);
    l.enter(1);
    assert_eq!(
        current_dist_trace_ctx(&mut l),
        Err(TraceCtxError::NoParentNodeHasTraceCtx)
    );
}

#[test]
fn current_ctx_is_stable_across_calls() {
    let mut l = test_layer();
    l.new_span(&span_attrs("a", vec![]), 1, 0);
    l.enter(1);
    register_dist_tracing_root(&mut l, TraceId(9), Some(explicit_parent_span_id())).unwrap();
    l.new_span(&span_attrs("b", vec![]), 2, 1);
    l.enter(2);
    // the first call caches the resolution; the second answers from the cache
    let first = current_dist_trace_ctx(&mut l);
    let second = current_dist_trace_ctx(&mut l);
    assert_eq!(first, Ok((TraceId(9), SpanId { tracing_id: 2, instance_id: 0 })));
    assert_eq!(first, second);
}

#[test]
fn root_without_remote_parent_closes_unparented() {
    let mut l = test_layer();
    l.new_span(&span_attrs("a", vec![]), 1, 0);
    l.enter(1);
    register_dist_tracing_root(&mut l, TraceId(7), None).unwrap();
    l.exit();
    l.on_close(1, 3);
    assert_eq!(l.telemetry.spans.len(), 1);
    assert_eq!(l.telemetry.spans[0].parent_id, None);
    assert_eq!(l.telemetry.spans[0].trace_id, TraceId(7));
    assert_eq!(l.telemetry.spans[0].elapsed_ms, 3);
}

#[test]
fn cross_process_continuation() {
    // first process: a root with no remote parent
    let mut p1 = TelemetryLayer::new(
        "p1".to_string(),
        TestTelemetry::<dist_tracing::HoneycombVisitor>::new(),
        1,
    );
    p1.new_span(&span_attrs("a", vec![]), 1, 0);
    p1.enter(1);
    let t = TraceId(7);
    register_dist_tracing_root(&mut p1, t, None).unwrap();
    let (tid, sid) = current_dist_trace_ctx(&mut p1).unwrap();
    assert_eq!(tid, t);
    assert_eq!(sid, SpanId { tracing_id: 1, instance_id: 1 });
    p1.exit();
    p1.on_close(1, 5);
    assert_eq!(p1.telemetry.spans.len(), 1);
    assert_eq!(p1.telemetry.spans[0].trace_id, t);
    assert_eq!(p1.telemetry.spans[0].id, sid);
    assert_eq!(p1.telemetry.spans[0].parent_id, None);

    // carried over a transport in printable form
    let carried_trace = tid.into_string();
    let carried_span = sid.into_string();

    // second process: a root continuing the trace under a remote parent
    let mut p2 = TelemetryLayer::new(
        "p2".to_string(),
        TestTelemetry::<dist_tracing::HoneycombVisitor>::new(),
        2,
    );
    let t2 = TraceId::from_string(&carried_trace).unwrap();
    let s2 = SpanId::from_string(&carried_span).unwrap();
    p2.new_span(&span_attrs("b", vec![]), 1, 0);
    p2.enter(1);
    register_dist_tracing_root(&mut p2, t2, Some(s2)).unwrap();
    p2.exit();
    p2.on_close(1, 9);
    assert_eq!(p2.telemetry.spans.len(), 1);
    assert_eq!(p2.telemetry.spans[0].trace_id, t);
    assert_eq!(p2.telemetry.spans[0].id, SpanId { tracing_id: 1, instance_id: 2 });
    assert_eq!(p2.telemetry.spans[0].parent_id, Some(sid));
}

#[test]
fn interleaved_roots_report_separately() {
    let mut l = test_layer();
    let t1 = TraceId(21);
    let t2 = TraceId(22);
    l.new_span(&Attrs { meta: meta("r1"), parent: None, is_root: true, fields: vec![] }, 1, 0);
    l.new_span(&Attrs { meta: meta("r2"), parent: None, is_root: true, fields: vec![] }, 2, 0);
    l.enter(1);
    register_dist_tracing_root(&mut l, t1, None).unwrap();
    l.exit();
    l.enter(2);
    register_dist_tracing_root(&mut l, t2, None).unwrap();
    l.exit();
    // two events per root, interleaved as concurrent tasks would emit them
    for now in [1i64, 2] {
        l.on_event(
            &Attrs { meta: meta("e1"), parent: Some(1), is_root: false, fields: event_fields() },
            now,
        );
        l.on_event(
            &Attrs { meta: meta("e2"), parent: Some(2), is_root: false, fields: event_fields() },
            now,
        );
    }
    l.on_close(1, 5);
    l.on_close(2, 6);
    let spans = &l.telemetry.spans;
    let events = &l.telemetry.events;
    assert_eq!(spans.len(), 2);
    assert_eq!(events.len(), 4);
    for event in events.iter() {
        let owner = spans
            .iter()
            .find(|s| Some(s.id) == event.parent_id)
            .expect("event parented to an unknown span");
        assert_eq!(event.trace_id, owner.trace_id);
    }
    assert_eq!(spans[0].trace_id, t1);
    assert_eq!(spans[1].trace_id, t2);
    assert_eq!(events[0].parent_id, Some(spans[0].id));
    assert_eq!(events[1].parent_id, Some(spans[1].id));
}

#[test]
fn distant_ancestor_is_discovered() {
    // the nearest ancestor carries no context; a more distant one does
    let mut l = test_layer();
    l.new_span(&span_attrs("a", vec![]), 1, 0);
    l.enter(1);
    register_dist_tracing_root(&mut l, TraceId(5), Some(explicit_parent_span_id())).unwrap();
    l.new_span(&span_attrs("b", vec![]), 2, 1);
    l.enter(2);
    l.new_span(&span_attrs("c", vec![]), 3, 2);
    l.enter(3);
    let (tid, sid) = current_dist_trace_ctx(&mut l).unwrap();
    assert_eq!(tid, TraceId(5));
    assert_eq!(sid, SpanId { tracing_id: 3, instance_id: 0 });
    l.exit();
    l.on_close(3, 4);
    l.exit();
    l.on_close(2, 5);
    l.exit();
    l.on_close(1, 6);
    let spans = &l.telemetry.spans;
    assert_eq!(spans.len(), 3);
    // the grandchild's parent is its immediate in-process parent, not the
    // root's remote parent
    assert_eq!(spans[0].parent_id, Some(SpanId { tracing_id: 2, instance_id: 0 }));
    assert_eq!(spans[1].parent_id, Some(SpanId { tracing_id: 1, instance_id: 0 }));
    assert_eq!(spans[2].parent_id, Some(explicit_parent_span_id()));
}

#[test]
fn event_marked_root_is_dropped() {
    let mut l = test_layer();
    l.new_span(&span_attrs("a", vec![]), 1, 0);
    l.enter(1);
    register_dist_tracing_root(&mut l, TraceId(3), None).unwrap();
    l.on_event(&Attrs { meta: meta("e"), parent: None, is_root: true, fields: vec![] }, 1);
    assert_eq!(l.telemetry.events.len(), 0);
    l.on_event(&Attrs { meta: meta("e"), parent: None, is_root: false, fields: vec![] }, 1);
    assert_eq!(l.telemetry.events.len(), 1);
}

#[test]
fn blackhole_layer_accepts_a_trace() {
    let mut l = dist_tracing::new_blackhole_telemetry_layer();
    l.new_span(&span_attrs("a", vec![]), 1, 0);
    l.enter(1);
    register_dist_tracing_root(&mut l, TraceId(1), None).unwrap();
    let (tid, sid) = current_dist_trace_ctx(&mut l).unwrap();
    assert_eq!(tid, TraceId(1));
    assert_eq!(sid, SpanId { tracing_id: 1, instance_id: 0 });
    l.exit();
    l.on_close(1, 2);
}

#[test]
fn trace_ctx_methods_register() {
    let mut l = test_layer();
    l.new_span(&span_attrs("a", vec![]), 1, 0);
    l.enter(1);
    let ctx = TraceCtx { trace_id: TraceId(4), parent_span: None };
    ctx.register_dist_tracing_root(&mut l).unwrap();
    l.exit();
    l.on_close(1, 2);
    assert_eq!(l.telemetry.spans[0].trace_id, TraceId(4));

    let mut l2 = test_layer();
    l2.new_span(&span_attrs("a", vec![]), 1, 0);
    l2.enter(1);
    TraceId(6).record_on_current_span(&mut l2).unwrap();
    l2.exit();
    l2.on_close(1, 2);
    assert_eq!(l2.telemetry.spans[0].trace_id, TraceId(6));
    assert_eq!(l2.telemetry.spans[0].parent_id, None);
}
