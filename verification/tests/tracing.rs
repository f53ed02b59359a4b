use reg_core::span_id::format_span_id;
use reg_core::tracing_layer::clear_trace_data;
use reg_core::tracing_layer::get_trace_data;
use reg_core::tracing_layer::set_js_trace_context;
use reg_core::tracing_layer::CollectorLayer;
use reg_core::tracing_layer::SpanData;
use reg_core::tracing_layer::TraceCollector;
use reg_core::tracing_layer::TraceData;

fn start(collector: &mut TraceCollector, now: u64, id: u64, parent: Option<u64>, name: &str) {
    collector.start_span_at(
        now,
        id,
        parent,
        name.to_string(),
        "INFO".to_string(),
        "reg_core".to_string(),
    );
}

fn spans(collector: &TraceCollector) -> Vec<SpanData> {
    let data: TraceData = get_trace_data(collector);
    data.spans
}

#[test]
fn span_ids_are_sixteen_hexadecimal_digits() {
    assert_eq!(format_span_id(0), "0000000000000000");
    assert_eq!(format_span_id(1), "0000000000000001");
    assert_eq!(format_span_id(255), "00000000000000ff");
    assert_eq!(format_span_id(0xdead_beef), "00000000deadbeef");
    assert_eq!(format_span_id(0x0123_4567_89ab_cdef), "0123456789abcdef");
    assert_eq!(format_span_id(u64::MAX), "ffffffffffffffff");
    for id in [0u64, 9, 10, 15, 16, 4095, 1 << 40, u64::MAX - 1] {
        assert_eq!(format_span_id(id), format!("{:016x}", id));
    }
}

#[test]
fn new_collector_has_no_spans() {
    let collector = TraceCollector::new();
    assert_eq!(collector.finished_count(), 0);
    assert!(!collector.is_active(1));
    let data = get_trace_data(&collector);
    assert_eq!(data.service_name, "reg-cli-wasm");
    assert_eq!(data.trace_id, None);
    assert_eq!(data.js_parent_span_id, None);
    assert!(data.spans.is_empty());
}

#[test]
fn a_span_is_finished_when_it_is_closed() {
    let mut collector = TraceCollector::new();
    start(&mut collector, 1_000, 7, None, "find-images");
    assert!(collector.is_active(7));
    assert_eq!(collector.finished_count(), 0);
    collector.end_span_at(1_250, 7, None);
    assert!(!collector.is_active(7));
    let spans = spans(&collector);
    assert_eq!(spans.len(), 1);
    assert_eq!(spans[0].span_id, "0000000000000001");
    assert_eq!(spans[0].parent_span_id, None);
    assert_eq!(spans[0].name, "find-images");
    assert_eq!(spans[0].start_time_ms, 1_000);
    assert_eq!(spans[0].end_time_ms, 1_250);
    assert_eq!(spans[0].duration_ms, 250);
    assert_eq!(spans[0].level, "INFO");
    assert_eq!(spans[0].target, "reg_core");
    assert_eq!(spans[0].attributes.len(), 0);
    assert_eq!(spans[0].status, "ok");
    assert_eq!(spans[0].error_message, None);
}

#[test]
fn a_span_that_is_not_closed_is_not_exported() {
    let mut collector = TraceCollector::new();
    start(&mut collector, 1, 1, None, "a");
    start(&mut collector, 2, 2, None, "b");
    collector.end_span_at(3, 2, None);
    let spans = spans(&collector);
    assert_eq!(spans.len(), 1);
    assert_eq!(spans[0].name, "b");
    assert!(collector.is_active(1));
}

#[test]
fn closing_a_span_with_an_error() {
    let mut collector = TraceCollector::new();
    start(&mut collector, 10, 3, None, "diff");
    collector.end_span_at(20, 3, Some("bad image".to_string()));
    let spans = spans(&collector);
    assert_eq!(spans[0].status, "error");
    assert_eq!(spans[0].error_message, Some("bad image".to_string()));
}

#[test]
fn duration_is_zero_where_the_clock_went_back() {
    let mut collector = TraceCollector::new();
    start(&mut collector, 500, 1, None, "a");
    collector.end_span_at(400, 1, None);
    start(&mut collector, 500, 2, None, "b");
    collector.end_span_at(500, 2, None);
    let spans = spans(&collector);
    assert_eq!(spans[0].duration_ms, 0);
    assert_eq!(spans[0].end_time_ms, 400);
    assert_eq!(spans[1].duration_ms, 0);
}

#[test]
fn closing_a_span_twice_has_no_effect() {
    let mut collector = TraceCollector::new();
    start(&mut collector, 1, 9, None, "once");
    collector.end_span_at(2, 9, None);
    collector.end_span_at(3, 9, Some("late".to_string()));
    let spans = spans(&collector);
    assert_eq!(spans.len(), 1);
    assert_eq!(spans[0].end_time_ms, 2);
    assert_eq!(spans[0].status, "ok");
}

#[test]
fn closing_an_unknown_span_has_no_effect() {
    let mut collector = TraceCollector::new();
    collector.end_span_at(1, 42, None);
    collector.end_span(43, None);
    assert_eq!(collector.finished_count(), 0);
}

#[test]
fn many_spans_give_as_many_finished_spans_with_ids_of_their_own() {
    let n = 64u64;
    let mut collector = TraceCollector::new();
    for id in 0..n {
        collector.start_span(
            1000 + id,
            None,
            format!("span-{}", id),
            "INFO".to_string(),
            "t".to_string(),
        );
    }
    assert_eq!(collector.finished_count(), 0);
    for id in (0..n).rev() {
        collector.end_span(1000 + id, None);
    }
    let spans = spans(&collector);
    assert_eq!(spans.len(), n as usize);
    let mut ids: Vec<String> = spans.iter().map(|s| s.span_id.clone()).collect();
    ids.sort();
    ids.dedup();
    assert_eq!(ids.len(), n as usize);
    for span in spans.iter() {
        assert!(span.end_time_ms >= span.start_time_ms);
        assert_eq!(span.duration_ms, span.end_time_ms - span.start_time_ms);
        assert_eq!(span.parent_span_id, None);
    }
    for id in 0..n {
        collector.end_span(1000 + id, None);
    }
    assert_eq!(collector.finished_count(), n as usize);
}

#[test]
fn interleaved_spans() {
    let mut collector = TraceCollector::new();
    start(&mut collector, 1, 1, None, "a");
    start(&mut collector, 2, 2, None, "b");
    collector.end_span_at(3, 1, None);
    start(&mut collector, 4, 3, None, "c");
    collector.end_span_at(5, 3, None);
    collector.end_span_at(6, 2, None);
    let names: Vec<String> = spans(&collector).iter().map(|s| s.name.clone()).collect();
    assert_eq!(names, vec!["a".to_string(), "c".to_string(), "b".to_string()]);
}

#[test]
fn stable_ids_grow_with_each_span() {
    let mut collector = TraceCollector::new();
    start(&mut collector, 1, 100, None, "a");
    collector.end_span_at(2, 100, None);
    start(&mut collector, 3, 100, None, "b");
    collector.end_span_at(4, 100, None);
    let spans = spans(&collector);
    assert_eq!(spans[0].span_id, "0000000000000001");
    assert_eq!(spans[1].span_id, "0000000000000002");
}

#[test]
fn parent_is_resolved_to_its_stable_id() {
    let mut collector = TraceCollector::new();
    start(&mut collector, 1, 50, None, "root");
    start(&mut collector, 2, 60, Some(50), "child");
    start(&mut collector, 3, 70, Some(999), "orphan");
    collector.end_span_at(4, 60, None);
    collector.end_span_at(5, 70, None);
    collector.end_span_at(6, 50, None);
    let spans = spans(&collector);
    assert_eq!(spans[0].name, "child");
    assert_eq!(spans[0].span_id, "0000000000000002");
    assert_eq!(spans[0].parent_span_id, Some("0000000000000001".to_string()));
    assert_eq!(spans[1].name, "orphan");
    assert_eq!(spans[1].parent_span_id, None);
    assert_eq!(spans[2].name, "root");
    assert_eq!(spans[2].parent_span_id, None);
}

#[test]
fn parent_stays_known_after_it_was_closed() {
    let mut collector = TraceCollector::new();
    start(&mut collector, 1, 50, None, "root");
    collector.end_span_at(2, 50, None);
    start(&mut collector, 3, 60, Some(50), "late child");
    collector.end_span_at(4, 60, None);
    assert_eq!(spans(&collector)[1].parent_span_id, Some("0000000000000001".to_string()));
}

#[test]
fn attributes_are_recorded_while_the_span_is_active() {
    let mut collector = TraceCollector::new();
    collector.record_attribute(5, "early".to_string(), "dropped".to_string());
    start(&mut collector, 1, 5, None, "diff");
    collector.record_attribute(5, "image".to_string(), "a.png".to_string());
    collector.record_attribute(5, "size".to_string(), "10".to_string());
    collector.record_attribute(5, "size".to_string(), "12".to_string());
    collector.record_attribute(6, "image".to_string(), "other".to_string());
    collector.end_span_at(2, 5, None);
    collector.record_attribute(5, "late".to_string(), "dropped".to_string());
    let spans = spans(&collector);
    assert_eq!(
        spans[0].attributes.to_vec(),
        vec![
            ("image".to_string(), "a.png".to_string()),
            ("size".to_string(), "12".to_string())
        ]
    );
    assert_eq!(spans[0].attributes.get("early"), None);
    assert_eq!(spans[0].attributes.get("late"), None);
}

#[test]
fn external_context_is_exported_and_leaves_the_spans_alone() {
    let mut collector = TraceCollector::new();
    start(&mut collector, 1, 1, None, "a");
    collector.end_span_at(2, 1, None);
    set_js_trace_context(&mut collector, Some("trace-1"), Some("span-9"));
    let data = get_trace_data(&collector);
    assert_eq!(data.trace_id, Some("trace-1".to_string()));
    assert_eq!(data.js_parent_span_id, Some("span-9".to_string()));
    assert_eq!(data.spans.len(), 1);
    assert_eq!(data.spans[0].span_id, "0000000000000001");
    assert_eq!(data.spans[0].parent_span_id, None);
    set_js_trace_context(&mut collector, None, Some("span-10"));
    let data = get_trace_data(&collector);
    assert_eq!(data.trace_id, None);
    assert_eq!(data.js_parent_span_id, Some("span-10".to_string()));
}

#[test]
fn export_does_not_change_the_collector() {
    let mut collector = TraceCollector::new();
    start(&mut collector, 1, 1, None, "a");
    collector.end_span_at(2, 1, None);
    let first = get_trace_data(&collector);
    let second = get_trace_data(&collector);
    assert_eq!(first.spans.len(), 1);
    assert_eq!(second.spans.len(), 1);
    assert_eq!(first.spans[0].span_id, second.spans[0].span_id);
}

#[test]
fn clear_drops_everything_that_was_collected() {
    let mut collector = TraceCollector::new();
    set_js_trace_context(&mut collector, Some("t"), Some("p"));
    start(&mut collector, 1, 1, None, "done");
    collector.end_span_at(2, 1, None);
    start(&mut collector, 3, 2, None, "open");
    clear_trace_data(&mut collector);
    let data = get_trace_data(&collector);
    assert!(data.spans.is_empty());
    assert_eq!(data.trace_id, None);
    assert_eq!(data.js_parent_span_id, None);
    assert!(!collector.is_active(2));
    collector.end_span_at(4, 2, None);
    assert_eq!(collector.finished_count(), 0);
    start(&mut collector, 5, 3, Some(1), "after");
    collector.end_span_at(6, 3, None);
    let spans = spans(&collector);
    assert_eq!(spans.len(), 1);
    assert_eq!(spans[0].span_id, "0000000000000003");
    assert_eq!(spans[0].parent_span_id, None);
}

#[test]
fn layer_registers_spans_under_the_explicit_or_the_current_span() {
    let layer = CollectorLayer::new();
    let mut collector = TraceCollector::new();
    layer.on_new_span(
        &mut collector,
        1,
        None,
        None,
        "root".to_string(),
        "INFO".to_string(),
        "t".to_string(),
    );
    layer.on_new_span(
        &mut collector,
        2,
        None,
        Some(1),
        "implicit".to_string(),
        "DEBUG".to_string(),
        "t".to_string(),
    );
    layer.on_new_span(
        &mut collector,
        3,
        Some(2),
        Some(1),
        "explicit".to_string(),
        "TRACE".to_string(),
        "t".to_string(),
    );
    layer.on_record(&mut collector, 3, "k".to_string(), "v".to_string());
    layer.on_event(&mut collector, Some(2), "message".to_string(), "hello".to_string());
    layer.on_event(&mut collector, None, "message".to_string(), "lost".to_string());
    layer.on_close(&mut collector, 3);
    layer.on_close(&mut collector, 2);
    layer.on_close(&mut collector, 1);
    let spans = spans(&collector);
    assert_eq!(spans.len(), 3);
    assert_eq!(spans[0].name, "explicit");
    assert_eq!(spans[0].parent_span_id, Some("0000000000000002".to_string()));
    assert_eq!(spans[0].attributes.get("k"), Some(&"v".to_string()));
    assert_eq!(spans[0].level, "TRACE");
    assert_eq!(spans[1].name, "implicit");
    assert_eq!(spans[1].parent_span_id, Some("0000000000000001".to_string()));
    assert_eq!(spans[1].attributes.get("message"), Some(&"hello".to_string()));
    assert_eq!(spans[2].name, "root");
    assert_eq!(spans[2].parent_span_id, None);
    assert_eq!(spans[2].attributes.len(), 0);
    for span in spans.iter() {
        assert_eq!(span.status, "ok");
        assert!(span.end_time_ms >= span.start_time_ms || span.duration_ms == 0);
    }
}
