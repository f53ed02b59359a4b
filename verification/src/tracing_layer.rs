//! Collection of span data for export.
//!
//! A `TraceCollector` registers spans as they are entered, takes their
//! attributes while they are active, and turns each into a finished
//! `SpanData` when it is closed. What it has collected can be read at any
//! time and is handed on to whoever exports it.

use crate::attributes::Attributes;
use crate::dir::opt_text;
use crate::span_id::format_span_id;
use crate::span_id::opt_span_id_text;
use crate::span_id::span_id_text;
use std::collections::HashMap;
use std::time::Duration;
use std::time::SystemTime;
use std::time::UNIX_EPOCH;
use vstd::prelude::*;
use vstd::std_specs::hash::*;

verus! {

broadcast use vstd::std_specs::hash::group_hash_axioms;

/// The name under which the collected spans are exported.
pub const SERVICE_NAME: &'static str = "reg-cli-wasm";

/// A completed span with all its metadata.
#[derive(Debug)]
pub struct SpanData {
    /// Unique identifier of this span.
    pub span_id: String,
    /// The span that this one was entered in, if any.
    pub parent_span_id: Option<String>,
    /// The name of the span.
    pub name: String,
    /// When the span was entered, in milliseconds since the epoch.
    pub start_time_ms: u64,
    /// When the span was closed, in milliseconds since the epoch.
    pub end_time_ms: u64,
    /// How long the span lasted, in milliseconds.
    pub duration_ms: u64,
    /// The level of the span.
    pub level: String,
    /// The module that the span belongs to.
    pub target: String,
    /// What was recorded while the span was active.
    pub attributes: Attributes,
    /// `ok` or `error`.
    pub status: String,
    /// The error, where the status is `error`.
    pub error_message: Option<String>,
}

/// A `SpanData` over sequences and maps.
pub struct SpanView {
    pub span_id: Seq<char>,
    pub parent_span_id: Option<Seq<char>>,
    pub name: Seq<char>,
    pub start_time_ms: u64,
    pub end_time_ms: u64,
    pub duration_ms: u64,
    pub level: Seq<char>,
    pub target: Seq<char>,
    pub attributes: Map<Seq<char>, Seq<char>>,
    pub status: Seq<char>,
    pub error_message: Option<Seq<char>>,
}

impl View for SpanData {
    type V = SpanView;

    open spec fn view(&self) -> SpanView {
        SpanView {
            span_id: self.span_id@,
            parent_span_id: opt_text(self.parent_span_id),
            name: self.name@,
            start_time_ms: self.start_time_ms,
            end_time_ms: self.end_time_ms,
            duration_ms: self.duration_ms,
            level: self.level@,
            target: self.target@,
            attributes: self.attributes@,
            status: self.status@,
            error_message: opt_text(self.error_message),
        }
    }
}

impl Clone for SpanData {
    fn clone(&self) -> (copy: SpanData)
        ensures
            copy@ == self@,
    {
        SpanData {
            span_id: self.span_id.clone(),
            parent_span_id: self.parent_span_id.clone(),
            name: self.name.clone(),
            start_time_ms: self.start_time_ms,
            end_time_ms: self.end_time_ms,
            duration_ms: self.duration_ms,
            level: self.level.clone(),
            target: self.target.clone(),
            attributes: self.attributes.clone(),
            status: self.status.clone(),
            error_message: self.error_message.clone(),
        }
    }
}

/// The spans of `spans` as views.
pub open spec fn span_views(spans: Seq<SpanData>) -> Seq<SpanView> {
    Seq::new(spans.len(), |i: int| spans[i]@)
}

/// All that was collected, as it is exported.
#[derive(Debug)]
pub struct TraceData {
    /// The name of the service.
    pub service_name: String,
    /// The trace that the spans belong to, where the caller named one.
    pub trace_id: Option<String>,
    /// The span of the caller under which the spans stand.
    pub js_parent_span_id: Option<String>,
    /// All completed spans, in the order in which they were closed.
    pub spans: Vec<SpanData>,
}

/// A `TraceData` over sequences.
pub struct TraceView {
    pub service_name: Seq<char>,
    pub trace_id: Option<Seq<char>>,
    pub js_parent_span_id: Option<Seq<char>>,
    pub spans: Seq<SpanView>,
}

impl View for TraceData {
    type V = TraceView;

    open spec fn view(&self) -> TraceView {
        TraceView {
            service_name: self.service_name@,
            trace_id: opt_text(self.trace_id),
            js_parent_span_id: opt_text(self.js_parent_span_id),
            spans: span_views(self.spans@),
        }
    }
}

/// A span that was entered and is not closed yet.
#[derive(Debug)]
struct ActiveSpan {
    unique_id: u64,
    name: String,
    start_time_ms: u64,
    parent_unique_id: Option<u64>,
    level: String,
    target: String,
    attributes: Attributes,
}

/// An active span over sequences and maps.
pub struct ActiveView {
    pub unique_id: u64,
    pub name: Seq<char>,
    pub start_time_ms: u64,
    pub parent_unique_id: Option<u64>,
    pub level: Seq<char>,
    pub target: Seq<char>,
    pub attributes: Map<Seq<char>, Seq<char>>,
}

impl View for ActiveSpan {
    type V = ActiveView;

    closed spec fn view(&self) -> ActiveView {
        ActiveView {
            unique_id: self.unique_id,
            name: self.name@,
            start_time_ms: self.start_time_ms,
            parent_unique_id: self.parent_unique_id,
            level: self.level@,
            target: self.target@,
            attributes: self.attributes@,
        }
    }
}

/// The registry of spans.
#[derive(Debug)]
pub struct TraceCollector {
    spans: Vec<SpanData>,
    /// The stable id that was given to each id of the instrumentation.
    id_mapping: HashMap<u64, u64>,
    active_spans: HashMap<u64, ActiveSpan>,
    trace_id: Option<String>,
    js_parent_span_id: Option<String>,
    /// The stable id that the next span gets.
    next_id: u64,
}

/// The state of a `TraceCollector`.
pub struct CollectorView {
    /// The finished spans, in the order in which they were closed.
    pub spans: Seq<SpanView>,
    /// The stable id of each id of the instrumentation that was seen.
    pub id_mapping: Map<u64, u64>,
    /// The spans that are entered and not closed, by their id of the
    /// instrumentation.
    pub active_spans: Map<u64, ActiveView>,
    pub trace_id: Option<Seq<char>>,
    pub js_parent_span_id: Option<Seq<char>>,
    /// The stable id that the next span gets.
    pub next_id: u64,
}

impl View for TraceCollector {
    type V = CollectorView;

    closed spec fn view(&self) -> CollectorView {
        CollectorView {
            spans: span_views(self.spans@),
            id_mapping: self.id_mapping@,
            active_spans: self.active_spans@.map_values(|active: ActiveSpan| active@),
            trace_id: opt_text(self.trace_id),
            js_parent_span_id: opt_text(self.js_parent_span_id),
            next_id: self.next_id,
        }
    }
}

/// The state of a collector that has seen nothing.
pub open spec fn empty_collector(next_id: u64) -> CollectorView {
    CollectorView {
        spans: Seq::empty(),
        id_mapping: Map::empty(),
        active_spans: Map::empty(),
        trace_id: None,
        js_parent_span_id: None,
        next_id,
    }
}

/// The stable id after `id`. After the last one the ids start again at 0.
pub open spec fn next_unique_id(id: u64) -> u64 {
    if id == u64::MAX {
        0
    } else {
        (id + 1) as u64
    }
}

/// The state after the identifiers of an external caller were recorded.
pub open spec fn spec_set_js_context(
    state: CollectorView,
    trace_id: Option<Seq<char>>,
    parent_span_id: Option<Seq<char>>,
) -> CollectorView {
    CollectorView { trace_id, js_parent_span_id: parent_span_id, ..state }
}

/// The state after a span was entered at time `now`: the span gets the next
/// stable id, which is recorded for its id of the instrumentation; its
/// parent is the stable id recorded for the parent's id, if one is; and it
/// is active, without attributes.
pub open spec fn spec_start_span(
    state: CollectorView,
    now: u64,
    tracing_id: u64,
    parent_tracing_id: Option<u64>,
    name: Seq<char>,
    level: Seq<char>,
    target: Seq<char>,
) -> CollectorView {
    let id_mapping = state.id_mapping.insert(tracing_id, state.next_id);
    let parent_unique_id = match parent_tracing_id {
        Some(parent) => if id_mapping.contains_key(parent) {
            Some(id_mapping[parent])
        } else {
            None
        },
        None => None,
    };
    CollectorView {
        id_mapping,
        active_spans: state.active_spans.insert(
            tracing_id,
            ActiveView {
                unique_id: state.next_id,
                name,
                start_time_ms: now,
                parent_unique_id,
                level,
                target,
                attributes: Map::empty(),
            },
        ),
        next_id: next_unique_id(state.next_id),
        ..state
    }
}

/// The state after a value was recorded for a span: the value stands under
/// its key among the attributes of the span if the span is active, and
/// nothing changes if it is not.
pub open spec fn spec_record_attribute(
    state: CollectorView,
    tracing_id: u64,
    key: Seq<char>,
    value: Seq<char>,
) -> CollectorView {
    if state.active_spans.contains_key(tracing_id) {
        let active = state.active_spans[tracing_id];
        CollectorView {
            active_spans: state.active_spans.insert(
                tracing_id,
                ActiveView { attributes: active.attributes.insert(key, value), ..active },
            ),
            ..state
        }
    } else {
        state
    }
}

/// The time between the start and the end of a span, and 0 where the clock
/// went back in between.
pub open spec fn spec_duration(start: u64, end: u64) -> u64 {
    if end >= start {
        (end - start) as u64
    } else {
        0
    }
}

/// The finished span that an active span becomes when it is closed at time
/// `now`.
pub open spec fn finished_span(active: ActiveView, now: u64, error: Option<Seq<char>>) -> SpanView {
    SpanView {
        span_id: span_id_text(active.unique_id),
        parent_span_id: opt_span_id_text(active.parent_unique_id),
        name: active.name,
        start_time_ms: active.start_time_ms,
        end_time_ms: now,
        duration_ms: spec_duration(active.start_time_ms, now),
        level: active.level,
        target: active.target,
        attributes: active.attributes,
        status: if error is Some {
            "error"@
        } else {
            "ok"@
        },
        error_message: error,
    }
}

/// The state after a span was closed at time `now`: if the span is active
/// it is so no longer, and its finished span is the last of the finished
/// ones; if it is not, nothing changes.
pub open spec fn spec_end_span(
    state: CollectorView,
    now: u64,
    tracing_id: u64,
    error: Option<Seq<char>>,
) -> CollectorView {
    if state.active_spans.contains_key(tracing_id) {
        CollectorView {
            spans: state.spans.push(finished_span(state.active_spans[tracing_id], now, error)),
            active_spans: state.active_spans.remove(tracing_id),
            ..state
        }
    } else {
        state
    }
}

/// The state after everything that was collected was dropped. The stable
/// ids go on where they were, so that no id is given twice.
pub open spec fn spec_clear(state: CollectorView) -> CollectorView {
    empty_collector(state.next_id)
}

/// What is exported of a state.
pub open spec fn spec_trace_data(state: CollectorView) -> TraceView {
    TraceView {
        service_name: SERVICE_NAME@,
        trace_id: state.trace_id,
        js_parent_span_id: state.js_parent_span_id,
        spans: state.spans,
    }
}

impl TraceCollector {
    /// A collector that has seen nothing. Its first span gets the id 1.
    pub fn new() -> (collector: TraceCollector)
        ensures
            collector@ == empty_collector(1),
    {
        let collector = TraceCollector {
            spans: Vec::new(),
            id_mapping: HashMap::new(),
            active_spans: HashMap::new(),
            trace_id: None,
            js_parent_span_id: None,
            next_id: 1,
        };
        assert(collector@.spans =~= Seq::<SpanView>::empty());
        assert(collector@.active_spans =~= Map::<u64, ActiveView>::empty());
        collector
    }

    /// Calls `std::time::SystemTime::now` and counts the milliseconds since
    /// the epoch, 0 for a time before it. Nothing is known of the result.
    #[verifier::external_body]
    fn current_time_ms() -> u64 {
        SystemTime::now().duration_since(UNIX_EPOCH).unwrap_or(Duration::ZERO).as_millis() as u64
    }

    /// Hands out the next stable id.
    fn generate_unique_id(&mut self) -> (id: u64)
        ensures
            id == old(self)@.next_id,
            final(self)@ == (CollectorView { next_id: next_unique_id(id), ..old(self)@ }),
    {
        let id = self.next_id;
        self.next_id = if id == u64::MAX {
            0
        } else {
            id + 1
        };
        id
    }

    /// Records the identifiers that an external caller supplied. The spans
    /// and their ids stay as they are.
    pub fn set_js_context(&mut self, trace_id: Option<String>, parent_span_id: Option<String>)
        ensures
            final(self)@ == spec_set_js_context(
                old(self)@,
                opt_text(trace_id),
                opt_text(parent_span_id),
            ),
    {
        self.trace_id = trace_id;
        self.js_parent_span_id = parent_span_id;
    }

    /// Registers a span that was entered at time `now`.
    pub fn start_span_at(
        &mut self,
        now: u64,
        tracing_id: u64,
        parent_tracing_id: Option<u64>,
        name: String,
        level: String,
        target: String,
    )
        ensures
            final(self)@ == spec_start_span(
                old(self)@,
                now,
                tracing_id,
                parent_tracing_id,
                name@,
                level@,
                target@,
            ),
    {
        let unique_id = self.generate_unique_id();
        self.id_mapping.insert(tracing_id, unique_id);
        let parent_unique_id = match parent_tracing_id {
            Some(parent) => match self.id_mapping.get(&parent) {
                Some(unique) => Some(*unique),
                None => None,
            },
            None => None,
        };
        let active = ActiveSpan {
            unique_id,
            name,
            start_time_ms: now,
            parent_unique_id,
            level,
            target,
            attributes: Attributes::new(),
        };
        self.active_spans.insert(tracing_id, active);
        assert(self@.active_spans =~= spec_start_span(
            old(self)@,
            now,
            tracing_id,
            parent_tracing_id,
            name@,
            level@,
            target@,
        ).active_spans);
    }

    /// Registers a span that is entered now. Whatever the clock says, the
    /// state is the one that `spec_start_span` gives for some time.
    pub fn start_span(
        &mut self,
        tracing_id: u64,
        parent_tracing_id: Option<u64>,
        name: String,
        level: String,
        target: String,
    )
        ensures
            exists|now: u64|
                final(self)@ == #[trigger] spec_start_span(
                    old(self)@,
                    now,
                    tracing_id,
                    parent_tracing_id,
                    name@,
                    level@,
                    target@,
                ),
    {
        let start_time_ms = Self::current_time_ms();
        self.start_span_at(start_time_ms, tracing_id, parent_tracing_id, name, level, target);
    }

    /// Records a value among the attributes of a span. Does nothing if the
    /// span is not active.
    pub fn record_attribute(&mut self, tracing_id: u64, key: String, value: String)
        ensures
            final(self)@ == spec_record_attribute(old(self)@, tracing_id, key@, value@),
    {
        match self.active_spans.remove(&tracing_id) {
            Some(span) => {
                let mut span = span;
                span.attributes.insert(key, value);
                self.active_spans.insert(tracing_id, span);
                assert(self@.active_spans =~= spec_record_attribute(
                    old(self)@,
                    tracing_id,
                    key@,
                    value@,
                ).active_spans);
            },
            None => {
                assert(self@.active_spans =~= old(self)@.active_spans);
            },
        }
    }

    /// Closes a span at time `now`. Does nothing if the span is not active.
    pub fn end_span_at(&mut self, now: u64, tracing_id: u64, error_message: Option<String>)
        ensures
            final(self)@ == spec_end_span(old(self)@, now, tracing_id, opt_text(error_message)),
    {
        match self.active_spans.remove(&tracing_id) {
            Some(active) => {
                let duration_ms = if now >= active.start_time_ms {
                    now - active.start_time_ms
                } else {
                    0
                };
                let parent_span_id = match active.parent_unique_id {
                    Some(parent) => Some(format_span_id(parent)),
                    None => None,
                };
                let status = if error_message.is_some() {
                    "error".to_owned()
                } else {
                    "ok".to_owned()
                };
                let ghost finished = finished_span(active@, now, opt_text(error_message));
                self.spans.push(
                    SpanData {
                        span_id: format_span_id(active.unique_id),
                        parent_span_id,
                        name: active.name,
                        start_time_ms: active.start_time_ms,
                        end_time_ms: now,
                        duration_ms,
                        level: active.level,
                        target: active.target,
                        attributes: active.attributes,
                        status,
                        error_message,
                    },
                );
                assert(self@.spans =~= old(self)@.spans.push(finished));
                assert(self@.active_spans =~= old(self)@.active_spans.remove(tracing_id));
            },
            None => {
                assert(self@.active_spans =~= old(self)@.active_spans);
            },
        }
    }

    /// Closes a span now. Whatever the clock says, the state is the one
    /// that `spec_end_span` gives for some time.
    pub fn end_span(&mut self, tracing_id: u64, error_message: Option<String>)
        ensures
            exists|now: u64|
                final(self)@ == #[trigger] spec_end_span(
                    old(self)@,
                    now,
                    tracing_id,
                    opt_text(error_message),
                ),
    {
        let end_time_ms = Self::current_time_ms();
        self.end_span_at(end_time_ms, tracing_id, error_message);
    }

    /// Drops everything that was collected: the finished and the active
    /// spans, the ids that were seen, and the identifiers of the external
    /// caller.
    pub fn reset(&mut self)
        ensures
            final(self)@ == spec_clear(old(self)@),
    {
        self.spans.clear();
        self.active_spans.clear();
        self.id_mapping.clear();
        self.trace_id = None;
        self.js_parent_span_id = None;
        assert(self@.spans =~= Seq::<SpanView>::empty());
        assert(self@.active_spans =~= Map::<u64, ActiveView>::empty());
    }

    /// Whether the span is entered and not closed.
    pub fn is_active(&self, tracing_id: u64) -> (active: bool)
        ensures
            active == self@.active_spans.contains_key(tracing_id),
    {
        self.active_spans.contains_key(&tracing_id)
    }

    /// The number of finished spans.
    pub fn finished_count(&self) -> (count: usize)
        ensures
            count == self@.spans.len(),
    {
        self.spans.len()
    }

    /// All finished spans, with the name of the service and the identifiers
    /// of the external caller. The collector stays as it is.
    pub fn trace_data(&self) -> (data: TraceData)
        ensures
            data@ == spec_trace_data(self@),
    {
        let n: usize = self.spans.len();
        let mut spans: Vec<SpanData> = Vec::new();
        let mut i: usize = 0;
        while i < n
            invariant
                i <= n,
                n == self.spans.len(),
                spans.len() == i,
                forall|j: int| 0 <= j < i ==> (#[trigger] spans[j])@ == self.spans[j]@,
            decreases n - i,
        {
            spans.push(self.spans[i].clone());
            i = i + 1;
        }
        assert(span_views(spans@) =~= span_views(self.spans@));
        TraceData {
            service_name: SERVICE_NAME.to_owned(),
            trace_id: self.trace_id.clone(),
            js_parent_span_id: self.js_parent_span_id.clone(),
            spans,
        }
    }
}

/// The span under which a new span stands: its explicit parent where it has
/// one, and else the span that is current where it is entered.
pub open spec fn spec_parent_of(explicit_parent: Option<u64>, current: Option<u64>) -> Option<u64> {
    match explicit_parent {
        Some(parent) => Some(parent),
        None => current,
    }
}

/// The layer that feeds a collector from the callbacks of the
/// instrumentation. Each callback takes what the instrumentation knows as
/// plain values.
#[derive(Clone, Copy, Debug)]
pub struct CollectorLayer;

impl CollectorLayer {
    /// A new layer.
    pub fn new() -> (layer: CollectorLayer)
        ensures
            layer == CollectorLayer,
    {
        CollectorLayer
    }

    /// A span was entered: registers it under its explicit parent, and
    /// under the current span where it has none.
    pub fn on_new_span(
        &self,
        collector: &mut TraceCollector,
        id: u64,
        explicit_parent: Option<u64>,
        current: Option<u64>,
        name: String,
        level: String,
        target: String,
    )
        ensures
            exists|now: u64|
                final(collector)@ == #[trigger] spec_start_span(
                    old(collector)@,
                    now,
                    id,
                    spec_parent_of(explicit_parent, current),
                    name@,
                    level@,
                    target@,
                ),
    {
        let parent_id = match explicit_parent {
            Some(parent) => Some(parent),
            None => current,
        };
        collector.start_span(id, parent_id, name, level, target);
    }

    /// A value was recorded for a span: it becomes an attribute of the span.
    pub fn on_record(&self, collector: &mut TraceCollector, id: u64, key: String, value: String)
        ensures
            final(collector)@ == spec_record_attribute(old(collector)@, id, key@, value@),
    {
        collector.record_attribute(id, key, value);
    }

    /// An event happened: each of its values becomes an attribute of the
    /// current span, and is dropped where no span is current.
    pub fn on_event(
        &self,
        collector: &mut TraceCollector,
        current: Option<u64>,
        key: String,
        value: String,
    )
        ensures
            final(collector)@ == (match current {
                Some(span) => spec_record_attribute(old(collector)@, span, key@, value@),
                None => old(collector)@,
            }),
    {
        if let Some(span) = current {
            collector.record_attribute(span, key, value);
        }
    }

    /// A span was closed: it becomes a finished span without an error.
    pub fn on_close(&self, collector: &mut TraceCollector, id: u64)
        ensures
            exists|now: u64|
                final(collector)@ == #[trigger] spec_end_span(old(collector)@, now, id, None),
    {
        collector.end_span(id, None);
    }
}

/// An optional string slice as an optional sequence of characters.
pub open spec fn opt_str_text(text: Option<&str>) -> Option<Seq<char>> {
    match text {
        Some(t) => Some(t@),
        None => None,
    }
}

/// Records the trace and the parent span of an external caller, so that the
/// collected spans can be linked to them. The spans and their ids stay as
/// they are.
pub fn set_js_trace_context(
    collector: &mut TraceCollector,
    trace_id: Option<&str>,
    parent_span_id: Option<&str>,
)
    ensures
        final(collector)@ == spec_set_js_context(
            old(collector)@,
            opt_str_text(trace_id),
            opt_str_text(parent_span_id),
        ),
{
    let trace_id: Option<String> = match trace_id {
        Some(text) => Some(text.to_owned()),
        None => None,
    };
    let parent_span_id: Option<String> = match parent_span_id {
        Some(text) => Some(text.to_owned()),
        None => None,
    };
    collector.set_js_context(trace_id, parent_span_id);
}

/// All that a collector has finished so far, for export. The collector
/// stays as it is.
pub fn get_trace_data(collector: &TraceCollector) -> (data: TraceData)
    ensures
        data@ == spec_trace_data(collector@),
{
    collector.trace_data()
}

/// Clears all collected trace data.
pub fn clear_trace_data(collector: &mut TraceCollector)
    ensures
        final(collector)@ == spec_clear(old(collector)@),
{
    collector.reset();
}

} // verus!
