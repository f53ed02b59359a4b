//! What holds of a collector whatever happens to it.
//!
//! A collector may be fed from many threads; behind its lock the calls
//! arrive one after another, as a sequence of events. The laws here speak of
//! every such sequence.

use crate::span_id::lemma_span_id_text_injective;
use crate::span_id::span_id_text;
use crate::tracing_layer::empty_collector;
use crate::tracing_layer::finished_span;
use crate::tracing_layer::spec_clear;
use crate::tracing_layer::spec_duration;
use crate::tracing_layer::spec_end_span;
use crate::tracing_layer::spec_record_attribute;
use crate::tracing_layer::spec_start_span;
use crate::tracing_layer::CollectorView;
use vstd::prelude::*;

verus! {

/// One call on a collector.
pub enum SpanEvent {
    /// A span is entered.
    Start {
        now: u64,
        tracing_id: u64,
        parent: Option<u64>,
        name: Seq<char>,
        level: Seq<char>,
        target: Seq<char>,
    },
    /// A value is recorded for a span.
    Record { tracing_id: u64, key: Seq<char>, value: Seq<char> },
    /// A span is closed.
    End { now: u64, tracing_id: u64, error: Option<Seq<char>> },
}

/// The span that an event is about.
pub open spec fn event_id(event: SpanEvent) -> u64 {
    match event {
        SpanEvent::Start { tracing_id, .. } => tracing_id,
        SpanEvent::Record { tracing_id, .. } => tracing_id,
        SpanEvent::End { tracing_id, .. } => tracing_id,
    }
}

/// The state after one event.
pub open spec fn apply(state: CollectorView, event: SpanEvent) -> CollectorView {
    match event {
        SpanEvent::Start { now, tracing_id, parent, name, level, target } => spec_start_span(
            state,
            now,
            tracing_id,
            parent,
            name,
            level,
            target,
        ),
        SpanEvent::Record { tracing_id, key, value } => spec_record_attribute(
            state,
            tracing_id,
            key,
            value,
        ),
        SpanEvent::End { now, tracing_id, error } => spec_end_span(state, now, tracing_id, error),
    }
}

/// The state after a sequence of events.
pub open spec fn apply_all(state: CollectorView, events: Seq<SpanEvent>) -> CollectorView
    decreases events.len(),
{
    if events.len() == 0 {
        state
    } else {
        apply(apply_all(state, events.drop_last()), events.last())
    }
}

/// The number of spans that a sequence of events enters.
pub open spec fn count_starts(events: Seq<SpanEvent>) -> nat
    decreases events.len(),
{
    if events.len() == 0 {
        0
    } else {
        count_starts(events.drop_last()) + if events.last() is Start {
            1nat
        } else {
            0nat
        }
    }
}

/// The number of times that a sequence of events closes a span.
pub open spec fn count_ends(events: Seq<SpanEvent>) -> nat
    decreases events.len(),
{
    if events.len() == 0 {
        0
    } else {
        count_ends(events.drop_last()) + if events.last() is End {
            1nat
        } else {
            0nat
        }
    }
}

/// No stable id is in use twice, and none that is still to be handed out is
/// in use: the finished spans have different ids, the active spans have
/// different ids below the next one, and no finished span has the id of an
/// active span or of one that is still to come.
pub open spec fn ids_fresh(state: CollectorView) -> bool {
    &&& forall|i: int, j: int|
        0 <= i < j < state.spans.len() ==> (#[trigger] state.spans[i]).span_id != (
        #[trigger] state.spans[j]).span_id
    &&& forall|k: u64| #[trigger]
        state.active_spans.contains_key(k) ==> state.active_spans[k].unique_id < state.next_id
    &&& forall|k1: u64, k2: u64|
        #[trigger] state.active_spans.contains_key(k1) && #[trigger] state.active_spans.contains_key(
            k2,
        ) && k1 != k2 ==> state.active_spans[k1].unique_id != state.active_spans[k2].unique_id
    &&& forall|k: u64, i: int|
        #[trigger] state.active_spans.contains_key(k) && 0 <= i < state.spans.len() ==> (
        #[trigger] state.spans[i]).span_id != span_id_text(state.active_spans[k].unique_id)
    &&& forall|u: u64, i: int|
        u >= state.next_id && 0 <= i < state.spans.len() ==> (#[trigger] state.spans[i]).span_id
            != #[trigger] span_id_text(u)
}

/// A collector that has seen nothing uses no id.
pub proof fn lemma_empty_collector_fresh(next_id: u64)
    ensures
        ids_fresh(empty_collector(next_id)),
{
}

/// Dropping what was collected keeps the ids fresh: the ids go on where
/// they were.
pub proof fn lemma_clear_keeps_ids_fresh(state: CollectorView)
    ensures
        ids_fresh(spec_clear(state)),
        spec_clear(state).next_id == state.next_id,
{
}

/// Entering a span keeps the ids fresh, as long as ids are left.
pub proof fn lemma_start_keeps_ids_fresh(
    state: CollectorView,
    now: u64,
    tracing_id: u64,
    parent: Option<u64>,
    name: Seq<char>,
    level: Seq<char>,
    target: Seq<char>,
)
    requires
        ids_fresh(state),
        state.next_id < u64::MAX,
    ensures
        ids_fresh(spec_start_span(state, now, tracing_id, parent, name, level, target)),
{
    let after = spec_start_span(state, now, tracing_id, parent, name, level, target);
    assert forall|k: u64| #[trigger] after.active_spans.contains_key(k) implies after.active_spans[k].unique_id
        < after.next_id by {
        if k != tracing_id {
            assert(state.active_spans.contains_key(k));
        }
    }
    assert forall|k1: u64, k2: u64|
        #[trigger] after.active_spans.contains_key(k1) && #[trigger] after.active_spans.contains_key(
            k2,
        ) && k1 != k2 implies after.active_spans[k1].unique_id != after.active_spans[k2].unique_id by {
        if k1 != tracing_id {
            assert(state.active_spans.contains_key(k1));
        }
        if k2 != tracing_id {
            assert(state.active_spans.contains_key(k2));
        }
    }
    assert forall|k: u64, i: int|
        #[trigger] after.active_spans.contains_key(k) && 0 <= i < after.spans.len() implies (
    #[trigger] after.spans[i]).span_id != span_id_text(after.active_spans[k].unique_id) by {
        if k != tracing_id {
            assert(state.active_spans.contains_key(k));
        } else {
            assert(state.spans[i].span_id != span_id_text(state.next_id));
        }
    }
}

/// Recording a value keeps the ids fresh.
pub proof fn lemma_record_keeps_ids_fresh(
    state: CollectorView,
    tracing_id: u64,
    key: Seq<char>,
    value: Seq<char>,
)
    requires
        ids_fresh(state),
    ensures
        ids_fresh(spec_record_attribute(state, tracing_id, key, value)),
{
    let after = spec_record_attribute(state, tracing_id, key, value);
    assert forall|k: u64| #[trigger] after.active_spans.contains_key(k) implies after.active_spans[k].unique_id
        < after.next_id by {
        assert(state.active_spans.contains_key(k));
    }
    assert forall|k1: u64, k2: u64|
        #[trigger] after.active_spans.contains_key(k1) && #[trigger] after.active_spans.contains_key(
            k2,
        ) && k1 != k2 implies after.active_spans[k1].unique_id != after.active_spans[k2].unique_id by {
        assert(state.active_spans.contains_key(k1));
        assert(state.active_spans.contains_key(k2));
    }
    assert forall|k: u64, i: int|
        #[trigger] after.active_spans.contains_key(k) && 0 <= i < after.spans.len() implies (
    #[trigger] after.spans[i]).span_id != span_id_text(after.active_spans[k].unique_id) by {
        assert(state.active_spans.contains_key(k));
    }
}

/// Closing a span keeps the ids fresh.
pub proof fn lemma_end_keeps_ids_fresh(
    state: CollectorView,
    now: u64,
    tracing_id: u64,
    error: Option<Seq<char>>,
)
    requires
        ids_fresh(state),
    ensures
        ids_fresh(spec_end_span(state, now, tracing_id, error)),
{
    let after = spec_end_span(state, now, tracing_id, error);
    if state.active_spans.contains_key(tracing_id) {
        let closed = state.active_spans[tracing_id];
        let n = state.spans.len() as int;
        assert(after.spans[n].span_id == span_id_text(closed.unique_id));
        assert forall|i: int, j: int| 0 <= i < j < after.spans.len() implies (
        #[trigger] after.spans[i]).span_id != (#[trigger] after.spans[j]).span_id by {
            if j < n {
                assert(after.spans[i] == state.spans[i] && after.spans[j] == state.spans[j]);
            } else {
                assert(after.spans[i] == state.spans[i]);
            }
        }
        assert forall|k: u64| #[trigger] after.active_spans.contains_key(k) implies after.active_spans[k].unique_id
            < after.next_id by {
            assert(state.active_spans.contains_key(k));
        }
        assert forall|k1: u64, k2: u64|
            #[trigger] after.active_spans.contains_key(k1)
                && #[trigger] after.active_spans.contains_key(k2) && k1 != k2 implies after.active_spans[k1].unique_id
            != after.active_spans[k2].unique_id by {
            assert(state.active_spans.contains_key(k1));
            assert(state.active_spans.contains_key(k2));
        }
        assert forall|k: u64, i: int|
            #[trigger] after.active_spans.contains_key(k) && 0 <= i < after.spans.len() implies (
        #[trigger] after.spans[i]).span_id != span_id_text(after.active_spans[k].unique_id) by {
            assert(state.active_spans.contains_key(k));
            if i < n {
                assert(after.spans[i] == state.spans[i]);
            } else {
                if span_id_text(closed.unique_id) == span_id_text(
                    state.active_spans[k].unique_id,
                ) {
                    lemma_span_id_text_injective(
                        closed.unique_id,
                        state.active_spans[k].unique_id,
                    );
                }
            }
        }
        assert forall|u: u64, i: int|
            u >= after.next_id && 0 <= i < after.spans.len() implies (
        #[trigger] after.spans[i]).span_id != #[trigger] span_id_text(u) by {
            if i < n {
                assert(after.spans[i] == state.spans[i]);
            } else {
                if span_id_text(closed.unique_id) == span_id_text(u) {
                    lemma_span_id_text_injective(closed.unique_id, u);
                }
            }
        }
    }
}

/// Closing a span a second time changes nothing, whatever the time and the
/// error of the second call.
pub proof fn lemma_end_span_twice(
    state: CollectorView,
    first_now: u64,
    second_now: u64,
    tracing_id: u64,
    first_error: Option<Seq<char>>,
    second_error: Option<Seq<char>>,
)
    ensures
        spec_end_span(
            spec_end_span(state, first_now, tracing_id, first_error),
            second_now,
            tracing_id,
            second_error,
        ) == spec_end_span(state, first_now, tracing_id, first_error),
{
}

/// A span that is closed becomes exactly one finished span, whose times
/// are those of its start and its end and whose duration is the time
/// between them; a span that is not active leaves no trace when closed.
pub proof fn lemma_end_span_effect(
    state: CollectorView,
    now: u64,
    tracing_id: u64,
    error: Option<Seq<char>>,
)
    ensures
        state.active_spans.contains_key(tracing_id) ==> {
            let after = spec_end_span(state, now, tracing_id, error);
            let active = state.active_spans[tracing_id];
            &&& after.spans.len() == state.spans.len() + 1
            &&& after.spans.last() == finished_span(active, now, error)
            &&& after.spans.last().start_time_ms == active.start_time_ms
            &&& after.spans.last().end_time_ms == now
            &&& after.spans.last().duration_ms == spec_duration(active.start_time_ms, now)
            &&& now >= active.start_time_ms ==> after.spans.last().duration_ms == now
                - active.start_time_ms
            &&& !after.active_spans.contains_key(tracing_id)
        },
        !state.active_spans.contains_key(tracing_id) ==> spec_end_span(
            state,
            now,
            tracing_id,
            error,
        ) == state,
{
}

/// A span that is never closed is never among the finished ones: entering
/// spans and recording values leaves the finished spans as they are.
pub proof fn lemma_only_end_finishes(state: CollectorView, event: SpanEvent)
    requires
        !(event is End),
    ensures
        apply(state, event).spans == state.spans,
{
}

/// A finished span stays as it is: whatever happens next, the spans that
/// were finished before are still there, in their places and unchanged.
pub proof fn lemma_finished_spans_are_kept(state: CollectorView, event: SpanEvent)
    ensures
        apply(state, event).spans.len() >= state.spans.len(),
        forall|i: int|
            0 <= i < state.spans.len() ==> (#[trigger] apply(state, event).spans[i])
                == state.spans[i],
{
}

/// Finished spans stay as they are over any sequence of events.
pub proof fn lemma_trace_keeps_finished_spans(state: CollectorView, events: Seq<SpanEvent>)
    ensures
        apply_all(state, events).spans.len() >= state.spans.len(),
        forall|i: int|
            0 <= i < state.spans.len() ==> (#[trigger] apply_all(state, events).spans[i])
                == state.spans[i],
    decreases events.len(),
{
    if events.len() > 0 {
        let before = apply_all(state, events.drop_last());
        lemma_trace_keeps_finished_spans(state, events.drop_last());
        lemma_finished_spans_are_kept(before, events.last());
        assert forall|i: int| 0 <= i < state.spans.len() implies (#[trigger] apply_all(
            state,
            events,
        ).spans[i]) == state.spans[i] by {
            assert(apply(before, events.last()).spans[i] == before.spans[i]);
        }
    }
}

/// However the events arrive, the ids stay fresh as long as ids are left,
/// so that every finished span has an id of its own; and each span that is
/// entered takes one id.
pub proof fn lemma_trace_keeps_ids_fresh(state: CollectorView, events: Seq<SpanEvent>)
    requires
        ids_fresh(state),
        state.next_id + count_starts(events) <= u64::MAX,
    ensures
        ids_fresh(apply_all(state, events)),
        apply_all(state, events).next_id == state.next_id + count_starts(events),
    decreases events.len(),
{
    if events.len() > 0 {
        let before = apply_all(state, events.drop_last());
        lemma_trace_keeps_ids_fresh(state, events.drop_last());
        match events.last() {
            SpanEvent::Start { now, tracing_id, parent, name, level, target } => {
                lemma_start_keeps_ids_fresh(before, now, tracing_id, parent, name, level, target);
            },
            SpanEvent::Record { tracing_id, key, value } => {
                lemma_record_keeps_ids_fresh(before, tracing_id, key, value);
            },
            SpanEvent::End { now, tracing_id, error } => {
                lemma_end_keeps_ids_fresh(before, now, tracing_id, error);
            },
        }
    }
}

/// Every span that is closed was entered before, and no span is closed
/// twice.
pub open spec fn orderly(events: Seq<SpanEvent>) -> bool {
    &&& forall|j: int|
        0 <= j < events.len() && (#[trigger] events[j]) is End ==> exists|i: int|
            0 <= i < j && (#[trigger] events[i]) is Start && event_id(events[i]) == event_id(
                events[j],
            )
    &&& forall|i: int, j: int|
        0 <= i < j < events.len() && (#[trigger] events[i]) is End && (#[trigger] events[j]) is End
            ==> event_id(events[i]) != event_id(events[j])
}

/// The span `id` was entered by one of the events and closed by none.
pub open spec fn entered_not_closed(events: Seq<SpanEvent>, id: u64) -> bool {
    &&& exists|i: int|
        0 <= i < events.len() && (#[trigger] events[i]) is Start && event_id(events[i]) == id
    &&& forall|j: int|
        0 <= j < events.len() && (#[trigger] events[j]) is End ==> event_id(events[j]) != id
}

/// In whatever order the spans are entered and closed, each span that is
/// closed after it was entered gives exactly one finished span: with `n`
/// spans entered and all of them closed there are `n` more finished spans
/// than before. The spans that were entered and not closed are active.
pub proof fn lemma_orderly_trace(state: CollectorView, events: Seq<SpanEvent>)
    requires
        orderly(events),
    ensures
        apply_all(state, events).spans.len() == state.spans.len() + count_ends(events),
        forall|id: u64| #[trigger]
            entered_not_closed(events, id) ==> apply_all(state, events).active_spans.contains_key(
                id,
            ),
    decreases events.len(),
{
    if events.len() > 0 {
        let rest = events.drop_last();
        let last = events.last();
        let before = apply_all(state, rest);
        let after = apply_all(state, events);
        let n = rest.len() as int;
        assert(orderly(rest)) by {
            assert forall|j: int| 0 <= j < rest.len() && (#[trigger] rest[j]) is End implies exists|
                i: int,
            |
                0 <= i < j && (#[trigger] rest[i]) is Start && event_id(rest[i]) == event_id(
                    rest[j],
                ) by {
                assert(events[j] is End);
                let i = choose|i: int|
                    0 <= i < j && (#[trigger] events[i]) is Start && event_id(events[i])
                        == event_id(events[j]);
                assert(rest[i] == events[i]);
            }
            assert forall|i: int, j: int|
                0 <= i < j < rest.len() && (#[trigger] rest[i]) is End && (
                #[trigger] rest[j]) is End implies event_id(rest[i]) != event_id(rest[j]) by {
                assert(rest[i] == events[i] && rest[j] == events[j]);
            }
        }
        lemma_orderly_trace(state, rest);
        if last is End {
            let id = event_id(last);
            assert(events[n] is End);
            let i = choose|i: int|
                0 <= i < n && (#[trigger] events[i]) is Start && event_id(events[i]) == event_id(
                    events[n],
                );
            assert(rest[i] == events[i]);
            assert(entered_not_closed(rest, id)) by {
                assert forall|j: int| 0 <= j < rest.len() && (#[trigger] rest[j]) is End implies event_id(
                    rest[j],
                ) != id by {
                    assert(rest[j] == events[j]);
                }
            }
            assert(before.active_spans.contains_key(id));
        }
        assert forall|id: u64| #[trigger] entered_not_closed(events, id) implies after.active_spans.contains_key(
            id,
        ) by {
            let i = choose|i: int|
                0 <= i < events.len() && (#[trigger] events[i]) is Start && event_id(events[i])
                    == id;
            if i < n {
                assert(rest[i] == events[i]);
                assert(entered_not_closed(rest, id)) by {
                    assert forall|j: int|
                        0 <= j < rest.len() && (#[trigger] rest[j]) is End implies event_id(rest[j])
                        != id by {
                        assert(rest[j] == events[j]);
                    }
                }
                assert(before.active_spans.contains_key(id));
                if last is End {
                    assert(events[n] is End);
                    assert(event_id(events[n]) != id);
                }
            } else {
                assert(last is Start && event_id(last) == id);
            }
        }
    }
}

/// Counting the spans that are entered goes through a concatenation.
proof fn lemma_counts_concat(first: Seq<SpanEvent>, second: Seq<SpanEvent>)
    ensures
        count_starts(first + second) == count_starts(first) + count_starts(second),
        count_ends(first + second) == count_ends(first) + count_ends(second),
    decreases second.len(),
{
    if second.len() == 0 {
        assert(first + second =~= first);
    } else {
        assert((first + second).drop_last() =~= first + second.drop_last());
        assert((first + second).last() == second.last());
        lemma_counts_concat(first, second.drop_last());
    }
}

/// Events that all enter a span enter as many spans as there are events.
proof fn lemma_count_all_starts(events: Seq<SpanEvent>)
    requires
        forall|i: int| 0 <= i < events.len() ==> (#[trigger] events[i]) is Start,
    ensures
        count_starts(events) == events.len(),
        count_ends(events) == 0,
    decreases events.len(),
{
    if events.len() > 0 {
        let rest = events.drop_last();
        assert forall|i: int| 0 <= i < rest.len() implies (#[trigger] rest[i]) is Start by {
            assert(rest[i] == events[i]);
        }
        assert(events[events.len() - 1] is Start);
        lemma_count_all_starts(rest);
    }
}

/// Events that all close a span close as many times as there are events.
proof fn lemma_count_all_ends(events: Seq<SpanEvent>)
    requires
        forall|i: int| 0 <= i < events.len() ==> (#[trigger] events[i]) is End,
    ensures
        count_ends(events) == events.len(),
        count_starts(events) == 0,
    decreases events.len(),
{
    if events.len() > 0 {
        let rest = events.drop_last();
        assert forall|i: int| 0 <= i < rest.len() implies (#[trigger] rest[i]) is End by {
            assert(rest[i] == events[i]);
        }
        assert(events[events.len() - 1] is End);
        lemma_count_all_ends(rest);
    }
}

/// Spans that are entered under ids of their own and then all closed, each
/// once and in any order, give exactly as many finished spans as were
/// entered; and where the ids were fresh and enough are left, every
/// finished span has an id of its own.
pub proof fn lemma_open_then_close_all(
    state: CollectorView,
    opens: Seq<SpanEvent>,
    closes: Seq<SpanEvent>,
)
    requires
        forall|i: int| 0 <= i < opens.len() ==> (#[trigger] opens[i]) is Start,
        forall|j: int| 0 <= j < closes.len() ==> (#[trigger] closes[j]) is End,
        forall|i: int, j: int|
            0 <= i < j < closes.len() ==> event_id(#[trigger] closes[i]) != event_id(
                #[trigger] closes[j],
            ),
        forall|j: int|
            0 <= j < closes.len() ==> exists|i: int|
                0 <= i < opens.len() && event_id(#[trigger] opens[i]) == event_id(
                    #[trigger] closes[j],
                ),
        opens.len() == closes.len(),
    ensures
        apply_all(state, opens + closes).spans.len() == state.spans.len() + opens.len(),
        ids_fresh(state) && state.next_id + opens.len() <= u64::MAX ==> ids_fresh(
            apply_all(state, opens + closes),
        ),
{
    let events = opens + closes;
    let n = opens.len() as int;
    assert(orderly(events)) by {
        assert forall|j: int| 0 <= j < events.len() && (#[trigger] events[j]) is End implies exists|
            i: int,
        |
            0 <= i < j && (#[trigger] events[i]) is Start && event_id(events[i]) == event_id(
                events[j],
            ) by {
            if j < n {
                assert(events[j] == opens[j]);
            } else {
                assert(events[j] == closes[j - n]);
                let i = choose|i: int|
                    0 <= i < opens.len() && event_id(#[trigger] opens[i]) == event_id(
                        closes[j - n],
                    );
                assert(events[i] == opens[i]);
            }
        }
        assert forall|i: int, j: int|
            0 <= i < j < events.len() && (#[trigger] events[i]) is End && (
            #[trigger] events[j]) is End implies event_id(events[i]) != event_id(events[j]) by {
            if i < n {
                assert(events[i] == opens[i]);
            } else {
                assert(events[i] == closes[i - n] && events[j] == closes[j - n]);
            }
        }
    }
    lemma_orderly_trace(state, events);
    lemma_counts_concat(opens, closes);
    lemma_count_all_starts(opens);
    lemma_count_all_ends(closes);
    if ids_fresh(state) && state.next_id + opens.len() <= u64::MAX {
        lemma_trace_keeps_ids_fresh(state, events);
    }
}

} // verus!
