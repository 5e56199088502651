//! What holds of every request, whatever the engine delivers.

use crate::action::{
    close_of, open_of, ActionView, Counter, LabelsView, Phase, SpanId, SpanParent,
};
use crate::model::{
    durations_non_negative, Event, FieldEvent, FieldView, MetricsView, State, TrackerView,
};
use crate::sorting::{is_stable_order_of, lemma_sort_stats};
use crate::trace::{
    closing, counting, lemma_replay_balance, lemma_replay_close_if, lemma_replay_concat,
    lemma_replay_push, lemma_replay_silent, lemma_tally_concat, lemma_tally_none,
    lemma_tally_one, logging_errors, opening, replay, tally, touches_spans,
};
use vstd::prelude::*;

verus! {

/// Every event keeps the state well formed.
pub proof fn law_step_keeps_invariant(state: State, event: Event)
    requires
        state.wf(),
    ensures
        state.step(event).0.wf(),
{
    let next = state.step(event).0;
    match event {
        Event::ResolveStart { field, now } => {
            if state.active() && state.tracker.field_parent(field.resolve_id, field.parent_id)
                is Some {
                state.tracker.lemma_without(field.resolve_id);
                let rest = state.tracker.without(field.resolve_id);
                let begun = field.begun_at(now);
                let fields = rest.push(begun);
                assert(next.tracker.fields == fields);
                assert forall|i: int, j: int| 0 <= i < j < fields.len() implies (
                #[trigger] fields[i]).resolve_id != (#[trigger] fields[j]).resolve_id by {
                    if j < rest.len() {
                        assert(fields[i] == rest[i] && fields[j] == rest[j]);
                    } else {
                        assert(fields[i] == rest[i]);
                    }
                }
            }
        },
        Event::ResolveEnd { resolve_id, now } => {
            if state.active() && state.tracker.tracks(resolve_id) {
                state.tracker.lemma_without(resolve_id);
                let stats = next.metrics.resolves;
                assert forall|i: int| 0 <= i < stats.len() implies (#[trigger] stats[i]).duration
                    >= 0 by {
                    if i < state.metrics.resolves.len() {
                        assert(stats[i] == state.metrics.resolves[i]);
                    }
                }
            }
        },
        _ => {},
    }
}

/// Every state that a request can reach is well formed.
pub proof fn law_run_keeps_invariant(events: Seq<Event>)
    ensures
        State::initial().run(events).0.wf(),
    decreases events.len(),
{
    if events.len() > 0 {
        law_run_keeps_invariant(events.drop_last());
        law_step_keeps_invariant(State::initial().run(events.drop_last()).0, events.last());
    }
}

/// The summary lists the resolutions in ascending order of start offset,
/// resolutions that started at the same offset in the order in which they
/// completed, and none of them ends before it starts. The duration of the
/// request is not negative either.
pub proof fn law_summary_is_ordered(state: State)
    requires
        state.wf(),
        state.reported() is Some,
    ensures
        is_stable_order_of(state.reported().unwrap().resolvers, state.metrics.resolves),
        durations_non_negative(state.reported().unwrap().resolvers),
        forall|i: int|
            0 <= i < state.reported().unwrap().resolvers.len() ==> {
                let stat = #[trigger] state.reported().unwrap().resolvers[i];
                stat.start_offset <= stat.start_offset + stat.duration
            },
        state.reported().unwrap().duration >= 0,
{
    lemma_sort_stats(state.metrics.resolves);
}

/// Ending a field resolution a second time does nothing: no record is
/// added and no span is closed.
pub proof fn law_resolve_end_is_idempotent(state: State, resolve_id: usize, first: int, second: int)
    requires
        state.wf(),
    ensures
        state.resolve_end(resolve_id, first).0.resolve_end(resolve_id, second) == (
            state.resolve_end(resolve_id, first).0,
            Seq::<ActionView>::empty(),
        ),
{
    if state.active() && state.tracker.tracks(resolve_id) {
        state.tracker.lemma_without(resolve_id);
    }
}

/// Once the request has its name and root, no event changes them.
pub proof fn law_identity_is_kept(state: State, event: Event)
    requires
        state.metrics.query_name is Some,
    ensures
        state.step(event).0.metrics.query_name == state.metrics.query_name,
        state.step(event).0.metrics.query_root == state.metrics.query_root,
{
}

/// After the request has ended, an event changes nothing and asks for
/// nothing, but that a further error is counted and logged and a
/// subscription is counted.
pub proof fn law_ended_request_is_inert(state: State, event: Event)
    requires
        !state.active(),
    ensures
        state.step(event).0 == state,
        !(event is Error) && !(event is Subscribe) ==> state.step(event).1
            == Seq::<ActionView>::empty(),
        event matches Event::Error { message, metadata } ==> state.step(event).1
            == state.metrics.record_late_error(
            message,
            metadata,
            state.tracker.fields.len() as int,
        ),
{
}

/// Closing the field spans one by one, each is open when its turn comes.
proof fn lemma_replay_field_closes(tracker: TrackerView, count: int)
    requires
        tracker.wf(),
        0 <= count <= tracker.fields.len(),
    ensures
        replay(tracker.open_spans(), tracker.field_closes().take(count)) == Some(
            tracker.skipping(count).open_spans(),
        ),
    decreases count,
{
    let closes = tracker.field_closes();
    if count == 0 {
        assert(tracker.skipping(0).fields =~= tracker.fields);
        assert(tracker.skipping(0) == tracker);
        assert(closes.take(0) =~= Seq::<ActionView>::empty());
    } else {
        let n = count - 1;
        lemma_replay_field_closes(tracker, n);
        let before = tracker.skipping(n);
        let after = tracker.skipping(count);
        let id = tracker.fields[n].resolve_id;
        let span = SpanId::Field(id);
        assert(closes.take(count) =~= closes.take(n).push(close_of(span)));
        lemma_replay_push(tracker.open_spans(), closes.take(n), close_of(span));
        assert(before.fields[0] == tracker.fields[n]);
        assert(before.tracks(id));
        assert(before.open_spans().contains(span));
        assert forall|other: SpanId|
            before.open_spans().remove(span).contains(other) == after.open_spans().contains(
                other,
            ) by {
            match other {
                SpanId::Phase(phase) => {},
                SpanId::Field(y) => {
                    if before.tracks(y) && y != id {
                        let k = before.position(y);
                        assert(before.fields[k].resolve_id == y);
                        assert(k != 0);
                        assert(after.fields[k - 1] == before.fields[k]);
                        assert(after.tracks(y));
                    }
                    if after.tracks(y) {
                        let k = after.position(y);
                        assert(after.fields[k].resolve_id == y);
                        assert(before.fields[k + 1] == after.fields[k]);
                        assert(before.tracks(y));
                        assert(tracker.fields[n + 1 + k] == after.fields[k]);
                        assert(tracker.fields[n].resolve_id != tracker.fields[n + 1 + k].resolve_id);
                    }
                },
            }
        }
        assert(before.open_spans().remove(span) =~= after.open_spans());
    }
}

/// Unwinding closes every open span once and leaves none open.
pub proof fn lemma_replay_unwind(tracker: TrackerView)
    requires
        tracker.wf(),
    ensures
        replay(tracker.open_spans(), tracker.unwind_all().1) == Some(Set::<SpanId>::empty()),
{
    let open = tracker.open_spans();
    let count = tracker.fields.len() as int;
    lemma_replay_field_closes(tracker, count);
    assert(tracker.field_closes().take(count) =~= tracker.field_closes());
    let bare = tracker.skipping(count);
    assert(bare.fields =~= Seq::<FieldView>::empty());
    let s0 = bare.open_spans();
    let execute = SpanId::Phase(Phase::Execute);
    let validation = SpanId::Phase(Phase::Validation);
    let parse = SpanId::Phase(Phase::Parse);
    let root = SpanId::Phase(Phase::Root);
    let c_execute = if tracker.execute {
        seq![close_of(execute)]
    } else {
        Seq::empty()
    };
    let c_validation = if tracker.validation {
        seq![close_of(validation)]
    } else {
        Seq::empty()
    };
    let c_parse = if tracker.parse {
        seq![close_of(parse)]
    } else {
        Seq::empty()
    };
    let c_root = if tracker.root {
        seq![close_of(root)]
    } else {
        Seq::empty()
    };
    let s1 = if tracker.execute {
        s0.remove(execute)
    } else {
        s0
    };
    let s2 = if tracker.validation {
        s1.remove(validation)
    } else {
        s1
    };
    let s3 = if tracker.parse {
        s2.remove(parse)
    } else {
        s2
    };
    let s4 = if tracker.root {
        s3.remove(root)
    } else {
        s3
    };
    lemma_replay_close_if(s0, tracker.execute, execute);
    lemma_replay_close_if(s1, tracker.validation, validation);
    lemma_replay_close_if(s2, tracker.parse, parse);
    lemma_replay_close_if(s3, tracker.root, root);
    lemma_replay_concat(s0, c_execute, c_validation);
    lemma_replay_concat(s0, c_execute + c_validation, c_parse);
    lemma_replay_concat(s0, c_execute + c_validation + c_parse, c_root);
    assert(tracker.phase_closes() == c_execute + c_validation + c_parse + c_root);
    assert(replay(s0, tracker.phase_closes()) == Some(s4));
    assert forall|other: SpanId| !s4.contains(other) by {
        match other {
            SpanId::Phase(phase) => {},
            SpanId::Field(y) => {
                assert(!bare.tracks(y));
            },
        }
    }
    assert(s4 =~= Set::<SpanId>::empty());
    lemma_replay_concat(open, tracker.field_closes(), tracker.phase_closes());
}

/// Opening a phase span closes the one it displaces and nothing else.
proof fn lemma_replay_open_under(tracker: TrackerView, phase: Phase, parent: SpanParent)
    requires
        parent matches SpanParent::Span(above) ==> above != SpanId::Phase(phase)
            && tracker.is_open(above),
    ensures
        replay(tracker.open_spans(), tracker.open_under(phase, parent).1) == Some(
            tracker.open_under(phase, parent).0.open_spans(),
        ),
{
    let open = tracker.open_spans();
    let span = SpanId::Phase(phase);
    let held = tracker.phase_open(phase);
    let displaced = if held {
        seq![close_of(span)]
    } else {
        Seq::empty()
    };
    lemma_replay_close_if(open, held, span);
    lemma_replay_push(open, displaced, open_of(span, parent));
    let between = if held {
        open.remove(span)
    } else {
        open
    };
    let after = tracker.with_phase(phase, true);
    assert(!between.contains(span));
    assert(after.fields == tracker.fields);
    assert forall|other: SpanId| between.insert(span).contains(other) == after.open_spans().contains(
        other,
    ) by {
        match other {
            SpanId::Phase(q) => {
                assert(after.phase_open(q) == (q == phase || tracker.phase_open(q)));
            },
            SpanId::Field(y) => {
                assert(after.tracks(y) == tracker.tracks(y));
            },
        }
    }
    assert(between.insert(span) =~= after.open_spans());
}

proof fn lemma_bracketed_prepare(state: State, caller: bool, report: bool)
    requires
        state.wf(),
        state.active(),
    ensures
        replay(state.tracker.open_spans(), state.prepare_request(caller, report).1) == Some(
            state.prepare_request(caller, report).0.tracker.open_spans(),
        ),
{
    let open = state.tracker.open_spans();
    let parent = if caller {
        SpanParent::Caller
    } else {
        SpanParent::Detached
    };
    let count = seq![
        ActionView::Count { counter: Counter::Requests, labels: LabelsView::none() },
    ];
    lemma_replay_silent(open, count);
    lemma_replay_concat(open, count, state.tracker.open_root(caller).1);
    lemma_replay_open_under(state.tracker, Phase::Root, parent);
}

proof fn lemma_bracketed_phase_start(state: State, phase: Phase)
    requires
        state.wf(),
        state.active(),
        phase != Phase::Root,
    ensures
        replay(state.tracker.open_spans(), state.phase_start(phase).1) == Some(
            state.phase_start(phase).0.tracker.open_spans(),
        ),
{
    lemma_replay_open_under(state.tracker, phase, state.tracker.phase_parent());
}

proof fn lemma_bracketed_phase_end(state: State, phase: Phase)
    requires
        state.wf(),
        state.active(),
    ensures
        replay(state.tracker.open_spans(), state.phase_end(phase).1) == Some(
            state.phase_end(phase).0.tracker.open_spans(),
        ),
{
    let tracker = state.tracker;
    let open = tracker.open_spans();
    let span = SpanId::Phase(phase);
    let held = tracker.phase_open(phase);
    lemma_replay_close_if(open, held, span);
    let after = state.phase_end(phase).0.tracker;
    assert(after.fields == tracker.fields);
    assert forall|other: SpanId|
        (if held {
            open.remove(span)
        } else {
            open
        }).contains(other) == after.open_spans().contains(other) by {
        match other {
            SpanId::Phase(q) => {
                assert(after.phase_open(q) == (q != phase && tracker.phase_open(q)));
            },
            SpanId::Field(y) => {
                assert(after.tracks(y) == tracker.tracks(y));
            },
        }
    }
    assert(after.open_spans() =~= if held {
        open.remove(span)
    } else {
        open
    });
}

proof fn lemma_bracketed_resolve_start(state: State, field: FieldEvent, now: int)
    requires
        state.wf(),
        state.active(),
    ensures
        replay(state.tracker.open_spans(), state.resolve_start(field, now).1) == Some(
            state.resolve_start(field, now).0.tracker.open_spans(),
        ),
{
    let tracker = state.tracker;
    let open = tracker.open_spans();
    let next = state.resolve_start(field, now).0;
    let id = field.resolve_id;
    let span = SpanId::Field(id);
    match tracker.field_parent(id, field.parent_id) {
        None => {},
        Some(above) => {
            let held = tracker.tracks(id);
            let displaced = if held {
                seq![close_of(span)]
            } else {
                Seq::empty()
            };
            let between = if held {
                open.remove(span)
            } else {
                open
            };
            lemma_replay_close_if(open, held, span);
            lemma_replay_push(open, displaced, field.begun_at(now).opening(above));
            assert(above != span);
            assert(tracker.is_open(above));
            assert(between.contains(above));
            assert(!between.contains(span));
            let rest = TrackerView { fields: tracker.without(id), ..tracker };
            assert(next.tracker == (TrackerView {
                fields: rest.fields.push(field.begun_at(now)),
                ..rest
            }));
            assert forall|other: SpanId|
                between.insert(span).contains(other) == next.tracker.open_spans().contains(
                    other,
                ) by {
                match other {
                    SpanId::Phase(phase) => {},
                    SpanId::Field(y) => {
                        tracker.lemma_tracks_without(id, y);
                        rest.lemma_tracks_push(field.begun_at(now), y);
                    },
                }
            }
            assert(between.insert(span) =~= next.tracker.open_spans());
        },
    }
}

proof fn lemma_bracketed_resolve_end(state: State, resolve_id: usize, now: int)
    requires
        state.wf(),
        state.active(),
    ensures
        replay(state.tracker.open_spans(), state.resolve_end(resolve_id, now).1) == Some(
            state.resolve_end(resolve_id, now).0.tracker.open_spans(),
        ),
{
    let tracker = state.tracker;
    let open = tracker.open_spans();
    let next = state.resolve_end(resolve_id, now).0;
    let span = SpanId::Field(resolve_id);
    if tracker.tracks(resolve_id) {
        lemma_replay_close_if(open, true, span);
        let spans = seq![close_of(span)];
        assert(next.tracker == (TrackerView { fields: tracker.without(resolve_id), ..tracker }));
        assert forall|other: SpanId|
            open.remove(span).contains(other) == next.tracker.open_spans().contains(other) by {
            match other {
                SpanId::Phase(phase) => {},
                SpanId::Field(y) => {
                    tracker.lemma_tracks_without(resolve_id, y);
                },
            }
        }
        assert(open.remove(span) =~= next.tracker.open_spans());
        let field = tracker.fields[tracker.position(resolve_id)];
        match state.metrics.completion_fault(field, now) {
            Some(fault) => {
                lemma_replay_push(open, spans, ActionView::ReportFault { fault });
            },
            None => {},
        }
    }
}

proof fn lemma_bracketed_unwinding(tracker: TrackerView, first: Seq<ActionView>)
    requires
        tracker.wf(),
        forall|i: int| 0 <= i < first.len() ==> !touches_spans(#[trigger] first[i]),
    ensures
        replay(tracker.open_spans(), first + tracker.unwind_all().1) == Some(
            TrackerView::idle().open_spans(),
        ),
{
    let open = tracker.open_spans();
    lemma_replay_silent(open, first);
    lemma_replay_concat(open, first, tracker.unwind_all().1);
    lemma_replay_unwind(tracker);
    assert(TrackerView::idle().open_spans() =~= Set::<SpanId>::empty()) by {
        assert forall|other: SpanId| !TrackerView::idle().open_spans().contains(other) by {
            match other {
                SpanId::Phase(phase) => {},
                SpanId::Field(y) => {
                    assert(!TrackerView::idle().tracks(y));
                },
            }
        }
    }
}

/// The actions of an event can be performed in their order on the spans
/// that are open before it, and leave open exactly the spans that the
/// state after it holds: a span is opened only while it is not open and
/// while its parent is, and closed only while it is open.
pub proof fn law_spans_are_bracketed(state: State, event: Event)
    requires
        state.wf(),
    ensures
        replay(state.tracker.open_spans(), state.step(event).1) == Some(
            state.step(event).0.tracker.open_spans(),
        ),
{
    let open = state.tracker.open_spans();
    if !state.active() {
        lemma_replay_silent(open, state.step(event).1);
    } else {
        match event {
            Event::PrepareRequest { caller, report } => {
                lemma_bracketed_prepare(state, caller, report);
            },
            Event::ParseStart { now } => {
                lemma_bracketed_phase_start(
                    State {
                        metrics: MetricsView { start_time: Some(now), ..state.metrics },
                        ..state
                    },
                    Phase::Parse,
                );
            },
            Event::ValidationStart => {
                lemma_bracketed_phase_start(state, Phase::Validation);
            },
            Event::ExecutionStart => {
                lemma_bracketed_phase_start(state, Phase::Execute);
            },
            Event::ParseEnd => {
                lemma_bracketed_phase_end(state, Phase::Parse);
            },
            Event::ValidationEnd => {
                lemma_bracketed_phase_end(state, Phase::Validation);
            },
            Event::ExecutionEnd { now } => {
                lemma_bracketed_phase_end(
                    State {
                        metrics: MetricsView { end_time: Some(now), ..state.metrics },
                        ..state
                    },
                    Phase::Execute,
                );
            },
            Event::ResolveStart { field, now } => {
                lemma_bracketed_resolve_start(state, field, now);
            },
            Event::ResolveEnd { resolve_id, now } => {
                lemma_bracketed_resolve_end(state, resolve_id, now);
            },
            Event::Error { message, metadata } => {
                lemma_bracketed_unwinding(
                    state.tracker,
                    state.metrics.record_error(
                        message,
                        metadata,
                        state.tracker.fields.len() as int,
                    ),
                );
            },
            Event::Complete => {
                lemma_bracketed_unwinding(state.tracker, state.metrics.finalize_actions());
            },
            Event::Subscribe => {
                lemma_replay_silent(open, state.step(event).1);
            },
        }
    }
}

/// Over a whole request, from its first event on, every action can be
/// performed when its turn comes.
pub proof fn law_request_is_bracketed(events: Seq<Event>)
    ensures
        replay(Set::<SpanId>::empty(), State::initial().run(events).1) == Some(
            State::initial().run(events).0.tracker.open_spans(),
        ),
    decreases events.len(),
{
    let nothing = Set::<SpanId>::empty();
    if events.len() == 0 {
        assert(State::initial().tracker.open_spans() =~= nothing);
    } else {
        let (state, actions) = State::initial().run(events.drop_last());
        law_request_is_bracketed(events.drop_last());
        law_run_keeps_invariant(events.drop_last());
        law_spans_are_bracketed(state, events.last());
        lemma_replay_concat(nothing, actions, state.step(events.last()).1);
    }
}

/// No span outlives the request: once the engine has delivered `error` or
/// `result`, nothing is open, and every span has been closed as often as
/// it was opened.
pub proof fn law_no_span_outlives_request(events: Seq<Event>, span: SpanId)
    requires
        events.len() > 0,
        events.last().is_terminal(),
    ensures
        State::initial().run(events).0.tracker == TrackerView::idle(),
        replay(Set::<SpanId>::empty(), State::initial().run(events).1) == Some(
            Set::<SpanId>::empty(),
        ),
        tally(State::initial().run(events).1, opening(span)) == tally(
            State::initial().run(events).1,
            closing(span),
        ),
{
    let nothing = Set::<SpanId>::empty();
    law_request_is_bracketed(events);
    law_run_keeps_invariant(events.drop_last());
    law_run_keeps_invariant(events);
    let end = State::initial().run(events).0;
    assert(!end.active());
    assert(end.tracker.open_spans() =~= nothing);
    lemma_replay_balance(nothing, State::initial().run(events).1, span);
}

/// Unwinding asks for closes and nothing else.
proof fn lemma_unwind_only_closes(tracker: TrackerView)
    ensures
        forall|i: int|
            0 <= i < tracker.unwind_all().1.len() ==> (#[trigger] tracker.unwind_all().1[i])
                is CloseSpan,
{
    let fields = tracker.field_closes();
    let phases = tracker.phase_closes();
    assert forall|i: int| 0 <= i < phases.len() implies (#[trigger] phases[i]) is CloseSpan by {
        let execute = if tracker.execute {
            seq![close_of(SpanId::Phase(Phase::Execute))]
        } else {
            Seq::empty()
        };
        let validation = if tracker.validation {
            seq![close_of(SpanId::Phase(Phase::Validation))]
        } else {
            Seq::empty()
        };
        let parse = if tracker.parse {
            seq![close_of(SpanId::Phase(Phase::Parse))]
        } else {
            Seq::empty()
        };
        let root = if tracker.root {
            seq![close_of(SpanId::Phase(Phase::Root))]
        } else {
            Seq::empty()
        };
        assert(phases == execute + validation + parse + root);
    }
    assert forall|i: int| 0 <= i < tracker.unwind_all().1.len() implies (
    #[trigger] tracker.unwind_all().1[i]) is CloseSpan by {
        if i < fields.len() {
            assert(tracker.unwind_all().1[i] == fields[i]);
        } else {
            assert(tracker.unwind_all().1[i] == phases[i - fields.len()]);
        }
    }
}

/// The error path: after `error` no field resolution is in flight and no
/// span is open; the error counter has been incremented once and the
/// error logged once; and the request has been counted as completed
/// once if this error ended it, and not again if it had ended before.
pub proof fn law_error_is_counted_once(state: State, message: Seq<char>, metadata: Seq<char>)
    requires
        state.wf(),
    ensures
        state.error(message, metadata).0.tracker == TrackerView::idle(),
        tally(state.error(message, metadata).1, counting(Counter::RequestErrors)) == 1,
        tally(state.error(message, metadata).1, logging_errors()) == 1,
        tally(state.error(message, metadata).1, counting(Counter::RequestsCompleted)) == if state.active() {
            1int
        } else {
            0int
        },
        tally(state.error(message, metadata).1, counting(Counter::Requests)) == 0,
        tally(state.error(message, metadata).1, counting(Counter::Subscriptions)) == 0,
{
    let actions = state.error(message, metadata).1;
    let pending = state.tracker.fields.len() as int;
    if state.active() {
        let first = state.metrics.record_error(message, metadata, pending);
        let spans = state.tracker.unwind_all().1;
        lemma_unwind_only_closes(state.tracker);
        lemma_tally_concat(first, spans, counting(Counter::RequestErrors));
        lemma_tally_concat(first, spans, logging_errors());
        lemma_tally_concat(first, spans, counting(Counter::RequestsCompleted));
        lemma_tally_concat(first, spans, counting(Counter::Requests));
        lemma_tally_concat(first, spans, counting(Counter::Subscriptions));
        lemma_tally_none(spans, counting(Counter::RequestErrors));
        lemma_tally_none(spans, logging_errors());
        lemma_tally_none(spans, counting(Counter::RequestsCompleted));
        lemma_tally_none(spans, counting(Counter::Requests));
        lemma_tally_none(spans, counting(Counter::Subscriptions));
        lemma_tally_one(first, counting(Counter::RequestsCompleted), 0);
        lemma_tally_one(first, counting(Counter::RequestErrors), 1);
        lemma_tally_one(first, logging_errors(), 2);
        lemma_tally_none(first, counting(Counter::Requests));
        lemma_tally_none(first, counting(Counter::Subscriptions));
    } else {
        lemma_tally_one(actions, counting(Counter::RequestErrors), 0);
        lemma_tally_one(actions, logging_errors(), 1);
        lemma_tally_none(actions, counting(Counter::RequestsCompleted));
        lemma_tally_none(actions, counting(Counter::Requests));
        lemma_tally_none(actions, counting(Counter::Subscriptions));
    }
}

/// Running one sequence of events after another is running both in one.
pub proof fn lemma_run_concat(state: State, first: Seq<Event>, rest: Seq<Event>)
    ensures
        state.run(first + rest).0 == state.run(first).0.run(rest).0,
        state.run(first + rest).1 == state.run(first).1 + state.run(first).0.run(rest).1,
    decreases rest.len(),
{
    if rest.len() == 0 {
        assert(first + rest =~= first);
        assert(state.run(first).1 + Seq::<ActionView>::empty() =~= state.run(first).1);
    } else {
        lemma_run_concat(state, first, rest.drop_last());
        assert((first + rest).drop_last() =~= first + rest.drop_last());
        assert((first + rest).last() == rest.last());
        let mid = state.run(first).0.run(rest.drop_last());
        let more = mid.0.step(rest.last()).1;
        assert((state.run(first).1 + mid.1) + more =~= state.run(first).1 + (mid.1 + more));
    }
}

/// Only the start of a request opens a root span.
proof fn lemma_step_opens_no_root(state: State, event: Event)
    requires
        !(event is PrepareRequest),
    ensures
        tally(state.step(event).1, opening(SpanId::Phase(Phase::Root))) == 0,
{
    let actions = state.step(event).1;
    let pred = opening(SpanId::Phase(Phase::Root));
    if state.active() {
        match event {
            Event::Error { message, metadata } => {
                let first = state.metrics.record_error(
                    message,
                    metadata,
                    state.tracker.fields.len() as int,
                );
                lemma_unwind_only_closes(state.tracker);
                lemma_tally_concat(first, state.tracker.unwind_all().1, pred);
                lemma_tally_none(first, pred);
                lemma_tally_none(state.tracker.unwind_all().1, pred);
            },
            Event::Complete => {
                let first = state.metrics.finalize_actions();
                lemma_unwind_only_closes(state.tracker);
                lemma_tally_concat(first, state.tracker.unwind_all().1, pred);
                lemma_tally_none(first, pred);
                lemma_tally_none(state.tracker.unwind_all().1, pred);
            },
            _ => {
                lemma_tally_none(actions, pred);
            },
        }
    } else {
        lemma_tally_none(actions, pred);
    }
}

proof fn lemma_run_opens_no_root(state: State, events: Seq<Event>)
    requires
        forall|i: int| 0 <= i < events.len() ==> !((#[trigger] events[i]) is PrepareRequest),
    ensures
        tally(state.run(events).1, opening(SpanId::Phase(Phase::Root))) == 0,
    decreases events.len(),
{
    if events.len() > 0 {
        let front = events.drop_last();
        assert forall|i: int| 0 <= i < front.len() implies !((#[trigger] front[i])
            is PrepareRequest) by {
            assert(front[i] == events[i]);
        }
        lemma_run_opens_no_root(state, front);
        let (mid, actions) = state.run(front);
        assert(!(events[events.len() - 1] is PrepareRequest));
        lemma_step_opens_no_root(mid, events.last());
        lemma_tally_concat(actions, mid.step(events.last()).1, opening(SpanId::Phase(Phase::Root)));
    }
}

/// As long as neither `error` nor `result` is delivered the request is
/// under way.
proof fn lemma_run_stays_active(events: Seq<Event>)
    requires
        forall|i: int| 0 <= i < events.len() ==> !(#[trigger] events[i]).is_terminal(),
    ensures
        State::initial().run(events).0.active(),
    decreases events.len(),
{
    if events.len() > 0 {
        let front = events.drop_last();
        assert forall|i: int| 0 <= i < front.len() implies !(#[trigger] front[i]).is_terminal() by {
            assert(front[i] == events[i]);
        }
        lemma_run_stays_active(front);
        assert(!events[events.len() - 1].is_terminal());
    }
}

/// The start of a request that is under way opens one root span.
proof fn lemma_prepare_opens_one_root(state: State, caller: bool, report: bool)
    requires
        state.active(),
    ensures
        tally(state.prepare_request(caller, report).1, opening(SpanId::Phase(Phase::Root))) == 1,
{
    let root = SpanId::Phase(Phase::Root);
    let actions = state.prepare_request(caller, report).1;
    let count = seq![ActionView::Count { counter: Counter::Requests, labels: LabelsView::none() }];
    let spans = state.tracker.open_root(caller).1;
    assert(actions == count + spans);
    lemma_tally_concat(count, spans, opening(root));
    lemma_tally_none(count, opening(root));
    lemma_tally_one(spans, opening(root), spans.len() - 1);
}

/// A request to which `prepare_request` is delivered once, before its end,
/// and which ends with `error` or `result`, opens exactly one root span
/// and closes exactly one.
pub proof fn law_one_root_span(before: Seq<Event>, caller: bool, report: bool, after: Seq<Event>)
    requires
        forall|i: int|
            0 <= i < before.len() ==> !((#[trigger] before[i]) is PrepareRequest)
                && !before[i].is_terminal(),
        forall|i: int| 0 <= i < after.len() ==> !((#[trigger] after[i]) is PrepareRequest),
        after.len() > 0,
        after.last().is_terminal(),
    ensures
        tally(
            State::initial().run(before + seq![Event::PrepareRequest { caller, report }] + after).1,
            opening(SpanId::Phase(Phase::Root)),
        ) == 1,
        tally(
            State::initial().run(before + seq![Event::PrepareRequest { caller, report }] + after).1,
            closing(SpanId::Phase(Phase::Root)),
        ) == 1,
{
    let root = SpanId::Phase(Phase::Root);
    let begin = Event::PrepareRequest { caller, report };
    let events = before + seq![begin] + after;
    let start = State::initial();
    let (ready, early) = start.run(before);
    assert forall|i: int| 0 <= i < before.len() implies !(#[trigger] before[i]).is_terminal() by {}
    lemma_run_stays_active(before);
    lemma_run_opens_no_root(start, before);
    assert(seq![begin].drop_last() =~= Seq::<Event>::empty());
    assert(ready.run(seq![begin].drop_last()) == (ready, Seq::<ActionView>::empty()));
    let (begun, opened) = ready.step(begin);
    assert(ready.run(seq![begin]).0 == begun);
    assert(ready.run(seq![begin]).1 =~= opened);
    lemma_prepare_opens_one_root(ready, caller, report);
    lemma_run_concat(start, before, seq![begin]);
    lemma_run_concat(start, before + seq![begin], after);
    lemma_run_opens_no_root(begun, after);
    lemma_tally_concat(early, opened, opening(root));
    lemma_tally_concat(early + opened, begun.run(after).1, opening(root));
    assert(events.last() == after.last());
    law_no_span_outlives_request(events, root);
}

} // verus!
