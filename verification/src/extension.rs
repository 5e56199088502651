//! The lifecycle coordinator: one value per request, fed with the events
//! of the engine in the order in which they happen.

use crate::action::{append_actions, no_actions, push_action, Action, Fault, Phase};
use crate::clock::{read_utc_clock, Timestamp};
use crate::config::OpenTelemetryConfig;
use crate::metrics::{record_request_start, record_subscription_event, Metrics};
use crate::model::{at_some_time, durations_non_negative, FieldEvent, State, Status};
use crate::records::{TelemetryData, TraceSummary};
use crate::sorting::is_stable_order_of;
use crate::tracker::SpanTracker;
use vstd::prelude::*;

verus! {

/// Makes the telemetry of a request. Attach it to the schema.
pub struct OpenTelemetryExtension;

impl Default for OpenTelemetryExtension {
    fn default() -> Self {
        OpenTelemetryExtension
    }
}

impl OpenTelemetryExtension {
    /// The telemetry of a new request.
    pub fn create(&self) -> (telemetry: OpenTelemetry)
        ensures
            telemetry@ == State::initial(),
            telemetry@.wf(),
    {
        OpenTelemetry::new()
    }
}

/// The telemetry of one request: its spans, its timing and its identity.
///
/// Every event returns the actions that the host has to perform, in their
/// order: spans to open and to close, counters to increment, durations to
/// record and diagnostics to log. Events may be left out. After `error` or
/// `result` the request has ended: no span is open, and every event but a
/// further `error` and `subscribe` does nothing.
pub struct OpenTelemetry {
    status: Status,
    report: bool,
    caller: bool,
    tracker: SpanTracker,
    metrics: Metrics,
}

impl View for OpenTelemetry {
    type V = State;

    closed spec fn view(&self) -> State {
        State {
            status: self.status,
            report: self.report,
            caller: self.caller,
            tracker: self.tracker@,
            metrics: self.metrics@,
        }
    }
}

impl OpenTelemetry {
    /// The telemetry of a request of which nothing has happened yet.
    pub fn new() -> (telemetry: Self)
        ensures
            telemetry@ == State::initial(),
            telemetry@.wf(),
    {
        OpenTelemetry {
            status: Status::Active,
            report: true,
            caller: false,
            tracker: SpanTracker::new(),
            metrics: Metrics::new(),
        }
    }

    /// Whether the request has not ended yet.
    pub fn is_active(&self) -> (active: bool)
        ensures
            active == self@.active(),
    {
        match self.status {
            Status::Active => true,
            _ => false,
        }
    }

    /// Whether the request is under way, has failed or has completed.
    pub fn status(&self) -> (status: Status)
        ensures
            status == self@.status,
    {
        self.status
    }

    /// Whether the summary goes back to the client.
    pub fn returns_tracing_data(&self) -> (report: bool)
        ensures
            report == self@.report,
    {
        self.report
    }

    /// Whether the span of a phase is open.
    pub fn is_open(&self, phase: Phase) -> (open: bool)
        ensures
            open == self@.tracker.phase_open(phase),
    {
        self.tracker.is_open(phase)
    }

    /// Whether a field resolution with this identifier is in flight.
    pub fn tracks(&self, resolve_id: usize) -> (found: bool)
        ensures
            found == self@.tracker.tracks(resolve_id),
    {
        self.tracker.tracks(resolve_id)
    }

    /// The number of field resolutions in flight.
    pub fn pending(&self) -> (count: usize)
        ensures
            count == self@.tracker.fields.len(),
    {
        self.tracker.pending()
    }

    /// The number of field resolutions recorded as completed.
    pub fn resolved(&self) -> (count: usize)
        ensures
            count == self@.metrics.resolves.len(),
    {
        self.metrics.resolved()
    }

    /// The name of the query: the dotted path of the first field that was
    /// resolved.
    pub fn query_name(&self) -> (name: Option<String>)
        ensures
            name.deep_view() == self@.metrics.query_name,
    {
        self.metrics.query_name()
    }

    /// The root of the query: the parent type of the first field that was
    /// resolved.
    pub fn query_root(&self) -> (root: Option<String>)
        ensures
            root.deep_view() == self@.metrics.query_root,
    {
        self.metrics.query_root()
    }

    /// The request begins: counts it, takes the configuration and opens
    /// the root span, under the caller's span if the configuration holds
    /// one.
    pub fn prepare_request(&mut self, config: &OpenTelemetryConfig) -> (actions: Vec<Action>)
        requires
            old(self)@.wf(),
        ensures
            final(self)@.wf(),
            final(self)@ == old(self)@.prepare_request(
                config.parent is Some,
                config.return_tracing_data_to_client,
            ).0,
            actions.deep_view() == old(self)@.prepare_request(
                config.parent is Some,
                config.return_tracing_data_to_client,
            ).1,
    {
        let mut actions = no_actions();
        if self.is_active() {
            self.caller = config.parent.is_some();
            self.report = config.return_tracing_data_to_client;
            push_action(&mut actions, record_request_start());
            let spans = self.tracker.open_root(self.caller);
            append_actions(&mut actions, spans);
        }
        actions
    }

    fn phase_start(&mut self, phase: Phase) -> (actions: Vec<Action>)
        requires
            old(self)@.wf(),
        ensures
            final(self)@.wf(),
            final(self)@ == old(self)@.phase_start(phase).0,
            actions.deep_view() == old(self)@.phase_start(phase).1,
    {
        if self.is_active() {
            self.tracker.open_phase(phase)
        } else {
            no_actions()
        }
    }

    fn phase_end(&mut self, phase: Phase) -> (actions: Vec<Action>)
        requires
            old(self)@.wf(),
        ensures
            final(self)@.wf(),
            final(self)@ == old(self)@.phase_end(phase).0,
            actions.deep_view() == old(self)@.phase_end(phase).1,
    {
        if self.is_active() {
            self.tracker.close_phase(phase)
        } else {
            no_actions()
        }
    }

    fn clock_fault(&self) -> (actions: Vec<Action>)
        ensures
            actions.deep_view() == self@.clock_fault(),
    {
        let mut actions = no_actions();
        if self.is_active() {
            push_action(&mut actions, Action::ReportFault { fault: Fault::ClockOutOfRange });
        }
        actions
    }

    /// Parsing begins at `now`: this is the start of the request's time.
    /// Opens the parse span.
    pub fn parse_start_at(&mut self, now: Timestamp) -> (actions: Vec<Action>)
        requires
            old(self)@.wf(),
        ensures
            final(self)@.wf(),
            final(self)@ == old(self)@.parse_start(now@).0,
            actions.deep_view() == old(self)@.parse_start(now@).1,
    {
        if self.is_active() {
            self.metrics.mark_start(now);
        }
        self.phase_start(Phase::Parse)
    }

    /// Parsing begins now. Where the clock gives no usable time nothing
    /// changes and the fault is reported.
    pub fn parse_start(&mut self) -> (actions: Vec<Action>)
        requires
            old(self)@.wf(),
        ensures
            final(self)@.wf(),
            at_some_time(|now: int| old(self)@.parse_start(now), final(self)@, actions.deep_view())
                || (final(self)@ == old(self)@ && actions.deep_view() == old(self)@.clock_fault()),
    {
        match read_utc_clock() {
            Some(nanos) => {
                let now = Timestamp { nanos };
                let actions = self.parse_start_at(now);
                assert((|now: int| old(self)@.parse_start(now))(now@) == (
                    self@,
                    actions.deep_view(),
                ));
                actions
            },
            None => self.clock_fault(),
        }
    }

    /// Parsing has ended: closes the parse span.
    pub fn parse_end(&mut self) -> (actions: Vec<Action>)
        requires
            old(self)@.wf(),
        ensures
            final(self)@.wf(),
            final(self)@ == old(self)@.parse_end().0,
            actions.deep_view() == old(self)@.parse_end().1,
    {
        self.phase_end(Phase::Parse)
    }

    /// Validation begins: opens the validation span.
    pub fn validation_start(&mut self) -> (actions: Vec<Action>)
        requires
            old(self)@.wf(),
        ensures
            final(self)@.wf(),
            final(self)@ == old(self)@.validation_start().0,
            actions.deep_view() == old(self)@.validation_start().1,
    {
        self.phase_start(Phase::Validation)
    }

    /// Validation has ended: closes the validation span.
    pub fn validation_end(&mut self) -> (actions: Vec<Action>)
        requires
            old(self)@.wf(),
        ensures
            final(self)@.wf(),
            final(self)@ == old(self)@.validation_end().0,
            actions.deep_view() == old(self)@.validation_end().1,
    {
        self.phase_end(Phase::Validation)
    }

    /// Execution begins: opens the execute span, also where there is no
    /// root span.
    pub fn execution_start(&mut self) -> (actions: Vec<Action>)
        requires
            old(self)@.wf(),
        ensures
            final(self)@.wf(),
            final(self)@ == old(self)@.execution_start().0,
            actions.deep_view() == old(self)@.execution_start().1,
    {
        self.phase_start(Phase::Execute)
    }

    /// Execution has ended at `now`: this is the end of the request's
    /// time. Closes the execute span.
    pub fn execution_end_at(&mut self, now: Timestamp) -> (actions: Vec<Action>)
        requires
            old(self)@.wf(),
        ensures
            final(self)@.wf(),
            final(self)@ == old(self)@.execution_end(now@).0,
            actions.deep_view() == old(self)@.execution_end(now@).1,
    {
        if self.is_active() {
            self.metrics.mark_end(now);
        }
        self.phase_end(Phase::Execute)
    }

    /// Execution has ended now. Where the clock gives no usable time
    /// nothing changes and the fault is reported.
    pub fn execution_end(&mut self) -> (actions: Vec<Action>)
        requires
            old(self)@.wf(),
        ensures
            final(self)@.wf(),
            at_some_time(
                |now: int| old(self)@.execution_end(now),
                final(self)@,
                actions.deep_view(),
            ) || (final(self)@ == old(self)@ && actions.deep_view() == old(self)@.clock_fault()),
    {
        match read_utc_clock() {
            Some(nanos) => {
                let now = Timestamp { nanos };
                let actions = self.execution_end_at(now);
                assert((|now: int| old(self)@.execution_end(now))(now@) == (
                    self@,
                    actions.deep_view(),
                ));
                actions
            },
            None => self.clock_fault(),
        }
    }

    /// The resolution of a field begins at `now`. It hangs under the
    /// resolution that `parent_id` names, if that is not zero, not the
    /// field's own and in flight; else under the execute span; and where
    /// that is not open either, nothing is recorded at all. The first
    /// field that is recorded gives the request its name and root.
    pub fn resolve_start_at(
        &mut self,
        resolve_id: usize,
        parent_id: Option<usize>,
        path: Vec<String>,
        field_name: String,
        parent_type: String,
        return_type: String,
        now: Timestamp,
    ) -> (actions: Vec<Action>)
        requires
            old(self)@.wf(),
        ensures
            final(self)@.wf(),
            final(self)@ == old(self)@.resolve_start(
                FieldEvent {
                    resolve_id,
                    parent_id,
                    path: path.deep_view(),
                    field_name: field_name@,
                    parent_type: parent_type@,
                    return_type: return_type@,
                },
                now@,
            ).0,
            actions.deep_view() == old(self)@.resolve_start(
                FieldEvent {
                    resolve_id,
                    parent_id,
                    path: path.deep_view(),
                    field_name: field_name@,
                    parent_type: parent_type@,
                    return_type: return_type@,
                },
                now@,
            ).1,
    {
        if !self.is_active() || self.tracker.field_parent(resolve_id, parent_id).is_none() {
            return no_actions();
        }
        self.metrics.capture_identity(&path, &parent_type);
        let field = TelemetryData::new(
            resolve_id,
            path,
            field_name,
            parent_type,
            return_type,
            now,
        );
        self.tracker.begin_field(field, parent_id)
    }

    /// The resolution of a field begins now. Where the clock gives no
    /// usable time nothing changes and the fault is reported.
    pub fn resolve_start(
        &mut self,
        resolve_id: usize,
        parent_id: Option<usize>,
        path: Vec<String>,
        field_name: String,
        parent_type: String,
        return_type: String,
    ) -> (actions: Vec<Action>)
        requires
            old(self)@.wf(),
        ensures
            final(self)@.wf(),
            at_some_time(
                |now: int|
                    old(self)@.resolve_start(
                        FieldEvent {
                            resolve_id,
                            parent_id,
                            path: path.deep_view(),
                            field_name: field_name@,
                            parent_type: parent_type@,
                            return_type: return_type@,
                        },
                        now,
                    ),
                final(self)@,
                actions.deep_view(),
            ) || (final(self)@ == old(self)@ && actions.deep_view() == old(self)@.clock_fault()),
    {
        let ghost event = FieldEvent {
            resolve_id,
            parent_id,
            path: path.deep_view(),
            field_name: field_name@,
            parent_type: parent_type@,
            return_type: return_type@,
        };
        match read_utc_clock() {
            Some(nanos) => {
                let now = Timestamp { nanos };
                let actions = self.resolve_start_at(
                    resolve_id,
                    parent_id,
                    path,
                    field_name,
                    parent_type,
                    return_type,
                    now,
                );
                assert((|now: int| old(self)@.resolve_start(event, now))(now@) == (
                    self@,
                    actions.deep_view(),
                ));
                actions
            },
            None => self.clock_fault(),
        }
    }

    /// The resolution of a field has ended at `now`: closes its span and
    /// records its timing. An identifier that is not in flight changes
    /// nothing. Where the timing cannot be recorded the span is closed
    /// all the same and the fault is reported.
    pub fn resolve_end_at(&mut self, resolve_id: usize, now: Timestamp) -> (actions: Vec<Action>)
        requires
            old(self)@.wf(),
        ensures
            final(self)@.wf(),
            final(self)@ == old(self)@.resolve_end(resolve_id, now@).0,
            actions.deep_view() == old(self)@.resolve_end(resolve_id, now@).1,
    {
        if !self.is_active() {
            return no_actions();
        }
        let (field, mut actions) = self.tracker.end_field(resolve_id);
        match field {
            Some(field) => {
                match self.metrics.record_field_complete(field, now) {
                    Some(fault) => {
                        push_action(&mut actions, Action::ReportFault { fault });
                    },
                    None => {},
                }
            },
            None => {},
        }
        actions
    }

    /// The resolution of a field has ended now. Where the clock gives no
    /// usable time nothing changes and the fault is reported.
    pub fn resolve_end(&mut self, resolve_id: usize) -> (actions: Vec<Action>)
        requires
            old(self)@.wf(),
        ensures
            final(self)@.wf(),
            at_some_time(
                |now: int| old(self)@.resolve_end(resolve_id, now),
                final(self)@,
                actions.deep_view(),
            ) || (final(self)@ == old(self)@ && actions.deep_view() == old(self)@.clock_fault()),
    {
        match read_utc_clock() {
            Some(nanos) => {
                let now = Timestamp { nanos };
                let actions = self.resolve_end_at(resolve_id, now);
                assert((|now: int| old(self)@.resolve_end(resolve_id, now))(now@) == (
                    self@,
                    actions.deep_view(),
                ));
                actions
            },
            None => self.clock_fault(),
        }
    }

    /// The engine reports an error. The first error ends the request: it
    /// is counted as completed and as failed, logged with the progress
    /// made, and every open span is closed, the field spans first. A
    /// later error is counted as an error and logged, nothing more.
    pub fn error(&mut self, message: String, metadata: String) -> (actions: Vec<Action>)
        requires
            old(self)@.wf(),
        ensures
            final(self)@.wf(),
            final(self)@ == old(self)@.error(message@, metadata@).0,
            actions.deep_view() == old(self)@.error(message@, metadata@).1,
    {
        let pending = self.tracker.pending();
        if self.is_active() {
            let mut actions = self.metrics.record_error(message, metadata, pending);
            let spans = self.tracker.unwind_all();
            append_actions(&mut actions, spans);
            self.status = Status::Errored;
            actions
        } else {
            self.metrics.record_late_error(message, metadata, pending)
        }
    }

    /// The request completes: it is summed up, its metrics are emitted
    /// and every span that is still open is closed, the root span last.
    /// The summary is returned if the configuration asks for it and no
    /// fault stands in the way; its records are in ascending order of
    /// start offset. After the end of the request nothing happens.
    pub fn result(&mut self) -> (out: (Option<TraceSummary>, Vec<Action>))
        requires
            old(self)@.wf(),
        ensures
            final(self)@.wf(),
            final(self)@ == old(self)@.result().0,
            out.1.deep_view() == old(self)@.result().1,
            out.0.deep_view() == old(self)@.reported(),
            out.0 matches Some(summary) ==> {
                &&& is_stable_order_of(summary@.resolvers, old(self)@.metrics.resolves)
                &&& durations_non_negative(summary@.resolvers)
                &&& summary@.duration >= 0
            },
    {
        if self.is_active() {
            let (summary, mut actions) = self.metrics.finalize();
            let spans = self.tracker.unwind_all();
            append_actions(&mut actions, spans);
            self.status = Status::Completed;
            let summary = if self.report {
                summary
            } else {
                None
            };
            (summary, actions)
        } else {
            (None, no_actions())
        }
    }

    /// A subscription stream begins: counts it.
    pub fn subscribe(&self) -> (actions: Vec<Action>)
        ensures
            actions.deep_view() == self@.subscribe().1,
    {
        let mut actions = no_actions();
        push_action(&mut actions, record_subscription_event());
        actions
    }
}

} // verus!
