//! The mathematical model of one request's telemetry: what is in flight,
//! what has been measured, and what each lifecycle event does to both.

use crate::action::{
    close_of, open_of, ActionView, Counter, Fault, FieldAttributesView, LabelsView, Phase, SpanId,
    SpanParent,
};
use crate::clock::rfc3339_text;
use vstd::prelude::*;

verus! {

/// Whether a count of nanoseconds fits a signed 64-bit integer.
pub open spec fn in_i64(x: int) -> bool {
    i64::MIN <= x <= i64::MAX
}

/// The segments of a path written with a dot between neighbours.
pub open spec fn dotted(path: Seq<Seq<char>>) -> Seq<char>
    decreases path.len(),
{
    if path.len() == 0 {
        Seq::empty()
    } else if path.len() == 1 {
        path[0]
    } else {
        dotted(path.drop_last()) + seq!['.'] + path.last()
    }
}

/// A field resolution in flight.
pub struct FieldView {
    pub resolve_id: usize,
    pub path: Seq<Seq<char>>,
    pub field_name: Seq<char>,
    pub parent_type: Seq<char>,
    pub return_type: Seq<char>,
    pub start_time: int,
}

impl FieldView {
    /// What the span of the resolution carries.
    pub open spec fn attributes(self) -> FieldAttributesView {
        FieldAttributesView {
            path: dotted(self.path),
            parent_type: self.parent_type,
            return_type: self.return_type,
        }
    }

    /// The opening of the span of the resolution under `parent`.
    pub open spec fn opening(self, parent: SpanId) -> ActionView {
        ActionView::OpenSpan {
            span: SpanId::Field(self.resolve_id),
            parent: SpanParent::Span(parent),
            attributes: Some(self.attributes()),
        }
    }
}

/// The timing of a field resolution that has completed.
pub struct StatView {
    pub path: Seq<Seq<char>>,
    pub field_name: Seq<char>,
    pub parent_type: Seq<char>,
    pub return_type: Seq<char>,
    pub start_offset: int,
    pub duration: int,
}

/// The execution summary of a request. The two times are RFC 3339 text,
/// the duration is in nanoseconds.
pub struct SummaryView {
    pub version: int,
    pub start_time: Seq<char>,
    pub end_time: Seq<char>,
    pub duration: int,
    pub resolvers: Seq<StatView>,
}

/// Whether the records are in ascending order of their start offsets.
pub open spec fn ordered_by_offset(stats: Seq<StatView>) -> bool {
    forall|i: int, j: int|
        0 <= i <= j < stats.len() ==> stats[i].start_offset <= stats[j].start_offset
}

/// Whether no record ends before it starts.
pub open spec fn durations_non_negative(stats: Seq<StatView>) -> bool {
    forall|i: int| 0 <= i < stats.len() ==> (#[trigger] stats[i]).duration >= 0
}

/// `sorted` with `stat` put behind the last record that does not start
/// later than it.
pub open spec fn place_stat(sorted: Seq<StatView>, stat: StatView) -> Seq<StatView>
    decreases sorted.len(),
{
    if sorted.len() == 0 {
        seq![stat]
    } else if sorted.last().start_offset <= stat.start_offset {
        sorted.push(stat)
    } else {
        place_stat(sorted.drop_last(), stat).push(sorted.last())
    }
}

/// The records in ascending order of start offset, records with equal
/// offsets in the order in which they were recorded.
pub open spec fn sort_stats(stats: Seq<StatView>) -> Seq<StatView>
    decreases stats.len(),
{
    if stats.len() == 0 {
        Seq::empty()
    } else {
        place_stat(sort_stats(stats.drop_last()), stats.last())
    }
}

/// The records of `stats` that start at `offset`, in their order.
pub open spec fn starting_at(stats: Seq<StatView>, offset: int) -> Seq<StatView> {
    stats.filter(|s: StatView| s.start_offset == offset)
}

/// The spans that are open and the field resolutions in flight.
#[verifier::ext_equal]
pub struct TrackerView {
    pub root: bool,
    pub parse: bool,
    pub validation: bool,
    pub execute: bool,
    /// In the order in which they began.
    pub fields: Seq<FieldView>,
}

impl TrackerView {
    /// Nothing open, nothing in flight.
    pub open spec fn idle() -> TrackerView {
        TrackerView {
            root: false,
            parse: false,
            validation: false,
            execute: false,
            fields: Seq::empty(),
        }
    }

    /// No two resolutions in flight share an identifier.
    pub open spec fn wf(self) -> bool {
        forall|i: int, j: int|
            0 <= i < j < self.fields.len() ==> (#[trigger] self.fields[i]).resolve_id != (
            #[trigger] self.fields[j]).resolve_id
    }

    /// Whether the span of the phase is open.
    pub open spec fn phase_open(self, phase: Phase) -> bool {
        match phase {
            Phase::Root => self.root,
            Phase::Parse => self.parse,
            Phase::Validation => self.validation,
            Phase::Execute => self.execute,
        }
    }

    /// The tracker with the span of the phase open or not, as `open` says.
    pub open spec fn with_phase(self, phase: Phase, open: bool) -> TrackerView {
        match phase {
            Phase::Root => TrackerView { root: open, ..self },
            Phase::Parse => TrackerView { parse: open, ..self },
            Phase::Validation => TrackerView { validation: open, ..self },
            Phase::Execute => TrackerView { execute: open, ..self },
        }
    }

    /// Whether a resolution with this identifier is in flight.
    pub open spec fn tracks(self, resolve_id: usize) -> bool {
        exists|i: int|
            0 <= i < self.fields.len() && (#[trigger] self.fields[i]).resolve_id == resolve_id
    }

    /// Where the resolution with this identifier stands among those in flight.
    pub open spec fn position(self, resolve_id: usize) -> int {
        choose|i: int|
            0 <= i < self.fields.len() && (#[trigger] self.fields[i]).resolve_id == resolve_id
    }

    /// Whether the span is open.
    pub open spec fn is_open(self, span: SpanId) -> bool {
        match span {
            SpanId::Phase(phase) => self.phase_open(phase),
            SpanId::Field(resolve_id) => self.tracks(resolve_id),
        }
    }

    /// The spans that are open.
    pub open spec fn open_spans(self) -> Set<SpanId> {
        Set::new(|span: SpanId| self.is_open(span))
    }

    /// The parent of a phase span: the root span when it is open.
    pub open spec fn phase_parent(self) -> SpanParent {
        if self.root {
            SpanParent::Span(SpanId::Phase(Phase::Root))
        } else {
            SpanParent::Detached
        }
    }

    /// Opens the span of a phase under `parent`. A span of that phase that
    /// is still open is closed first.
    pub open spec fn open_under(self, phase: Phase, parent: SpanParent) -> (
        TrackerView,
        Seq<ActionView>,
    ) {
        let span = SpanId::Phase(phase);
        let displaced = if self.phase_open(phase) {
            seq![close_of(span)]
        } else {
            Seq::empty()
        };
        (self.with_phase(phase, true), displaced.push(open_of(span, parent)))
    }

    /// Opens the root span: under the caller's span when one was supplied,
    /// else as the root of a new trace.
    pub open spec fn open_root(self, caller: bool) -> (TrackerView, Seq<ActionView>) {
        self.open_under(
            Phase::Root,
            if caller {
                SpanParent::Caller
            } else {
                SpanParent::Detached
            },
        )
    }

    /// Opens the span of a phase under the root span, or detached when no
    /// root span is open.
    pub open spec fn open_phase(self, phase: Phase) -> (TrackerView, Seq<ActionView>) {
        match phase {
            Phase::Root => self.open_root(false),
            _ => self.open_under(phase, self.phase_parent()),
        }
    }

    /// Closes the span of a phase if it is open.
    pub open spec fn close_phase(self, phase: Phase) -> (TrackerView, Seq<ActionView>) {
        if self.phase_open(phase) {
            (self.with_phase(phase, false), seq![close_of(SpanId::Phase(phase))])
        } else {
            (self, Seq::empty())
        }
    }

    /// The span under which a field resolution begins: the resolution of
    /// its parent when that is named, is another resolution and is in
    /// flight; else the execute span; else none.
    pub open spec fn field_parent(self, resolve_id: usize, parent_id: Option<usize>) -> Option<
        SpanId,
    > {
        if parent_id is Some && parent_id.unwrap() != 0 && parent_id.unwrap() != resolve_id
            && self.tracks(parent_id.unwrap()) {
            Some(SpanId::Field(parent_id.unwrap()))
        } else if self.execute {
            Some(SpanId::Phase(Phase::Execute))
        } else {
            None
        }
    }

    /// The resolutions in flight but the one with this identifier.
    pub open spec fn without(self, resolve_id: usize) -> Seq<FieldView> {
        if self.tracks(resolve_id) {
            self.fields.remove(self.position(resolve_id))
        } else {
            self.fields
        }
    }

    /// Begins a field resolution. Without a span to hang it under nothing
    /// happens. A resolution in flight under the same identifier is
    /// discarded and its span closed.
    pub open spec fn begin_field(self, field: FieldView, parent_id: Option<usize>) -> (
        TrackerView,
        Seq<ActionView>,
    ) {
        let span = SpanId::Field(field.resolve_id);
        match self.field_parent(field.resolve_id, parent_id) {
            None => (self, Seq::empty()),
            Some(parent) => {
                let displaced = if self.tracks(field.resolve_id) {
                    seq![close_of(span)]
                } else {
                    Seq::empty()
                };
                (
                    TrackerView { fields: self.without(field.resolve_id).push(field), ..self },
                    displaced.push(field.opening(parent)),
                )
            },
        }
    }

    /// Ends a field resolution: takes it out and closes its span. An
    /// identifier that is not in flight changes nothing.
    pub open spec fn end_field(self, resolve_id: usize) -> (
        TrackerView,
        Option<FieldView>,
        Seq<ActionView>,
    ) {
        if self.tracks(resolve_id) {
            (
                TrackerView { fields: self.without(resolve_id), ..self },
                Some(self.fields[self.position(resolve_id)]),
                seq![close_of(SpanId::Field(resolve_id))],
            )
        } else {
            (self, None, Seq::empty())
        }
    }

    /// In a well-formed tracker an identifier names one place.
    pub proof fn lemma_position(self, i: int)
        requires
            self.wf(),
            0 <= i < self.fields.len(),
        ensures
            self.tracks(self.fields[i].resolve_id),
            self.position(self.fields[i].resolve_id) == i,
    {
        let id = self.fields[i].resolve_id;
        let p = self.position(id);
        assert(0 <= p < self.fields.len() && self.fields[p].resolve_id == id);
        if p < i {
            assert(self.fields[p].resolve_id != self.fields[i].resolve_id);
        } else if i < p {
            assert(self.fields[i].resolve_id != self.fields[p].resolve_id);
        }
    }

    /// Taking a resolution out of a well-formed tracker leaves it well
    /// formed, and leaves no resolution under that identifier.
    pub proof fn lemma_without(self, resolve_id: usize)
        requires
            self.wf(),
        ensures
            (TrackerView { fields: self.without(resolve_id), ..self }).wf(),
            !(TrackerView { fields: self.without(resolve_id), ..self }).tracks(resolve_id),
            forall|k: int|
                0 <= k < self.without(resolve_id).len() ==> (#[trigger] self.without(
                    resolve_id,
                )[k]).resolve_id != resolve_id,
    {
        let rest = self.without(resolve_id);
        if self.tracks(resolve_id) {
            let p = self.position(resolve_id);
            assert forall|k: int| 0 <= k < rest.len() implies (#[trigger] rest[k]).resolve_id
                != resolve_id by {
                if k < p {
                    assert(rest[k] == self.fields[k]);
                    assert(self.fields[k].resolve_id != self.fields[p].resolve_id);
                } else {
                    assert(rest[k] == self.fields[k + 1]);
                    assert(self.fields[p].resolve_id != self.fields[k + 1].resolve_id);
                }
            }
            assert forall|i: int, j: int| 0 <= i < j < rest.len() implies (
            #[trigger] rest[i]).resolve_id != (#[trigger] rest[j]).resolve_id by {
                let a = if i < p { i } else { i + 1 };
                let b = if j < p { j } else { j + 1 };
                assert(rest[i] == self.fields[a]);
                assert(rest[j] == self.fields[b]);
                assert(self.fields[a].resolve_id != self.fields[b].resolve_id);
            }
        }
    }

    /// The tracker once the first `count` resolutions have been let go.
    pub open spec fn skipping(self, count: int) -> TrackerView {
        TrackerView { fields: self.fields.skip(count), ..self }
    }

    /// Which identifiers are in flight once one has been taken out.
    pub proof fn lemma_tracks_without(self, resolve_id: usize, other: usize)
        requires
            self.wf(),
        ensures
            (TrackerView { fields: self.without(resolve_id), ..self }).tracks(other) <==> (
            self.tracks(other) && other != resolve_id),
    {
        let rest = TrackerView { fields: self.without(resolve_id), ..self };
        self.lemma_without(resolve_id);
        if self.tracks(resolve_id) {
            let p = self.position(resolve_id);
            if rest.tracks(other) {
                let k = rest.position(other);
                assert(rest.fields[k].resolve_id == other);
                if k < p {
                    assert(rest.fields[k] == self.fields[k]);
                } else {
                    assert(rest.fields[k] == self.fields[k + 1]);
                }
            }
            if self.tracks(other) && other != resolve_id {
                let k = self.position(other);
                assert(self.fields[k].resolve_id == other);
                if k < p {
                    assert(rest.fields[k] == self.fields[k]);
                } else {
                    assert(rest.fields[k - 1] == self.fields[k]);
                }
            }
        }
    }

    /// Which identifiers are in flight once a resolution has begun.
    pub proof fn lemma_tracks_push(self, field: FieldView, other: usize)
        ensures
            (TrackerView { fields: self.fields.push(field), ..self }).tracks(other) <==> (
            self.tracks(other) || other == field.resolve_id),
    {
        let more = TrackerView { fields: self.fields.push(field), ..self };
        if more.tracks(other) {
            let k = more.position(other);
            assert(more.fields[k].resolve_id == other);
            if k < self.fields.len() {
                assert(more.fields[k] == self.fields[k]);
            }
        }
        if self.tracks(other) {
            let k = self.position(other);
            assert(more.fields[k] == self.fields[k]);
        }
        if other == field.resolve_id {
            assert(more.fields[self.fields.len() as int] == field);
        }
    }

    /// The closes of the phase spans that are open, innermost first.
    pub open spec fn phase_closes(self) -> Seq<ActionView> {
        (if self.execute {
            seq![close_of(SpanId::Phase(Phase::Execute))]
        } else {
            Seq::empty()
        }) + (if self.validation {
            seq![close_of(SpanId::Phase(Phase::Validation))]
        } else {
            Seq::empty()
        }) + (if self.parse {
            seq![close_of(SpanId::Phase(Phase::Parse))]
        } else {
            Seq::empty()
        }) + (if self.root {
            seq![close_of(SpanId::Phase(Phase::Root))]
        } else {
            Seq::empty()
        })
    }

    /// The closes of the field spans, in the order in which the
    /// resolutions began.
    pub open spec fn field_closes(self) -> Seq<ActionView> {
        Seq::new(self.fields.len(), |i: int| close_of(SpanId::Field(self.fields[i].resolve_id)))
    }

    /// Closes every span that is open: the field spans, then execute,
    /// validation, parse and root.
    pub open spec fn unwind_all(self) -> (TrackerView, Seq<ActionView>) {
        (TrackerView::idle(), self.field_closes() + self.phase_closes())
    }
}

/// What has been measured of the request.
#[verifier::ext_equal]
pub struct MetricsView {
    pub start_time: Option<int>,
    pub end_time: Option<int>,
    /// In the order in which the resolutions completed.
    pub resolves: Seq<StatView>,
    pub query_name: Option<Seq<char>>,
    pub query_root: Option<Seq<char>>,
}

impl MetricsView {
    /// Nothing measured yet.
    pub open spec fn fresh() -> MetricsView {
        MetricsView {
            start_time: None,
            end_time: None,
            resolves: Seq::empty(),
            query_name: None,
            query_root: None,
        }
    }

    /// No recorded resolution ends before it starts.
    pub open spec fn wf(self) -> bool {
        durations_non_negative(self.resolves)
    }

    /// The labels of the request's metrics: its identity as far as known.
    pub open spec fn labels(self) -> LabelsView {
        LabelsView { query_name: self.query_name, query_root: self.query_root, return_type: None }
    }

    /// Takes the identity of the request from a field resolution, unless
    /// it has one already.
    pub open spec fn capture_identity(
        self,
        path: Seq<Seq<char>>,
        parent_type: Seq<char>,
    ) -> MetricsView {
        if self.query_name is None {
            MetricsView {
                query_name: Some(dotted(path)),
                query_root: Some(parent_type),
                ..self
            }
        } else {
            self
        }
    }

    /// What stands in the way of recording the completion of `field` at
    /// `end_time`, if anything.
    pub open spec fn completion_fault(self, field: FieldView, end_time: int) -> Option<Fault> {
        match self.start_time {
            None => Some(Fault::MissingStartTime),
            Some(start) => if !in_i64(field.start_time - start) {
                Some(Fault::OffsetOverflow)
            } else if end_time < field.start_time {
                Some(Fault::NegativeDuration)
            } else if !in_i64(end_time - field.start_time) {
                Some(Fault::DurationOverflow)
            } else {
                None
            },
        }
    }

    /// The record of `field` completing at `end_time`.
    pub open spec fn completed(self, field: FieldView, end_time: int) -> StatView {
        StatView {
            path: field.path,
            field_name: field.field_name,
            parent_type: field.parent_type,
            return_type: field.return_type,
            start_offset: field.start_time - self.start_time.unwrap(),
            duration: end_time - field.start_time,
        }
    }

    /// Records the completion of a field resolution, unless a fault
    /// stands in the way.
    pub open spec fn record_field_complete(self, field: FieldView, end_time: int) -> MetricsView {
        if self.completion_fault(field, end_time) is None {
            MetricsView { resolves: self.resolves.push(self.completed(field, end_time)), ..self }
        } else {
            self
        }
    }

    /// What stands in the way of summing the request up, if anything.
    pub open spec fn finalize_fault(self) -> Option<Fault> {
        match (self.start_time, self.end_time) {
            (None, _) => Some(Fault::MissingStartTime),
            (Some(_), None) => Some(Fault::MissingEndTime),
            (Some(start), Some(end)) => if end < start {
                Some(Fault::NegativeDuration)
            } else if !in_i64(end - start) {
                Some(Fault::DurationOverflow)
            } else {
                None
            },
        }
    }

    /// The summary of the request.
    pub open spec fn summary(self) -> SummaryView {
        SummaryView {
            version: 1,
            start_time: rfc3339_text(self.start_time.unwrap()),
            end_time: rfc3339_text(self.end_time.unwrap()),
            duration: self.end_time.unwrap() - self.start_time.unwrap(),
            resolvers: sort_stats(self.resolves),
        }
    }

    /// What is emitted when the request is summed up.
    pub open spec fn finalize_actions(self) -> Seq<ActionView> {
        match self.finalize_fault() {
            Some(fault) => seq![ActionView::ReportFault { fault }],
            None => seq![
                ActionView::Count { counter: Counter::RequestsCompleted, labels: self.labels() },
                ActionView::ObserveRequestDuration {
                    nanos: self.summary().duration,
                    labels: self.labels(),
                },
            ],
        }
    }

    /// The diagnostic of an error of the request.
    pub open spec fn error_log(self, message: Seq<char>, metadata: Seq<char>, pending: int)
        -> ActionView {
        ActionView::LogRequestError {
            message,
            metadata,
            resolved: self.resolves.len() as int,
            pending,
        }
    }

    /// What is emitted for the error that ends the request.
    pub open spec fn record_error(self, message: Seq<char>, metadata: Seq<char>, pending: int)
        -> Seq<ActionView> {
        seq![
            ActionView::Count { counter: Counter::RequestsCompleted, labels: self.labels() },
            ActionView::Count { counter: Counter::RequestErrors, labels: self.labels() },
            self.error_log(message, metadata, pending),
        ]
    }

    /// What is emitted for an error after the request has ended.
    pub open spec fn record_late_error(self, message: Seq<char>, metadata: Seq<char>, pending: int)
        -> Seq<ActionView> {
        seq![
            ActionView::Count { counter: Counter::RequestErrors, labels: self.labels() },
            self.error_log(message, metadata, pending),
        ]
    }
}

/// Whether the request is under way or has reached one of its two ends.
#[derive(Clone, Copy, Debug, PartialEq, Eq, Structural)]
pub enum Status {
    Active,
    Errored,
    Completed,
}

/// The telemetry of one request.
#[verifier::ext_equal]
pub struct State {
    pub status: Status,
    /// Whether the summary goes back to the client.
    pub report: bool,
    /// Whether the caller supplied a span to hang the request under.
    pub caller: bool,
    pub tracker: TrackerView,
    pub metrics: MetricsView,
}

/// Whether `step` leads to `state` and `actions` at some reading of the
/// clock.
pub open spec fn at_some_time(
    step: spec_fn(int) -> (State, Seq<ActionView>),
    state: State,
    actions: Seq<ActionView>,
) -> bool {
    exists|now: int| in_i64(now) && #[trigger] step(now) == (state, actions)
}

/// What the field hook of the host reports of one field resolution.
pub struct FieldEvent {
    pub resolve_id: usize,
    pub parent_id: Option<usize>,
    pub path: Seq<Seq<char>>,
    pub field_name: Seq<char>,
    pub parent_type: Seq<char>,
    pub return_type: Seq<char>,
}

impl FieldEvent {
    /// The resolution in flight that the event starts at `now`.
    pub open spec fn begun_at(self, now: int) -> FieldView {
        FieldView {
            resolve_id: self.resolve_id,
            path: self.path,
            field_name: self.field_name,
            parent_type: self.parent_type,
            return_type: self.return_type,
            start_time: now,
        }
    }
}

impl State {
    /// The state in which a request starts.
    pub open spec fn initial() -> State {
        State {
            status: Status::Active,
            report: true,
            caller: false,
            tracker: TrackerView::idle(),
            metrics: MetricsView::fresh(),
        }
    }

    /// The invariant of the state: the parts are well formed, and a
    /// request that has ended holds no span.
    pub open spec fn wf(self) -> bool {
        &&& self.tracker.wf()
        &&& self.metrics.wf()
        &&& self.status != Status::Active ==> self.tracker == TrackerView::idle()
    }

    /// Whether the request has not ended yet.
    pub open spec fn active(self) -> bool {
        self.status == Status::Active
    }

    /// The request begins: it is counted, the configuration is taken and
    /// the root span is opened.
    pub open spec fn prepare_request(self, caller: bool, report: bool) -> (State, Seq<ActionView>) {
        if self.active() {
            let (tracker, spans) = self.tracker.open_root(caller);
            (
                State { report, caller, tracker, ..self },
                seq![ActionView::Count { counter: Counter::Requests, labels: LabelsView::none() }]
                    + spans,
            )
        } else {
            (self, Seq::empty())
        }
    }

    /// A phase begins: its span is opened.
    pub open spec fn phase_start(self, phase: Phase) -> (State, Seq<ActionView>) {
        if self.active() {
            let (tracker, spans) = self.tracker.open_phase(phase);
            (State { tracker, ..self }, spans)
        } else {
            (self, Seq::empty())
        }
    }

    /// A phase ends: its span is closed.
    pub open spec fn phase_end(self, phase: Phase) -> (State, Seq<ActionView>) {
        if self.active() {
            let (tracker, spans) = self.tracker.close_phase(phase);
            (State { tracker, ..self }, spans)
        } else {
            (self, Seq::empty())
        }
    }

    /// Parsing begins: `now` becomes the start of the request.
    pub open spec fn parse_start(self, now: int) -> (State, Seq<ActionView>) {
        if self.active() {
            State {
                metrics: MetricsView { start_time: Some(now), ..self.metrics },
                ..self
            }.phase_start(Phase::Parse)
        } else {
            (self, Seq::empty())
        }
    }

    /// Parsing ends.
    pub open spec fn parse_end(self) -> (State, Seq<ActionView>) {
        self.phase_end(Phase::Parse)
    }

    /// Validation begins.
    pub open spec fn validation_start(self) -> (State, Seq<ActionView>) {
        self.phase_start(Phase::Validation)
    }

    /// Validation ends.
    pub open spec fn validation_end(self) -> (State, Seq<ActionView>) {
        self.phase_end(Phase::Validation)
    }

    /// Execution begins.
    pub open spec fn execution_start(self) -> (State, Seq<ActionView>) {
        self.phase_start(Phase::Execute)
    }

    /// Execution ends: `now` becomes the end of the request.
    pub open spec fn execution_end(self, now: int) -> (State, Seq<ActionView>) {
        if self.active() {
            State {
                metrics: MetricsView { end_time: Some(now), ..self.metrics },
                ..self
            }.phase_end(Phase::Execute)
        } else {
            (self, Seq::empty())
        }
    }

    /// The resolution of a field begins at `now`. Where there is a span to
    /// hang it under it is recorded, and the first field that is recorded
    /// gives the request its name and root; else nothing happens.
    pub open spec fn resolve_start(self, field: FieldEvent, now: int) -> (State, Seq<ActionView>) {
        if self.active() && self.tracker.field_parent(field.resolve_id, field.parent_id) is Some {
            let (tracker, spans) = self.tracker.begin_field(field.begun_at(now), field.parent_id);
            (
                State {
                    tracker,
                    metrics: self.metrics.capture_identity(field.path, field.parent_type),
                    ..self
                },
                spans,
            )
        } else {
            (self, Seq::empty())
        }
    }

    /// The resolution of a field ends at `now`: its span is closed and its
    /// timing recorded, or the fault reported that stands in the way.
    pub open spec fn resolve_end(self, resolve_id: usize, now: int) -> (State, Seq<ActionView>) {
        if self.active() && self.tracker.tracks(resolve_id) {
            let (tracker, field, spans) = self.tracker.end_field(resolve_id);
            let field = field.unwrap();
            (
                State {
                    tracker,
                    metrics: self.metrics.record_field_complete(field, now),
                    ..self
                },
                match self.metrics.completion_fault(field, now) {
                    Some(fault) => spans.push(ActionView::ReportFault { fault }),
                    None => spans,
                },
            )
        } else {
            (self, Seq::empty())
        }
    }

    /// The engine reports an error. The first ends the request: metrics and
    /// diagnostic first, then the close of every open span. A later one is
    /// counted and logged.
    pub open spec fn error(self, message: Seq<char>, metadata: Seq<char>) -> (
        State,
        Seq<ActionView>,
    ) {
        let pending = self.tracker.fields.len() as int;
        if self.active() {
            let (tracker, spans) = self.tracker.unwind_all();
            (
                State { status: Status::Errored, tracker, ..self },
                self.metrics.record_error(message, metadata, pending) + spans,
            )
        } else {
            (self, self.metrics.record_late_error(message, metadata, pending))
        }
    }

    /// The request completes: its metrics or its fault first, then the
    /// close of every span that is still open. The records leave with the
    /// summary.
    pub open spec fn result(self) -> (State, Seq<ActionView>) {
        if self.active() {
            let (tracker, spans) = self.tracker.unwind_all();
            (
                State {
                    status: Status::Completed,
                    tracker,
                    metrics: MetricsView { resolves: Seq::empty(), ..self.metrics },
                    ..self
                },
                self.metrics.finalize_actions() + spans,
            )
        } else {
            (self, Seq::empty())
        }
    }

    /// The summary that `result` hands back, if any.
    pub open spec fn reported(self) -> Option<SummaryView> {
        if self.active() && self.report && self.metrics.finalize_fault() is None {
            Some(self.metrics.summary())
        } else {
            None
        }
    }

    /// What is emitted when an event needs the time and the clock cannot
    /// give it.
    pub open spec fn clock_fault(self) -> Seq<ActionView> {
        if self.active() {
            seq![ActionView::ReportFault { fault: Fault::ClockOutOfRange }]
        } else {
            Seq::empty()
        }
    }

    /// A subscription stream begins: it is counted.
    pub open spec fn subscribe(self) -> (State, Seq<ActionView>) {
        (
            self,
            seq![ActionView::Count { counter: Counter::Subscriptions, labels: LabelsView::none() }],
        )
    }
}

/// What the per-field variant of the telemetry emits when a field has
/// been resolved: on failure one increment of the error counter and the
/// diagnostic, and in every case the time of completion, in whole
/// milliseconds cut to 64 bits. All carry the field's path, parent type
/// and return type as labels.
pub open spec fn field_report_of(
    path: Seq<char>,
    parent_type: Seq<char>,
    return_type: Seq<char>,
    failure: Option<(Seq<char>, Seq<char>)>,
    elapsed_millis: int,
) -> Seq<ActionView> {
    let labels = LabelsView {
        query_name: Some(path),
        query_root: Some(parent_type),
        return_type: Some(return_type),
    };
    let failed = match failure {
        Some((message, metadata)) => seq![
            ActionView::Count { counter: Counter::RequestErrors, labels },
            ActionView::LogFieldError { message, metadata },
        ],
        None => Seq::empty(),
    };
    failed.push(
        ActionView::ObserveFieldDuration {
            millis: elapsed_millis % 0x1_0000_0000_0000_0000,
            labels,
        },
    )
}

/// A lifecycle event, as the engine delivers it.
pub enum Event {
    PrepareRequest { caller: bool, report: bool },
    ParseStart { now: int },
    ParseEnd,
    ValidationStart,
    ValidationEnd,
    ExecutionStart,
    ExecutionEnd { now: int },
    ResolveStart { field: FieldEvent, now: int },
    ResolveEnd { resolve_id: usize, now: int },
    Error { message: Seq<char>, metadata: Seq<char> },
    Complete,
    Subscribe,
}

impl Event {
    /// Whether the event ends the request.
    pub open spec fn is_terminal(self) -> bool {
        self is Error || self is Complete
    }
}

impl State {
    /// What an event does: the state after it and the actions it asks for.
    pub open spec fn step(self, event: Event) -> (State, Seq<ActionView>) {
        match event {
            Event::PrepareRequest { caller, report } => self.prepare_request(caller, report),
            Event::ParseStart { now } => self.parse_start(now),
            Event::ParseEnd => self.parse_end(),
            Event::ValidationStart => self.validation_start(),
            Event::ValidationEnd => self.validation_end(),
            Event::ExecutionStart => self.execution_start(),
            Event::ExecutionEnd { now } => self.execution_end(now),
            Event::ResolveStart { field, now } => self.resolve_start(field, now),
            Event::ResolveEnd { resolve_id, now } => self.resolve_end(resolve_id, now),
            Event::Error { message, metadata } => self.error(message, metadata),
            Event::Complete => self.result(),
            Event::Subscribe => self.subscribe(),
        }
    }

    /// What a sequence of events does: the state after the last and all
    /// actions in their order.
    pub open spec fn run(self, events: Seq<Event>) -> (State, Seq<ActionView>)
        decreases events.len(),
    {
        if events.len() == 0 {
            (self, Seq::empty())
        } else {
            let (state, actions) = self.run(events.drop_last());
            let (next, more) = state.step(events.last());
            (next, actions + more)
        }
    }
}

} // verus!
