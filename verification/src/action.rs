//! What the host has to do after an event: the vocabulary of spans,
//! counters and diagnostics that the bookkeeping speaks in.

use vstd::prelude::*;

verus! {

/// One of the four request-level spans.
#[derive(Clone, Copy, Debug, PartialEq, Eq, Hash, Structural)]
pub enum Phase {
    Root,
    Parse,
    Validation,
    Execute,
}

/// Names a span of the request: a phase, or the resolution of one field.
#[derive(Clone, Copy, Debug, PartialEq, Eq, Hash, Structural)]
pub enum SpanId {
    Phase(Phase),
    Field(usize),
}

/// Where a new span hangs in the trace.
#[derive(Clone, Copy, Debug, PartialEq, Eq, Hash, Structural)]
pub enum SpanParent {
    /// The span starts a trace of its own.
    Detached,
    /// The span supplied with the request's configuration.
    Caller,
    /// Another span of this request, open at the time.
    Span(SpanId),
}

/// The counters kept for the metrics backend.
#[derive(Clone, Copy, Debug, PartialEq, Eq, Hash, Structural)]
pub enum Counter {
    /// A request was received.
    Requests,
    /// A subscription stream was started.
    Subscriptions,
    /// A request reached its end, with or without an error.
    RequestsCompleted,
    /// An error was reported.
    RequestErrors,
}

/// A defect in the telemetry itself, never an error of the query.
#[derive(Clone, Copy, Debug, PartialEq, Eq, Hash, Structural)]
pub enum Fault {
    /// The clock reading cannot be held as nanoseconds since the epoch.
    ClockOutOfRange,
    /// A duration was asked for before the request's start was recorded.
    MissingStartTime,
    /// The request was finished before the end of execution was recorded.
    MissingEndTime,
    /// A start offset does not fit a signed 64-bit count of nanoseconds.
    OffsetOverflow,
    /// An end lies before its start.
    NegativeDuration,
    /// A duration does not fit a signed 64-bit count of nanoseconds.
    DurationOverflow,
}

/// How loud a span is: field spans are finer than phase spans.
#[derive(Clone, Copy, Debug, PartialEq, Eq, Hash, Structural)]
pub enum Level {
    Info,
    Debug,
}

/// The level at which a span is recorded.
pub open spec fn level_of(span: SpanId) -> Level {
    match span {
        SpanId::Phase(_) => Level::Info,
        SpanId::Field(_) => Level::Debug,
    }
}

impl SpanId {
    /// The level at which the span is recorded: a phase at `Info`, a
    /// field one step finer.
    pub fn level(&self) -> (level: Level)
        ensures
            level == level_of(*self),
    {
        match self {
            SpanId::Phase(_) => Level::Info,
            SpanId::Field(_) => Level::Debug,
        }
    }
}

/// What a field span carries beside the identifier in its name: the
/// dotted path of the field and the two types.
#[derive(Clone, Debug, PartialEq, Eq)]
pub struct FieldAttributes {
    pub path: String,
    pub parent_type: String,
    pub return_type: String,
}

/// The attributes of a field span, as text.
pub struct FieldAttributesView {
    pub path: Seq<char>,
    pub parent_type: Seq<char>,
    pub return_type: Seq<char>,
}

impl View for FieldAttributes {
    type V = FieldAttributesView;

    open spec fn view(&self) -> FieldAttributesView {
        FieldAttributesView {
            path: self.path@,
            parent_type: self.parent_type@,
            return_type: self.return_type@,
        }
    }
}

impl DeepView for FieldAttributes {
    type V = FieldAttributesView;

    open spec fn deep_view(&self) -> FieldAttributesView {
        self@
    }
}

/// The labels attached to a metric. Absent labels are not attached.
#[derive(Clone, Debug, PartialEq, Eq)]
pub struct Labels {
    pub query_name: Option<String>,
    pub query_root: Option<String>,
    pub return_type: Option<String>,
}

/// The labels of a metric, as text.
pub struct LabelsView {
    pub query_name: Option<Seq<char>>,
    pub query_root: Option<Seq<char>>,
    pub return_type: Option<Seq<char>>,
}

impl LabelsView {
    /// No label at all.
    pub open spec fn none() -> LabelsView {
        LabelsView { query_name: None, query_root: None, return_type: None }
    }
}

impl View for Labels {
    type V = LabelsView;

    open spec fn view(&self) -> LabelsView {
        LabelsView {
            query_name: self.query_name.deep_view(),
            query_root: self.query_root.deep_view(),
            return_type: self.return_type.deep_view(),
        }
    }
}

impl Labels {
    /// No label at all.
    pub fn none() -> (labels: Labels)
        ensures
            labels@ == LabelsView::none(),
    {
        Labels { query_name: None, query_root: None, return_type: None }
    }
}

/// One thing for the host to do. The actions of an event are performed in
/// the order in which they are returned.
#[derive(Clone, Debug, PartialEq, Eq)]
pub enum Action {
    /// Create the span under the given parent and enter it. A field span
    /// comes with its attributes.
    OpenSpan { span: SpanId, parent: SpanParent, attributes: Option<FieldAttributes> },
    /// Exit the span and let go of it.
    CloseSpan { span: SpanId },
    /// Add one to a counter.
    Count { counter: Counter, labels: Labels },
    /// Record how long the request took, in nanoseconds.
    ObserveRequestDuration { nanos: i64, labels: Labels },
    /// Record the time at which a field finished, in whole milliseconds
    /// since the extension was created.
    ObserveFieldDuration { millis: u64, labels: Labels },
    /// Log an error of the request together with its progress.
    LogRequestError { message: String, metadata: String, resolved: usize, pending: usize },
    /// Log an error of one field.
    LogFieldError { message: String, metadata: String },
    /// Log a defect of the telemetry.
    ReportFault { fault: Fault },
}

/// An action, with text and numbers in place of strings and machine
/// integers.
pub enum ActionView {
    OpenSpan { span: SpanId, parent: SpanParent, attributes: Option<FieldAttributesView> },
    CloseSpan { span: SpanId },
    Count { counter: Counter, labels: LabelsView },
    ObserveRequestDuration { nanos: int, labels: LabelsView },
    ObserveFieldDuration { millis: int, labels: LabelsView },
    LogRequestError { message: Seq<char>, metadata: Seq<char>, resolved: int, pending: int },
    LogFieldError { message: Seq<char>, metadata: Seq<char> },
    ReportFault { fault: Fault },
}

impl View for Action {
    type V = ActionView;

    open spec fn view(&self) -> ActionView {
        match *self {
            Action::OpenSpan { span, parent, attributes } => ActionView::OpenSpan {
                span,
                parent,
                attributes: attributes.deep_view(),
            },
            Action::CloseSpan { span } => ActionView::CloseSpan { span },
            Action::Count { counter, labels } => ActionView::Count { counter, labels: labels@ },
            Action::ObserveRequestDuration { nanos, labels } => ActionView::ObserveRequestDuration {
                nanos: nanos as int,
                labels: labels@,
            },
            Action::ObserveFieldDuration { millis, labels } => ActionView::ObserveFieldDuration {
                millis: millis as int,
                labels: labels@,
            },
            Action::LogRequestError { message, metadata, resolved, pending } => {
                ActionView::LogRequestError {
                    message: message@,
                    metadata: metadata@,
                    resolved: resolved as int,
                    pending: pending as int,
                }
            },
            Action::LogFieldError { message, metadata } => ActionView::LogFieldError {
                message: message@,
                metadata: metadata@,
            },
            Action::ReportFault { fault } => ActionView::ReportFault { fault },
        }
    }
}

impl DeepView for Action {
    type V = ActionView;

    open spec fn deep_view(&self) -> ActionView {
        self@
    }
}

/// The close of one span, as an action.
pub open spec fn close_of(span: SpanId) -> ActionView {
    ActionView::CloseSpan { span }
}

/// The opening of a phase span, as an action.
pub open spec fn open_of(span: SpanId, parent: SpanParent) -> ActionView {
    ActionView::OpenSpan { span, parent, attributes: None }
}

/// Appends one action.
pub(crate) fn push_action(actions: &mut Vec<Action>, action: Action)
    ensures
        final(actions).deep_view() == old(actions).deep_view().push(action@),
{
    actions.push(action);
}

/// Appends the actions of `more`, in their order.
pub(crate) fn append_actions(actions: &mut Vec<Action>, more: Vec<Action>)
    ensures
        final(actions).deep_view() == old(actions).deep_view() + more.deep_view(),
{
    let mut more = more;
    actions.append(&mut more);
}

/// A list with no action in it.
pub(crate) fn no_actions() -> (actions: Vec<Action>)
    ensures
        actions.deep_view() == Seq::<ActionView>::empty(),
{
    Vec::new()
}

} // verus!
