//! The metrics aggregator: the timing of the request and of its field
//! resolutions, and the metrics that are made of them.

use crate::action::{
    no_actions, push_action, Action, ActionView, Counter, Fault, Labels, LabelsView,
};
use crate::clock::Timestamp;
use crate::model::{durations_non_negative, field_report_of, MetricsView};
use crate::records::{join_path, PendingResolve, ResolveStat, TelemetryData, TraceSummary};
use crate::sorting::{is_stable_order_of, lemma_sort_stats, sort_resolves};
use vstd::prelude::*;

verus! {

fn copy_label(label: &Option<String>) -> (copy: Option<String>)
    ensures
        copy.deep_view() == label.deep_view(),
{
    match label {
        Some(text) => Some(text.clone()),
        None => None,
    }
}

/// What has been measured of one request.
pub struct Metrics {
    start_time: Option<Timestamp>,
    end_time: Option<Timestamp>,
    resolves: Vec<ResolveStat>,
    query_name: Option<String>,
    query_root: Option<String>,
}

impl View for Metrics {
    type V = MetricsView;

    closed spec fn view(&self) -> MetricsView {
        MetricsView {
            start_time: self.start_time.deep_view(),
            end_time: self.end_time.deep_view(),
            resolves: self.resolves.deep_view(),
            query_name: self.query_name.deep_view(),
            query_root: self.query_root.deep_view(),
        }
    }
}

/// The increment of the request counter, without labels.
pub fn record_request_start() -> (action: Action)
    ensures
        action@ == (ActionView::Count { counter: Counter::Requests, labels: LabelsView::none() }),
{
    Action::Count { counter: Counter::Requests, labels: Labels::none() }
}

/// The increment of the subscription counter, without labels.
pub fn record_subscription_event() -> (action: Action)
    ensures
        action@ == (ActionView::Count {
            counter: Counter::Subscriptions,
            labels: LabelsView::none(),
        }),
{
    Action::Count { counter: Counter::Subscriptions, labels: Labels::none() }
}

/// The report of one field in the per-field variant of the telemetry,
/// which keeps no state between events: `failure` holds the message and
/// the metadata of the error if the resolution failed, `elapsed_millis`
/// the time since the extension was created.
pub fn field_report(
    path: String,
    parent_type: String,
    return_type: String,
    failure: Option<(String, String)>,
    elapsed_millis: u128,
) -> (actions: Vec<Action>)
    ensures
        actions.deep_view() == field_report_of(
            path@,
            parent_type@,
            return_type@,
            match failure {
                Some((message, metadata)) => Some((message@, metadata@)),
                None => None,
            },
            elapsed_millis as int,
        ),
{
    let mut actions = no_actions();
    match failure {
        Some((message, metadata)) => {
            let labels = Labels {
                query_name: Some(path.clone()),
                query_root: Some(parent_type.clone()),
                return_type: Some(return_type.clone()),
            };
            push_action(&mut actions, Action::Count { counter: Counter::RequestErrors, labels });
            push_action(&mut actions, Action::LogFieldError { message, metadata });
        },
        None => {},
    }
    let millis = (elapsed_millis % 0x1_0000_0000_0000_0000u128) as u64;
    let labels = Labels {
        query_name: Some(path),
        query_root: Some(parent_type),
        return_type: Some(return_type),
    };
    push_action(&mut actions, Action::ObserveFieldDuration { millis, labels });
    actions
}

impl Metrics {
    /// Nothing measured yet.
    pub fn new() -> (metrics: Self)
        ensures
            metrics@ == MetricsView::fresh(),
    {
        Metrics {
            start_time: None,
            end_time: None,
            resolves: Vec::new(),
            query_name: None,
            query_root: None,
        }
    }

    /// Records the start of the request.
    pub fn mark_start(&mut self, now: Timestamp)
        ensures
            final(self)@ == (MetricsView { start_time: Some(now@), ..old(self)@ }),
    {
        self.start_time = Some(now);
    }

    /// Records the end of the execution.
    pub fn mark_end(&mut self, now: Timestamp)
        ensures
            final(self)@ == (MetricsView { end_time: Some(now@), ..old(self)@ }),
    {
        self.end_time = Some(now);
    }

    /// The start of the request, once recorded.
    pub fn start_time(&self) -> (time: Option<Timestamp>)
        ensures
            time.deep_view() == self@.start_time,
    {
        self.start_time
    }

    /// The end of the execution, once recorded.
    pub fn end_time(&self) -> (time: Option<Timestamp>)
        ensures
            time.deep_view() == self@.end_time,
    {
        self.end_time
    }

    /// The number of field resolutions recorded as completed.
    pub fn resolved(&self) -> (count: usize)
        ensures
            count == self@.resolves.len(),
    {
        self.resolves.len()
    }

    /// The name of the query: the dotted path of the first field that was
    /// resolved.
    pub fn query_name(&self) -> (name: Option<String>)
        ensures
            name.deep_view() == self@.query_name,
    {
        copy_label(&self.query_name)
    }

    /// The root of the query: the parent type of the first field that was
    /// resolved.
    pub fn query_root(&self) -> (root: Option<String>)
        ensures
            root.deep_view() == self@.query_root,
    {
        copy_label(&self.query_root)
    }

    /// Takes the identity of the request from a field resolution. Once
    /// taken it stays.
    pub fn capture_identity(&mut self, path: &Vec<String>, parent_type: &String)
        ensures
            final(self)@ == old(self)@.capture_identity(path.deep_view(), parent_type@),
    {
        if self.query_name.is_none() {
            self.query_name = Some(join_path(path));
            self.query_root = Some(parent_type.clone());
        }
    }

    /// The labels of the request's metrics.
    pub fn labels(&self) -> (labels: Labels)
        ensures
            labels@ == self@.labels(),
    {
        Labels {
            query_name: copy_label(&self.query_name),
            query_root: copy_label(&self.query_root),
            return_type: None,
        }
    }

    /// Records that `field` completed at `end_time`: its start offset from
    /// the start of the request and its duration. Returns the fault that
    /// stood in the way, in which case nothing is recorded.
    pub fn record_field_complete(&mut self, field: TelemetryData, end_time: Timestamp) -> (fault:
        Option<Fault>)
        requires
            old(self)@.wf(),
        ensures
            final(self)@.wf(),
            fault == old(self)@.completion_fault(field@, end_time@),
            final(self)@ == old(self)@.record_field_complete(field@, end_time@),
    {
        let TelemetryData { resolve_id: _, metrics } = field;
        let PendingResolve { path, field_name, parent_type, return_type, start_time } = metrics;
        let request_start = match self.start_time {
            Some(time) => time,
            None => {
                return Some(Fault::MissingStartTime);
            },
        };
        let start_offset = match start_time.nanos_since(request_start) {
            Some(nanos) => nanos,
            None => {
                return Some(Fault::OffsetOverflow);
            },
        };
        if end_time.nanos < start_time.nanos {
            return Some(Fault::NegativeDuration);
        }
        let duration = match end_time.nanos_since(start_time) {
            Some(nanos) => nanos,
            None => {
                return Some(Fault::DurationOverflow);
            },
        };
        let stat = ResolveStat { path, field_name, parent_type, return_type, start_offset, duration };
        self.resolves.push(stat);
        assert(self.resolves.deep_view() =~= old(self)@.resolves.push(stat@));
        None
    }

    /// Sums the request up. The records are put in ascending order of
    /// start offset, equal offsets in the order of completion, and leave
    /// with the summary; with them go one increment of the counter of
    /// completed requests and one observation of the request's duration.
    /// Where a time is missing or the end lies before the start there is
    /// no summary and the fault is the only action.
    pub fn finalize(&mut self) -> (out: (Option<TraceSummary>, Vec<Action>))
        requires
            old(self)@.wf(),
        ensures
            final(self)@ == (MetricsView { resolves: Seq::empty(), ..old(self)@ }),
            out.0 is Some <==> old(self)@.finalize_fault() is None,
            out.0 matches Some(summary) ==> {
                &&& summary@ == old(self)@.summary()
                &&& is_stable_order_of(summary@.resolvers, old(self)@.resolves)
                &&& durations_non_negative(summary@.resolvers)
                &&& summary@.duration >= 0
            },
            out.1.deep_view() == old(self)@.finalize_actions(),
    {
        let mut actions = no_actions();
        let mut resolves: Vec<ResolveStat> = Vec::new();
        std::mem::swap(&mut resolves, &mut self.resolves);
        let fault = match (self.start_time, self.end_time) {
            (None, _) => Some(Fault::MissingStartTime),
            (Some(_), None) => Some(Fault::MissingEndTime),
            (Some(start), Some(end)) => {
                if end.nanos < start.nanos {
                    Some(Fault::NegativeDuration)
                } else {
                    match end.nanos_since(start) {
                        None => Some(Fault::DurationOverflow),
                        Some(duration) => {
                            let sorted = sort_resolves(resolves);
                            proof {
                                lemma_sort_stats(old(self)@.resolves);
                            }
                            push_action(
                                &mut actions,
                                Action::Count {
                                    counter: Counter::RequestsCompleted,
                                    labels: self.labels(),
                                },
                            );
                            push_action(
                                &mut actions,
                                Action::ObserveRequestDuration {
                                    nanos: duration,
                                    labels: self.labels(),
                                },
                            );
                            let summary = TraceSummary {
                                version: 1,
                                start_time: start.to_rfc3339(),
                                end_time: end.to_rfc3339(),
                                duration,
                                resolvers: sorted,
                            };
                            return (Some(summary), actions);
                        },
                    }
                }
            },
        };
        match fault {
            Some(fault) => {
                push_action(&mut actions, Action::ReportFault { fault });
            },
            None => {},
        }
        (None, actions)
    }

    fn error_log(&self, message: String, metadata: String, pending: usize) -> (action: Action)
        ensures
            action@ == self@.error_log(message@, metadata@, pending as int),
    {
        Action::LogRequestError { message, metadata, resolved: self.resolves.len(), pending }
    }

    /// What is emitted for the error that ends the request: one increment
    /// of the counter of completed requests, one of the error counter,
    /// and the diagnostic with the error and the progress made.
    pub fn record_error(&self, message: String, metadata: String, pending: usize) -> (actions: Vec<
        Action,
    >)
        ensures
            actions.deep_view() == self@.record_error(message@, metadata@, pending as int),
    {
        let mut actions = no_actions();
        push_action(
            &mut actions,
            Action::Count { counter: Counter::RequestsCompleted, labels: self.labels() },
        );
        push_action(
            &mut actions,
            Action::Count { counter: Counter::RequestErrors, labels: self.labels() },
        );
        push_action(&mut actions, self.error_log(message, metadata, pending));
        actions
    }

    /// What is emitted for an error that comes after the request has
    /// ended: one increment of the error counter and the diagnostic.
    pub fn record_late_error(&self, message: String, metadata: String, pending: usize) -> (actions:
        Vec<Action>)
        ensures
            actions.deep_view() == self@.record_late_error(message@, metadata@, pending as int),
    {
        let mut actions = no_actions();
        push_action(
            &mut actions,
            Action::Count { counter: Counter::RequestErrors, labels: self.labels() },
        );
        push_action(&mut actions, self.error_log(message, metadata, pending));
        actions
    }
}

} // verus!
