use async_graphql_telemetry_extension::action::{
    Action, Counter, Fault, FieldAttributes, Labels, Phase, SpanId, SpanParent,
};
use async_graphql_telemetry_extension::book::SpanBook;
use async_graphql_telemetry_extension::clock::Timestamp;
use async_graphql_telemetry_extension::config::OpenTelemetryConfig;
use async_graphql_telemetry_extension::extension::OpenTelemetryExtension;
use async_graphql_telemetry_extension::metrics::{
    field_report, record_request_start, record_subscription_event, Metrics,
};
use async_graphql_telemetry_extension::names::{
    instrument_of, DURATION_UNIT, METER, QUERY_NAME_KEY, QUERY_ROOT_KEY, REQUESTS,
    REQUEST_DURATION, REQUEST_ERRORS, RETURN_TYPE_KEY, SUBSCRIPTIONS, TARGET,
};
use async_graphql_telemetry_extension::records::{ResolveStat, TelemetryData};
use async_graphql_telemetry_extension::sorting::sort_resolves;
use async_graphql_telemetry_extension::tracker::SpanTracker;

fn at(nanos: i64) -> Timestamp {
    Timestamp { nanos }
}

fn text(s: &str) -> String {
    s.to_string()
}

fn field(id: usize, name: &str, start: i64) -> TelemetryData {
    TelemetryData::new(id, vec![text(name)], text(name), text("Q"), text("T"), at(start))
}

fn stat(name: &str, start_offset: i64) -> ResolveStat {
    ResolveStat {
        path: vec![text(name)],
        field_name: text(name),
        parent_type: text("Q"),
        return_type: text("T"),
        start_offset,
        duration: 1,
    }
}

#[test]
fn config_default_returns_tracing_data_and_has_no_parent() {
    let config = OpenTelemetryConfig::default();
    assert!(config.parent.is_none());
    assert!(config.return_tracing_data_to_client);
}

#[test]
fn config_parent_span_sets_the_parent_only() {
    let config = OpenTelemetryConfig::default().parent_span(tracing::Span::none());
    assert!(config.parent.is_some());
    assert!(config.return_tracing_data_to_client);
    let config = OpenTelemetryConfig::default()
        .enable_apollo_tracing(false)
        .parent_span(tracing::Span::none());
    assert!(config.parent.is_some());
    assert!(!config.return_tracing_data_to_client);
}

#[test]
fn config_enable_apollo_tracing_sets_the_flag_only() {
    let config = OpenTelemetryConfig::default().enable_apollo_tracing(false);
    assert!(config.parent.is_none());
    assert!(!config.return_tracing_data_to_client);
    let config = config.enable_apollo_tracing(true);
    assert!(config.return_tracing_data_to_client);
    let config = OpenTelemetryConfig::default()
        .parent_span(tracing::Span::none())
        .enable_apollo_tracing(false);
    assert!(config.parent.is_some());
}

#[test]
fn the_extension_creates_fresh_telemetry() {
    let telemetry = OpenTelemetryExtension::default().create();
    assert!(telemetry.is_active());
    assert!(telemetry.returns_tracing_data());
    assert_eq!(telemetry.pending(), 0);
    assert_eq!(telemetry.resolved(), 0);
    assert_eq!(telemetry.query_name(), None);
    assert!(!telemetry.is_open(Phase::Root));
}

#[test]
fn timestamps_as_rfc3339() {
    assert_eq!(at(0).to_rfc3339(), "1970-01-01T00:00:00+00:00");
    assert_eq!(at(1_662_921_288_000_000_000).to_rfc3339(), "2022-09-11T18:34:48+00:00");
    assert_eq!(at(1_500_000_000).to_rfc3339(), "1970-01-01T00:00:01.500+00:00");
    assert_eq!(at(-1).to_rfc3339(), "1969-12-31T23:59:59.999999999+00:00");
}

#[test]
fn nanoseconds_between_timestamps() {
    assert_eq!(at(10).nanos_since(at(3)), Some(7));
    assert_eq!(at(3).nanos_since(at(10)), Some(-7));
    assert_eq!(at(i64::MAX).nanos_since(at(0)), Some(i64::MAX));
    assert_eq!(at(i64::MAX).nanos_since(at(-1)), None);
    assert_eq!(at(i64::MIN).nanos_since(at(0)), Some(i64::MIN));
    assert_eq!(at(i64::MIN).nanos_since(at(1)), None);
    assert_eq!(at(-1).nanos_since(at(i64::MAX)), Some(i64::MIN));
}

#[test]
fn telemetry_data_holds_what_it_was_made_of() {
    let data = TelemetryData::new(
        7,
        vec![text("a"), text("b")],
        text("b"),
        text("A"),
        text("B!"),
        at(42),
    );
    assert_eq!(data.resolve_id, 7);
    assert_eq!(data.span(), SpanId::Field(7));
    assert_eq!(
        data.attributes(),
        FieldAttributes { path: text("a.b"), parent_type: text("A"), return_type: text("B!") }
    );
    assert_eq!(data.metrics.path, vec![text("a"), text("b")]);
    assert_eq!(data.metrics.field_name, "b");
    assert_eq!(data.metrics.parent_type, "A");
    assert_eq!(data.metrics.return_type, "B!");
    assert_eq!(data.metrics.start_time, at(42));
}

#[test]
fn tracker_phases() {
    let mut tracker = SpanTracker::new();
    assert!(tracker.is_idle());
    assert_eq!(
        tracker.open_phase(Phase::Parse),
        vec![Action::OpenSpan {
            span: SpanId::Phase(Phase::Parse),
            parent: SpanParent::Detached,
            attributes: None,
        }]
    );
    assert_eq!(
        tracker.open_root(true),
        vec![Action::OpenSpan {
            span: SpanId::Phase(Phase::Root),
            parent: SpanParent::Caller,
            attributes: None,
        }]
    );
    assert_eq!(
        tracker.open_phase(Phase::Parse),
        vec![
            Action::CloseSpan { span: SpanId::Phase(Phase::Parse) },
            Action::OpenSpan {
                span: SpanId::Phase(Phase::Parse),
                parent: SpanParent::Span(SpanId::Phase(Phase::Root)),
                attributes: None,
            },
        ]
    );
    assert_eq!(
        tracker.open_phase(Phase::Root),
        vec![
            Action::CloseSpan { span: SpanId::Phase(Phase::Root) },
            Action::OpenSpan {
                span: SpanId::Phase(Phase::Root),
                parent: SpanParent::Detached,
                attributes: None,
            },
        ]
    );
    assert!(tracker.is_open(Phase::Root));
    assert!(tracker.is_open(Phase::Parse));
    assert!(!tracker.is_open(Phase::Execute));
    assert!(!tracker.is_idle());
    assert_eq!(
        tracker.close_phase(Phase::Parse),
        vec![Action::CloseSpan { span: SpanId::Phase(Phase::Parse) }]
    );
    assert!(tracker.close_phase(Phase::Parse).is_empty());
    assert!(tracker.close_phase(Phase::Execute).is_empty());
}

#[test]
fn tracker_fields() {
    let mut tracker = SpanTracker::new();
    assert_eq!(tracker.field_parent(1, None), None);
    assert!(tracker.begin_field(field(1, "a", 1), None).is_empty());
    assert_eq!(tracker.pending(), 0);
    tracker.open_phase(Phase::Execute);
    assert_eq!(tracker.field_parent(1, None), Some(SpanId::Phase(Phase::Execute)));
    assert_eq!(
        tracker.begin_field(field(1, "a", 1), None),
        vec![Action::OpenSpan {
            span: SpanId::Field(1),
            parent: SpanParent::Span(SpanId::Phase(Phase::Execute)),
            attributes: Some(FieldAttributes {
                path: text("a"),
                parent_type: text("Q"),
                return_type: text("T"),
            }),
        }]
    );
    tracker.begin_field(field(2, "b", 2), Some(1));
    assert_eq!(tracker.field_parent(3, Some(2)), Some(SpanId::Field(2)));
    assert_eq!(tracker.field_parent(3, Some(0)), Some(SpanId::Phase(Phase::Execute)));
    assert_eq!(tracker.field_parent(3, Some(3)), Some(SpanId::Phase(Phase::Execute)));
    assert_eq!(tracker.field_parent(3, Some(9)), Some(SpanId::Phase(Phase::Execute)));
    assert!(tracker.tracks(1));
    assert!(tracker.tracks(2));
    assert!(!tracker.tracks(3));
    let (ended, actions) = tracker.end_field(1);
    assert_eq!(ended, Some(field(1, "a", 1)));
    assert_eq!(actions, vec![Action::CloseSpan { span: SpanId::Field(1) }]);
    let (ended, actions) = tracker.end_field(1);
    assert_eq!(ended, None);
    assert!(actions.is_empty());
    assert_eq!(tracker.pending(), 1);
}

#[test]
fn tracker_unwinds_fields_first_and_phases_from_the_inside() {
    let mut tracker = SpanTracker::new();
    tracker.open_root(false);
    tracker.open_phase(Phase::Parse);
    tracker.open_phase(Phase::Validation);
    tracker.open_phase(Phase::Execute);
    tracker.begin_field(field(30, "a", 1), None);
    tracker.begin_field(field(10, "b", 2), None);
    tracker.begin_field(field(20, "c", 3), None);
    assert_eq!(
        tracker.unwind_all(),
        vec![
            Action::CloseSpan { span: SpanId::Field(30) },
            Action::CloseSpan { span: SpanId::Field(10) },
            Action::CloseSpan { span: SpanId::Field(20) },
            Action::CloseSpan { span: SpanId::Phase(Phase::Execute) },
            Action::CloseSpan { span: SpanId::Phase(Phase::Validation) },
            Action::CloseSpan { span: SpanId::Phase(Phase::Parse) },
            Action::CloseSpan { span: SpanId::Phase(Phase::Root) },
        ]
    );
    assert!(tracker.is_idle());
    assert!(tracker.unwind_all().is_empty());
}

#[test]
fn metrics_record_and_finalize() {
    let mut metrics = Metrics::new();
    assert_eq!(metrics.start_time(), None);
    assert_eq!(metrics.end_time(), None);
    metrics.mark_start(at(1_000));
    metrics.capture_identity(&vec![text("a"), text("b")], &text("Root"));
    metrics.capture_identity(&vec![text("c")], &text("Other"));
    assert_eq!(metrics.query_name(), Some(text("a.b")));
    assert_eq!(metrics.query_root(), Some(text("Root")));
    assert_eq!(metrics.record_field_complete(field(1, "x", 1_300), at(1_350)), None);
    assert_eq!(metrics.record_field_complete(field(2, "y", 1_100), at(1_400)), None);
    assert_eq!(
        metrics.record_field_complete(field(3, "z", 1_200), at(1_199)),
        Some(Fault::NegativeDuration)
    );
    assert_eq!(metrics.resolved(), 2);
    metrics.mark_end(at(2_000));
    assert_eq!(metrics.start_time(), Some(at(1_000)));
    assert_eq!(metrics.end_time(), Some(at(2_000)));
    let labels = Labels {
        query_name: Some(text("a.b")),
        query_root: Some(text("Root")),
        return_type: None,
    };
    assert_eq!(metrics.labels(), labels);
    let (summary, actions) = metrics.finalize();
    assert_eq!(
        actions,
        vec![
            Action::Count { counter: Counter::RequestsCompleted, labels: labels.clone() },
            Action::ObserveRequestDuration { nanos: 1_000, labels },
        ]
    );
    let summary = summary.unwrap();
    assert_eq!(summary.version, 1);
    assert_eq!(summary.duration, 1_000);
    assert_eq!(summary.start_time, "1970-01-01T00:00:00.000001+00:00");
    assert_eq!(summary.end_time, "1970-01-01T00:00:00.000002+00:00");
    assert_eq!(summary.resolvers.len(), 2);
    assert_eq!(summary.resolvers[0].field_name, "y");
    assert_eq!(summary.resolvers[0].start_offset, 100);
    assert_eq!(summary.resolvers[0].duration, 300);
    assert_eq!(summary.resolvers[1].field_name, "x");
    assert_eq!(summary.resolvers[1].start_offset, 300);
    assert_eq!(summary.resolvers[1].duration, 50);
    assert_eq!(metrics.resolved(), 0);
}

#[test]
fn metrics_errors() {
    let mut metrics = Metrics::new();
    metrics.mark_start(at(0));
    metrics.record_field_complete(field(1, "x", 1), at(2));
    let none = Labels { query_name: None, query_root: None, return_type: None };
    assert_eq!(
        metrics.record_error(text("m"), text("d"), 3),
        vec![
            Action::Count { counter: Counter::RequestsCompleted, labels: none.clone() },
            Action::Count { counter: Counter::RequestErrors, labels: none.clone() },
            Action::LogRequestError { message: text("m"), metadata: text("d"), resolved: 1, pending: 3 },
        ]
    );
    assert_eq!(
        metrics.record_late_error(text("m"), text("d"), 0),
        vec![
            Action::Count { counter: Counter::RequestErrors, labels: none },
            Action::LogRequestError { message: text("m"), metadata: text("d"), resolved: 1, pending: 0 },
        ]
    );
}

#[test]
fn counters_without_labels() {
    let none = Labels { query_name: None, query_root: None, return_type: None };
    assert_eq!(Labels::none(), none);
    assert_eq!(record_request_start(), Action::Count { counter: Counter::Requests, labels: none.clone() });
    assert_eq!(
        record_subscription_event(),
        Action::Count { counter: Counter::Subscriptions, labels: none }
    );
}

#[test]
fn sorting_is_stable() {
    let sorted = sort_resolves(vec![
        stat("d", 4),
        stat("b1", 2),
        stat("a", -1),
        stat("b2", 2),
        stat("c", 3),
        stat("b3", 2),
    ]);
    let names: Vec<&str> = sorted.iter().map(|s| s.field_name.as_str()).collect();
    assert_eq!(names, vec!["a", "b1", "b2", "b3", "c", "d"]);
    assert!(sort_resolves(Vec::new()).is_empty());
    assert_eq!(sort_resolves(vec![stat("x", 1)]), vec![stat("x", 1)]);
}

#[test]
fn field_report_of_a_success() {
    let labels = Labels {
        query_name: Some(text("getJane.details")),
        query_root: Some(text("Query")),
        return_type: Some(text("SubQuery!")),
    };
    assert_eq!(
        field_report(text("getJane.details"), text("Query"), text("SubQuery!"), None, 12),
        vec![Action::ObserveFieldDuration { millis: 12, labels }]
    );
}

#[test]
fn field_report_of_a_failure() {
    let labels = Labels {
        query_name: Some(text("getJane")),
        query_root: Some(text("QueryRoot")),
        return_type: Some(text("Query!")),
    };
    assert_eq!(
        field_report(
            text("getJane"),
            text("QueryRoot"),
            text("Query!"),
            Some((text("not found"), text("{code: 404}"))),
            (1u128 << 64) + 5,
        ),
        vec![
            Action::Count { counter: Counter::RequestErrors, labels: labels.clone() },
            Action::LogFieldError { message: text("not found"), metadata: text("{code: 404}") },
            Action::ObserveFieldDuration { millis: 5, labels },
        ]
    );
}

#[test]
fn names_of_instruments_and_labels() {
    assert_eq!(TARGET, "async_graphql::graphql");
    assert_eq!(METER, "graphql");
    assert_eq!(REQUESTS, "graphql_requests");
    assert_eq!(REQUEST_ERRORS, "graphql_requests_errors");
    assert_eq!(SUBSCRIPTIONS, "graphql_subscriptions");
    assert_eq!(REQUEST_DURATION, "graphql_request_duration");
    assert_eq!(DURATION_UNIT, "milliseconds");
    assert_eq!(QUERY_NAME_KEY, "query_name");
    assert_eq!(QUERY_ROOT_KEY, "query_type");
    assert_eq!(RETURN_TYPE_KEY, "return_type");
}

#[test]
fn every_counter_has_its_instrument() {
    assert_eq!(instrument_of(Counter::Requests), "graphql_requests");
    assert_eq!(instrument_of(Counter::RequestsCompleted), "graphql_requests");
    assert_eq!(instrument_of(Counter::Subscriptions), "graphql_subscriptions");
    assert_eq!(instrument_of(Counter::RequestErrors), "graphql_requests_errors");
}

#[test]
fn the_book_keeps_a_handle_from_opening_to_closing() {
    let root = SpanId::Phase(Phase::Root);
    let parse = SpanId::Phase(Phase::Parse);
    let mut book = SpanBook::new(None);
    assert_eq!(book.len(), 0);
    assert!(book.handle(root).is_none());
    assert!(book.parent(SpanParent::Detached).is_none());
    assert!(book.parent(SpanParent::Caller).is_none());
    assert!(book.parent(SpanParent::Span(root)).is_none());
    assert!(book.keep(root, tracing::Span::none()).is_none());
    assert!(book.keep(parse, tracing::Span::none()).is_none());
    assert!(book.keep(SpanId::Field(3), tracing::Span::none()).is_none());
    assert_eq!(book.len(), 3);
    assert!(book.handle(root).is_some());
    assert!(book.parent(SpanParent::Span(parse)).is_some());
    assert!(book.parent(SpanParent::Span(SpanId::Field(3))).is_some());
    assert!(book.parent(SpanParent::Span(SpanId::Field(4))).is_none());
    assert!(book.parent(SpanParent::Detached).is_none());
    assert!(book.release(parse).is_some());
    assert!(book.release(parse).is_none());
    assert!(book.handle(parse).is_none());
    assert!(book.handle(root).is_some());
    assert_eq!(book.len(), 2);
}

#[test]
fn the_book_keeps_one_handle_for_a_span() {
    let mut book = SpanBook::new(None);
    assert!(book.keep(SpanId::Field(1), tracing::Span::none()).is_none());
    assert!(book.keep(SpanId::Field(1), tracing::Span::none()).is_some());
    assert_eq!(book.len(), 1);
    assert!(book.release(SpanId::Field(1)).is_some());
    assert_eq!(book.len(), 0);
}

#[test]
fn the_book_knows_the_span_of_the_caller() {
    let mut book = SpanBook::new(Some(tracing::Span::none()));
    assert!(book.parent(SpanParent::Caller).is_some());
    book.set_caller(None);
    assert!(book.parent(SpanParent::Caller).is_none());
    book.set_caller(Some(tracing::Span::none()));
    assert!(book.parent(SpanParent::Caller).is_some());
    assert!(book.parent(SpanParent::Detached).is_none());
    assert_eq!(book.len(), 0);
}
