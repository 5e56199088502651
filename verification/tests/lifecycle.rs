use async_graphql_telemetry_extension::{
    Action, Counter, Fault, FieldAttributes, Labels, Level, OpenTelemetry, OpenTelemetryConfig,
    OpenTelemetryExtension, Phase, SpanId, SpanParent, Status, Timestamp,
};

fn at(nanos: i64) -> Timestamp {
    Timestamp { nanos }
}

fn text(s: &str) -> String {
    s.to_string()
}

fn path(segments: &[&str]) -> Vec<String> {
    segments.iter().map(|s| s.to_string()).collect()
}

fn open(span: SpanId, parent: SpanParent) -> Action {
    Action::OpenSpan { span, parent, attributes: None }
}

fn open_field(id: usize, parent: SpanId, path: &str, parent_type: &str, return_type: &str) -> Action {
    Action::OpenSpan {
        span: SpanId::Field(id),
        parent: SpanParent::Span(parent),
        attributes: Some(FieldAttributes {
            path: text(path),
            parent_type: text(parent_type),
            return_type: text(return_type),
        }),
    }
}

fn close(span: SpanId) -> Action {
    Action::CloseSpan { span }
}

fn no_labels() -> Labels {
    Labels { query_name: None, query_root: None, return_type: None }
}

fn labels(name: &str, root: &str) -> Labels {
    Labels { query_name: Some(text(name)), query_root: Some(text(root)), return_type: None }
}

const ROOT: SpanId = SpanId::Phase(Phase::Root);
const PARSE: SpanId = SpanId::Phase(Phase::Parse);
const VALIDATION: SpanId = SpanId::Phase(Phase::Validation);
const EXECUTE: SpanId = SpanId::Phase(Phase::Execute);

fn begin(telemetry: &mut OpenTelemetry, id: usize, parent: Option<usize>, segments: &[&str], parent_type: &str, return_type: &str, now: i64) -> Vec<Action> {
    telemetry.resolve_start_at(
        id,
        parent,
        path(segments),
        text(segments[segments.len() - 1]),
        text(parent_type),
        text(return_type),
        at(now),
    )
}

/// A query for one object, one of its scalars and a scalar of a nested object.
fn run_get_jane(config: &OpenTelemetryConfig) -> (OpenTelemetry, Vec<Action>) {
    let mut telemetry = OpenTelemetryExtension.create();
    let mut actions = Vec::new();
    actions.extend(telemetry.prepare_request(config));
    actions.extend(telemetry.parse_start_at(at(1_000)));
    actions.extend(telemetry.parse_end());
    actions.extend(telemetry.validation_start());
    actions.extend(telemetry.validation_end());
    actions.extend(telemetry.execution_start());
    actions.extend(begin(&mut telemetry, 1, None, &["getJane"], "QueryRoot", "Query!", 1_010));
    actions.extend(begin(&mut telemetry, 2, Some(1), &["getJane", "id"], "Query", "Int!", 1_020));
    actions.extend(telemetry.resolve_end_at(2, at(1_025)));
    actions.extend(begin(&mut telemetry, 3, Some(1), &["getJane", "details"], "Query", "SubQuery!", 1_030));
    actions.extend(begin(&mut telemetry, 4, Some(3), &["getJane", "details", "name"], "SubQuery", "String!", 1_040));
    actions.extend(telemetry.resolve_end_at(4, at(1_050)));
    actions.extend(telemetry.resolve_end_at(3, at(1_060)));
    actions.extend(telemetry.resolve_end_at(1, at(1_070)));
    actions.extend(telemetry.execution_end_at(at(1_100)));
    (telemetry, actions)
}

#[test]
fn basic_test() {
    let (mut telemetry, actions) = run_get_jane(&OpenTelemetryConfig::default());
    assert_eq!(
        actions,
        vec![
            Action::Count { counter: Counter::Requests, labels: no_labels() },
            open(ROOT, SpanParent::Detached),
            open(PARSE, SpanParent::Span(ROOT)),
            close(PARSE),
            open(VALIDATION, SpanParent::Span(ROOT)),
            close(VALIDATION),
            open(EXECUTE, SpanParent::Span(ROOT)),
            open_field(1, EXECUTE, "getJane", "QueryRoot", "Query!"),
            open_field(2, SpanId::Field(1), "getJane.id", "Query", "Int!"),
            close(SpanId::Field(2)),
            open_field(3, SpanId::Field(1), "getJane.details", "Query", "SubQuery!"),
            open_field(4, SpanId::Field(3), "getJane.details.name", "SubQuery", "String!"),
            close(SpanId::Field(4)),
            close(SpanId::Field(3)),
            close(SpanId::Field(1)),
            close(EXECUTE),
        ]
    );
    assert_eq!(telemetry.pending(), 0);
    assert_eq!(telemetry.resolved(), 4);
    assert!(telemetry.is_open(Phase::Root));
    let (summary, actions) = telemetry.result();
    assert_eq!(
        actions,
        vec![
            Action::Count { counter: Counter::RequestsCompleted, labels: labels("getJane", "QueryRoot") },
            Action::ObserveRequestDuration { nanos: 100, labels: labels("getJane", "QueryRoot") },
            close(ROOT),
        ]
    );
    let summary = summary.unwrap();
    assert_eq!(summary.version, 1);
    assert_eq!(summary.duration, 100);
    assert_eq!(summary.start_time, "1970-01-01T00:00:00.000001+00:00");
    assert_eq!(summary.end_time, "1970-01-01T00:00:00.000001100+00:00");
    let offsets: Vec<i64> = summary.resolvers.iter().map(|r| r.start_offset).collect();
    assert_eq!(offsets, vec![10, 20, 30, 40]);
    let durations: Vec<i64> = summary.resolvers.iter().map(|r| r.duration).collect();
    assert_eq!(durations, vec![60, 5, 30, 10]);
    assert_eq!(telemetry.status(), Status::Completed);
    assert!(!telemetry.is_open(Phase::Root));
}

#[test]
fn one_field_with_a_child_gives_two_resolver_entries() {
    let mut telemetry = OpenTelemetry::new();
    telemetry.prepare_request(&OpenTelemetryConfig::default());
    telemetry.parse_start_at(at(500));
    telemetry.parse_end();
    telemetry.execution_start();
    begin(&mut telemetry, 1, None, &["getJane"], "QueryRoot", "Query!", 500);
    begin(&mut telemetry, 2, Some(1), &["getJane", "details", "name"], "SubQuery", "String!", 620);
    telemetry.resolve_end_at(2, at(700));
    telemetry.resolve_end_at(1, at(900));
    telemetry.execution_end_at(at(1_234));
    let (summary, _) = telemetry.result();
    let summary = summary.unwrap();
    assert_eq!(summary.resolvers.len(), 2);
    let first = &summary.resolvers[0];
    let second = &summary.resolvers[1];
    assert_eq!(first.path, path(&["getJane"]));
    assert_eq!(first.field_name, "getJane");
    assert_eq!(first.parent_type, "QueryRoot");
    assert_eq!(first.return_type, "Query!");
    assert_eq!(first.start_offset, 0);
    assert_eq!(first.duration, 400);
    assert_eq!(second.path, path(&["getJane", "details", "name"]));
    assert_eq!(second.field_name, "name");
    assert_eq!(second.start_offset, 120);
    assert_eq!(second.duration, 80);
    assert!(second.start_offset >= first.start_offset);
    assert!(summary.resolvers.iter().all(|r| r.duration >= 0));
    assert_eq!(summary.duration, 1_234 - 500);
}

#[test]
fn summary_is_withheld_when_the_configuration_says_so() {
    let config = OpenTelemetryConfig::default().enable_apollo_tracing(false);
    let (mut telemetry, actions) = run_get_jane(&config);
    assert_eq!(actions.len(), 16);
    assert!(!telemetry.returns_tracing_data());
    assert_eq!(telemetry.resolved(), 4);
    let (summary, actions) = telemetry.result();
    assert!(summary.is_none());
    assert_eq!(
        actions,
        vec![
            Action::Count { counter: Counter::RequestsCompleted, labels: labels("getJane", "QueryRoot") },
            Action::ObserveRequestDuration { nanos: 100, labels: labels("getJane", "QueryRoot") },
            close(ROOT),
        ]
    );
}

#[test]
fn parse_failure_unwinds_parse_and_root() {
    let mut telemetry = OpenTelemetry::new();
    telemetry.prepare_request(&OpenTelemetryConfig::default());
    telemetry.parse_start_at(at(10));
    let actions = telemetry.error(text("unexpected token"), text("{}"));
    assert_eq!(
        actions,
        vec![
            Action::Count { counter: Counter::RequestsCompleted, labels: no_labels() },
            Action::Count { counter: Counter::RequestErrors, labels: no_labels() },
            Action::LogRequestError {
                message: text("unexpected token"),
                metadata: text("{}"),
                resolved: 0,
                pending: 0,
            },
            close(PARSE),
            close(ROOT),
        ]
    );
    assert_eq!(telemetry.resolved(), 0);
    assert_eq!(telemetry.pending(), 0);
    assert!(!telemetry.is_open(Phase::Parse));
    assert!(!telemetry.is_open(Phase::Validation));
    assert!(!telemetry.is_open(Phase::Execute));
    assert!(!telemetry.is_open(Phase::Root));
    assert_eq!(telemetry.status(), Status::Errored);
    let errors = actions
        .iter()
        .filter(|a| matches!(a, Action::Count { counter: Counter::RequestErrors, .. }))
        .count();
    assert_eq!(errors, 1);
    let (summary, actions) = telemetry.result();
    assert!(summary.is_none());
    assert!(actions.is_empty());
}

#[test]
fn error_with_fields_in_flight_closes_them_in_the_order_they_began() {
    let mut telemetry = OpenTelemetry::new();
    telemetry.prepare_request(&OpenTelemetryConfig::default());
    telemetry.parse_start_at(at(0));
    telemetry.parse_end();
    telemetry.validation_start();
    telemetry.execution_start();
    begin(&mut telemetry, 9, None, &["a"], "Q", "A", 1);
    begin(&mut telemetry, 4, Some(9), &["a", "b"], "A", "B", 2);
    begin(&mut telemetry, 7, Some(9), &["a", "c"], "A", "C", 3);
    telemetry.resolve_end_at(4, at(5));
    assert_eq!(telemetry.pending(), 2);
    let actions = telemetry.error(text("boom"), text("meta"));
    assert_eq!(
        actions,
        vec![
            Action::Count { counter: Counter::RequestsCompleted, labels: labels("a", "Q") },
            Action::Count { counter: Counter::RequestErrors, labels: labels("a", "Q") },
            Action::LogRequestError {
                message: text("boom"),
                metadata: text("meta"),
                resolved: 1,
                pending: 2,
            },
            close(SpanId::Field(9)),
            close(SpanId::Field(7)),
            close(EXECUTE),
            close(VALIDATION),
            close(ROOT),
        ]
    );
    assert_eq!(telemetry.pending(), 0);
    assert!(!telemetry.tracks(9));
}

#[test]
fn a_second_error_is_counted_and_logged_and_closes_nothing() {
    let mut telemetry = OpenTelemetry::new();
    telemetry.prepare_request(&OpenTelemetryConfig::default());
    telemetry.execution_start();
    begin(&mut telemetry, 1, None, &["x"], "Q", "X", 1);
    telemetry.error(text("first"), text(""));
    let actions = telemetry.error(text("second"), text("m"));
    assert_eq!(
        actions,
        vec![
            Action::Count { counter: Counter::RequestErrors, labels: labels("x", "Q") },
            Action::LogRequestError {
                message: text("second"),
                metadata: text("m"),
                resolved: 0,
                pending: 0,
            },
        ]
    );
    assert_eq!(telemetry.status(), Status::Errored);
}

#[test]
fn events_after_an_error_do_nothing() {
    let mut telemetry = OpenTelemetry::new();
    telemetry.prepare_request(&OpenTelemetryConfig::default());
    telemetry.parse_start_at(at(1));
    telemetry.error(text("e"), text(""));
    assert!(telemetry.prepare_request(&OpenTelemetryConfig::default()).is_empty());
    assert!(telemetry.parse_start_at(at(2)).is_empty());
    assert!(telemetry.parse_end().is_empty());
    assert!(telemetry.validation_start().is_empty());
    assert!(telemetry.validation_end().is_empty());
    assert!(telemetry.execution_start().is_empty());
    assert!(begin(&mut telemetry, 1, None, &["x"], "Q", "X", 3).is_empty());
    assert!(telemetry.resolve_end_at(1, at(4)).is_empty());
    assert!(telemetry.execution_end_at(at(5)).is_empty());
    let (summary, actions) = telemetry.result();
    assert!(summary.is_none());
    assert!(actions.is_empty());
    assert!(!telemetry.is_open(Phase::Parse));
    assert!(!telemetry.is_open(Phase::Execute));
    assert_eq!(telemetry.pending(), 0);
    assert_eq!(telemetry.query_name(), None);
}

#[test]
fn ending_a_field_twice_has_no_further_effect() {
    let mut telemetry = OpenTelemetry::new();
    telemetry.parse_start_at(at(0));
    telemetry.execution_start();
    begin(&mut telemetry, 5, None, &["f"], "Q", "F", 10);
    let first = telemetry.resolve_end_at(5, at(20));
    assert_eq!(first, vec![close(SpanId::Field(5))]);
    assert_eq!(telemetry.resolved(), 1);
    let second = telemetry.resolve_end_at(5, at(30));
    assert!(second.is_empty());
    assert_eq!(telemetry.resolved(), 1);
    assert_eq!(telemetry.pending(), 0);
    let unknown = telemetry.resolve_end_at(77, at(40));
    assert!(unknown.is_empty());
    assert_eq!(telemetry.resolved(), 1);
}

#[test]
fn the_first_field_names_the_query_and_later_fields_do_not() {
    let mut telemetry = OpenTelemetry::new();
    telemetry.execution_start();
    assert_eq!(telemetry.query_name(), None);
    assert_eq!(telemetry.query_root(), None);
    begin(&mut telemetry, 1, None, &["getJane"], "QueryRoot", "Query!", 1);
    assert_eq!(telemetry.query_name(), Some(text("getJane")));
    assert_eq!(telemetry.query_root(), Some(text("QueryRoot")));
    begin(&mut telemetry, 2, Some(1), &["getJane", "id"], "Query", "Int!", 2);
    begin(&mut telemetry, 3, Some(1), &["getJane", "details", "name"], "SubQuery", "String!", 3);
    assert_eq!(telemetry.query_name(), Some(text("getJane")));
    assert_eq!(telemetry.query_root(), Some(text("QueryRoot")));
}

#[test]
fn the_query_name_is_the_dotted_path() {
    let mut telemetry = OpenTelemetry::new();
    telemetry.execution_start();
    begin(&mut telemetry, 3, Some(8), &["getJane", "details", "name"], "SubQuery", "String!", 3);
    assert_eq!(telemetry.query_name(), Some(text("getJane.details.name")));
    assert_eq!(telemetry.query_root(), Some(text("SubQuery")));
}

#[test]
fn a_field_without_a_span_to_hang_under_is_not_recorded() {
    let mut telemetry = OpenTelemetry::new();
    telemetry.prepare_request(&OpenTelemetryConfig::default());
    let actions = begin(&mut telemetry, 1, None, &["x"], "Q", "X", 1);
    assert!(actions.is_empty());
    assert_eq!(telemetry.pending(), 0);
    assert!(!telemetry.tracks(1));
    assert_eq!(telemetry.query_name(), None);
    let actions = begin(&mut telemetry, 2, Some(1), &["x", "y"], "X", "Y", 2);
    assert!(actions.is_empty());
}

#[test]
fn the_parent_of_a_field_span() {
    let mut telemetry = OpenTelemetry::new();
    telemetry.execution_start();
    // no parent named: the execute span
    assert_eq!(
        begin(&mut telemetry, 1, None, &["a"], "Q", "A", 1),
        vec![open_field(1, EXECUTE, "a", "Q", "A")]
    );
    // zero names no parent
    assert_eq!(
        begin(&mut telemetry, 2, Some(0), &["b"], "Q", "B", 1),
        vec![open_field(2, EXECUTE, "b", "Q", "B")]
    );
    // a parent in flight
    assert_eq!(
        begin(&mut telemetry, 3, Some(2), &["b", "c"], "B", "C", 1),
        vec![open_field(3, SpanId::Field(2), "b.c", "B", "C")]
    );
    // a parent that is not in flight
    assert_eq!(
        begin(&mut telemetry, 4, Some(40), &["d"], "Q", "D", 1),
        vec![open_field(4, EXECUTE, "d", "Q", "D")]
    );
    // a field is not its own parent
    assert_eq!(
        begin(&mut telemetry, 5, Some(5), &["e"], "Q", "E", 1),
        vec![open_field(5, EXECUTE, "e", "Q", "E")]
    );
    assert_eq!(telemetry.pending(), 5);
}

#[test]
fn beginning_a_field_again_discards_the_one_in_flight() {
    let mut telemetry = OpenTelemetry::new();
    telemetry.parse_start_at(at(0));
    telemetry.execution_start();
    begin(&mut telemetry, 1, None, &["a"], "Q", "A", 1);
    begin(&mut telemetry, 2, None, &["b"], "Q", "B", 2);
    let actions = begin(&mut telemetry, 1, Some(2), &["b", "a"], "B", "A", 3);
    assert_eq!(
        actions,
        vec![close(SpanId::Field(1)), open_field(1, SpanId::Field(2), "b.a", "B", "A")]
    );
    assert_eq!(telemetry.pending(), 2);
    // the newer one is now the later of the two
    let actions = telemetry.error(text("e"), text(""));
    assert_eq!(actions[3], close(SpanId::Field(2)));
    assert_eq!(actions[4], close(SpanId::Field(1)));
}

#[test]
fn opening_a_phase_again_closes_the_open_one_first() {
    let mut telemetry = OpenTelemetry::new();
    telemetry.prepare_request(&OpenTelemetryConfig::default());
    telemetry.parse_start_at(at(1));
    assert_eq!(
        telemetry.parse_start_at(at(2)),
        vec![close(PARSE), open(PARSE, SpanParent::Span(ROOT))]
    );
    assert_eq!(
        telemetry.prepare_request(&OpenTelemetryConfig::default()),
        vec![
            Action::Count { counter: Counter::Requests, labels: no_labels() },
            close(ROOT),
            open(ROOT, SpanParent::Detached),
        ]
    );
}

#[test]
fn phases_without_a_root_span_are_detached() {
    let mut telemetry = OpenTelemetry::new();
    assert_eq!(telemetry.execution_start(), vec![open(EXECUTE, SpanParent::Detached)]);
    assert_eq!(telemetry.validation_start(), vec![open(VALIDATION, SpanParent::Detached)]);
    assert_eq!(telemetry.parse_start_at(at(1)), vec![open(PARSE, SpanParent::Detached)]);
}

#[test]
fn closing_a_phase_that_is_not_open_does_nothing() {
    let mut telemetry = OpenTelemetry::new();
    assert!(telemetry.parse_end().is_empty());
    assert!(telemetry.validation_end().is_empty());
    assert!(telemetry.execution_end_at(at(3)).is_empty());
    telemetry.validation_start();
    assert_eq!(telemetry.validation_end(), vec![close(VALIDATION)]);
    assert!(telemetry.validation_end().is_empty());
}

#[test]
fn the_root_span_hangs_under_the_span_of_the_caller() {
    let config = OpenTelemetryConfig::default().parent_span(tracing::Span::none());
    let mut telemetry = OpenTelemetry::new();
    let actions = telemetry.prepare_request(&config);
    assert_eq!(
        actions,
        vec![
            Action::Count { counter: Counter::Requests, labels: no_labels() },
            open(ROOT, SpanParent::Caller),
        ]
    );
}

#[test]
fn result_closes_what_the_engine_left_open() {
    let mut telemetry = OpenTelemetry::new();
    telemetry.prepare_request(&OpenTelemetryConfig::default());
    telemetry.parse_start_at(at(5));
    telemetry.execution_start();
    begin(&mut telemetry, 1, None, &["a"], "Q", "A", 6);
    telemetry.execution_end_at(at(9));
    let (summary, actions) = telemetry.result();
    assert_eq!(
        actions,
        vec![
            Action::Count { counter: Counter::RequestsCompleted, labels: labels("a", "Q") },
            Action::ObserveRequestDuration { nanos: 4, labels: labels("a", "Q") },
            close(SpanId::Field(1)),
            close(PARSE),
            close(ROOT),
        ]
    );
    assert!(summary.unwrap().resolvers.is_empty());
    assert_eq!(telemetry.pending(), 0);
}

#[test]
fn exactly_one_root_span_is_opened_and_closed() {
    let (mut telemetry, mut actions) = run_get_jane(&OpenTelemetryConfig::default());
    actions.extend(telemetry.result().1);
    let opened = actions.iter().filter(|a| matches!(a, Action::OpenSpan { span: ROOT, .. })).count();
    let closed = actions.iter().filter(|a| **a == close(ROOT)).count();
    assert_eq!(opened, 1);
    assert_eq!(closed, 1);
    for id in 1..=4 {
        let span = SpanId::Field(id);
        let opened = actions.iter().filter(|a| matches!(a, Action::OpenSpan { span: s, .. } if *s == span)).count();
        let closed = actions.iter().filter(|a| **a == close(span)).count();
        assert_eq!(opened, 1);
        assert_eq!(closed, 1);
    }
}

#[test]
fn result_without_a_start_time_is_a_fault() {
    let mut telemetry = OpenTelemetry::new();
    telemetry.prepare_request(&OpenTelemetryConfig::default());
    telemetry.execution_start();
    telemetry.execution_end_at(at(10));
    let (summary, actions) = telemetry.result();
    assert!(summary.is_none());
    assert_eq!(
        actions,
        vec![Action::ReportFault { fault: Fault::MissingStartTime }, close(ROOT)]
    );
    assert_eq!(telemetry.status(), Status::Completed);
}

#[test]
fn result_before_the_end_of_execution_is_a_fault() {
    let mut telemetry = OpenTelemetry::new();
    telemetry.prepare_request(&OpenTelemetryConfig::default());
    telemetry.parse_start_at(at(10));
    telemetry.parse_end();
    telemetry.execution_start();
    let (summary, actions) = telemetry.result();
    assert!(summary.is_none());
    assert_eq!(
        actions,
        vec![Action::ReportFault { fault: Fault::MissingEndTime }, close(EXECUTE), close(ROOT)]
    );
}

#[test]
fn an_end_before_the_start_is_a_fault() {
    let mut telemetry = OpenTelemetry::new();
    telemetry.parse_start_at(at(10));
    telemetry.execution_start();
    telemetry.execution_end_at(at(9));
    let (summary, actions) = telemetry.result();
    assert!(summary.is_none());
    assert_eq!(actions, vec![Action::ReportFault { fault: Fault::NegativeDuration }, close(PARSE)]);
}

#[test]
fn a_request_duration_that_does_not_fit_is_a_fault() {
    let mut telemetry = OpenTelemetry::new();
    telemetry.parse_start_at(at(i64::MIN));
    telemetry.parse_end();
    telemetry.execution_end_at(at(i64::MAX));
    let (summary, actions) = telemetry.result();
    assert!(summary.is_none());
    assert_eq!(actions, vec![Action::ReportFault { fault: Fault::DurationOverflow }]);
}

#[test]
fn the_longest_request_that_fits() {
    let mut telemetry = OpenTelemetry::new();
    telemetry.parse_start_at(at(-1));
    telemetry.parse_end();
    telemetry.execution_end_at(at(i64::MAX - 1));
    let (summary, _) = telemetry.result();
    assert_eq!(summary.unwrap().duration, i64::MAX);
}

#[test]
fn a_field_that_ends_without_a_request_start_is_a_fault() {
    let mut telemetry = OpenTelemetry::new();
    telemetry.execution_start();
    begin(&mut telemetry, 1, None, &["a"], "Q", "A", 5);
    let actions = telemetry.resolve_end_at(1, at(6));
    assert_eq!(
        actions,
        vec![close(SpanId::Field(1)), Action::ReportFault { fault: Fault::MissingStartTime }]
    );
    assert_eq!(telemetry.resolved(), 0);
    assert_eq!(telemetry.pending(), 0);
}

#[test]
fn a_start_offset_that_does_not_fit_is_a_fault() {
    let mut telemetry = OpenTelemetry::new();
    telemetry.parse_start_at(at(i64::MIN));
    telemetry.execution_start();
    begin(&mut telemetry, 1, None, &["a"], "Q", "A", 0);
    let actions = telemetry.resolve_end_at(1, at(1));
    assert_eq!(
        actions,
        vec![close(SpanId::Field(1)), Action::ReportFault { fault: Fault::OffsetOverflow }]
    );
    assert_eq!(telemetry.resolved(), 0);
}

#[test]
fn a_field_that_ends_before_it_starts_is_a_fault() {
    let mut telemetry = OpenTelemetry::new();
    telemetry.parse_start_at(at(0));
    telemetry.execution_start();
    begin(&mut telemetry, 1, None, &["a"], "Q", "A", 10);
    let actions = telemetry.resolve_end_at(1, at(9));
    assert_eq!(
        actions,
        vec![close(SpanId::Field(1)), Action::ReportFault { fault: Fault::NegativeDuration }]
    );
    assert_eq!(telemetry.resolved(), 0);
}

#[test]
fn a_field_duration_that_does_not_fit_is_a_fault() {
    let mut telemetry = OpenTelemetry::new();
    telemetry.parse_start_at(at(-5));
    telemetry.execution_start();
    begin(&mut telemetry, 1, None, &["a"], "Q", "A", -2);
    let actions = telemetry.resolve_end_at(1, at(i64::MAX));
    assert_eq!(
        actions,
        vec![close(SpanId::Field(1)), Action::ReportFault { fault: Fault::DurationOverflow }]
    );
}

#[test]
fn a_field_may_start_before_the_request() {
    let mut telemetry = OpenTelemetry::new();
    telemetry.execution_start();
    begin(&mut telemetry, 1, None, &["a"], "Q", "A", 10);
    telemetry.parse_start_at(at(25));
    telemetry.resolve_end_at(1, at(30));
    telemetry.execution_end_at(at(40));
    let (summary, _) = telemetry.result();
    let summary = summary.unwrap();
    assert_eq!(summary.resolvers[0].start_offset, -15);
    assert_eq!(summary.resolvers[0].duration, 20);
    assert_eq!(summary.duration, 15);
}

#[test]
fn resolvers_are_sorted_by_start_offset_and_ties_keep_their_order() {
    let mut telemetry = OpenTelemetry::new();
    telemetry.parse_start_at(at(100));
    telemetry.execution_start();
    begin(&mut telemetry, 1, None, &["late"], "Q", "A", 130);
    begin(&mut telemetry, 2, None, &["tie_b"], "Q", "A", 110);
    begin(&mut telemetry, 3, None, &["early"], "Q", "A", 105);
    begin(&mut telemetry, 4, None, &["tie_a"], "Q", "A", 110);
    begin(&mut telemetry, 5, None, &["tie_c"], "Q", "A", 110);
    // order of completion: 1, 4, 2, 5, 3
    telemetry.resolve_end_at(1, at(131));
    telemetry.resolve_end_at(4, at(132));
    telemetry.resolve_end_at(2, at(133));
    telemetry.resolve_end_at(5, at(134));
    telemetry.resolve_end_at(3, at(135));
    telemetry.execution_end_at(at(200));
    let (summary, _) = telemetry.result();
    let summary = summary.unwrap();
    let names: Vec<&str> = summary.resolvers.iter().map(|r| r.field_name.as_str()).collect();
    assert_eq!(names, vec!["early", "tie_a", "tie_b", "tie_c", "late"]);
    let offsets: Vec<i64> = summary.resolvers.iter().map(|r| r.start_offset).collect();
    assert_eq!(offsets, vec![5, 10, 10, 10, 30]);
    assert!(summary.resolvers.iter().all(|r| r.start_offset <= r.start_offset + r.duration));
}

#[test]
fn a_subscription_is_counted() {
    let telemetry = OpenTelemetry::new();
    assert_eq!(
        telemetry.subscribe(),
        vec![Action::Count { counter: Counter::Subscriptions, labels: no_labels() }]
    );
}

#[test]
fn each_item_of_a_subscription_gets_an_execute_span_of_its_own() {
    let mut telemetry = OpenTelemetry::new();
    telemetry.subscribe();
    for _ in 0..3 {
        assert_eq!(telemetry.execution_start(), vec![open(EXECUTE, SpanParent::Detached)]);
        assert_eq!(telemetry.execution_end_at(at(1)), vec![close(EXECUTE)]);
    }
}

#[test]
fn events_that_read_the_clock() {
    let mut telemetry = OpenTelemetry::new();
    telemetry.prepare_request(&OpenTelemetryConfig::default());
    assert_eq!(telemetry.parse_start(), vec![open(PARSE, SpanParent::Span(ROOT))]);
    telemetry.parse_end();
    telemetry.execution_start();
    let actions = telemetry.resolve_start(1, None, path(&["a"]), text("a"), text("Q"), text("A"));
    assert_eq!(actions, vec![open_field(1, EXECUTE, "a", "Q", "A")]);
    let actions = telemetry.resolve_end(1);
    assert_eq!(actions[0], close(SpanId::Field(1)));
    assert_eq!(telemetry.execution_end(), vec![close(EXECUTE)]);
    let (summary, actions) = telemetry.result();
    assert_eq!(actions.last(), Some(&close(ROOT)));
    if let Some(summary) = summary {
        assert!(summary.duration >= 0);
        assert!(summary.resolvers.iter().all(|r| r.duration >= 0));
        assert!(summary.start_time.ends_with("+00:00"));
        assert_ne!(summary.start_time, "1970-01-01T00:00:00+00:00");
    }
}

#[test]
fn field_spans_are_finer_than_phase_spans() {
    assert_eq!(ROOT.level(), Level::Info);
    assert_eq!(PARSE.level(), Level::Info);
    assert_eq!(VALIDATION.level(), Level::Info);
    assert_eq!(EXECUTE.level(), Level::Info);
    assert_eq!(SpanId::Field(0).level(), Level::Debug);
    assert_eq!(SpanId::Field(17).level(), Level::Debug);
}
