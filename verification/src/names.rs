//! The names under which the telemetry reaches its backends.

use crate::action::Counter;
use vstd::prelude::*;

verus! {

/// The target of every span and of every log line.
pub const TARGET: &'static str = "async_graphql::graphql";

/// The name of the meter that holds the instruments.
pub const METER: &'static str = "graphql";

/// The counter of requests.
pub const REQUESTS: &'static str = "graphql_requests";

/// The counter of errors.
pub const REQUEST_ERRORS: &'static str = "graphql_requests_errors";

/// The counter of subscriptions.
pub const SUBSCRIPTIONS: &'static str = "graphql_subscriptions";

/// The recorder of request durations.
pub const REQUEST_DURATION: &'static str = "graphql_request_duration";

/// The unit of the recorded durations.
pub const DURATION_UNIT: &'static str = "milliseconds";

/// The key of the label that holds the name of the query.
pub const QUERY_NAME_KEY: &'static str = "query_name";

/// The key of the label that holds the root of the query.
pub const QUERY_ROOT_KEY: &'static str = "query_type";

/// The key of the label that holds the return type of a field.
pub const RETURN_TYPE_KEY: &'static str = "return_type";

/// The name of the instrument in which a counter is kept. Requests are
/// counted in one instrument when they are received and when they
/// complete: without labels the first time, with the identity of the
/// query the second.
pub fn instrument_of(counter: Counter) -> (name: &'static str)
    ensures
        name == match counter {
            Counter::Requests => REQUESTS,
            Counter::RequestsCompleted => REQUESTS,
            Counter::Subscriptions => SUBSCRIPTIONS,
            Counter::RequestErrors => REQUEST_ERRORS,
        },
{
    match counter {
        Counter::Requests => REQUESTS,
        Counter::RequestsCompleted => REQUESTS,
        Counter::Subscriptions => SUBSCRIPTIONS,
        Counter::RequestErrors => REQUEST_ERRORS,
    }
}

} // verus!
