//! Request-scoped configuration supplied by the caller.

use vstd::prelude::*;

verus! {

/// `tracing::Span`, carried through as an opaque handle.
#[verifier::external_type_specification]
#[verifier::external_body]
pub struct ExSpan(tracing::Span);

/// Telemetry configuration for one request.
pub struct OpenTelemetryConfig {
    /// Use a span as the parent node of the entire query.
    pub parent: Option<tracing::Span>,
    /// Whether the trace summary is handed back with the response.
    pub return_tracing_data_to_client: bool,
}

impl Default for OpenTelemetryConfig {
    fn default() -> (config: Self)
        ensures
            config.parent is None,
            config.return_tracing_data_to_client,
    {
        OpenTelemetryConfig { parent: None, return_tracing_data_to_client: true }
    }
}

impl OpenTelemetryConfig {
    /// Use the provided span as the parent node of the entire query.
    pub fn parent_span(self, span: tracing::Span) -> (config: Self)
        ensures
            config.parent == Some(span),
            config.return_tracing_data_to_client == self.return_tracing_data_to_client,
    {
        OpenTelemetryConfig {
            parent: Some(span),
            return_tracing_data_to_client: self.return_tracing_data_to_client,
        }
    }

    /// Choose whether the trace summary is returned to the client.
    ///
    /// The default is `true`.
    pub fn enable_apollo_tracing(self, enable: bool) -> (config: Self)
        ensures
            config.parent == self.parent,
            config.return_tracing_data_to_client == enable,
    {
        OpenTelemetryConfig { parent: self.parent, return_tracing_data_to_client: enable }
    }
}

} // verus!
