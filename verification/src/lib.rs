//! Per-request telemetry for a GraphQL engine.
//!
//! The crate is the bookkeeping half of a tracing and metrics extension: it
//! follows one request through its phases and field resolutions and says,
//! for every lifecycle event, which spans have to be opened or closed and
//! which metrics have to be emitted. The host performs those actions; the
//! rules that decide them are stated as contracts and proved.
//!
//! - [`extension`] holds the lifecycle coordinator, [`OpenTelemetry`]: one
//!   value per request, one method per event.
//! - [`tracker`] and [`metrics`] hold its two parts, the span tracker and
//!   the metrics aggregator; [`sorting`] puts the completed resolutions in
//!   order.
//! - [`action`] is what the host is asked to do and [`book`] where it
//!   keeps the handles of the spans it has opened; [`records`] is what is
//!   kept of a field resolution, [`clock`] how time is measured, [`config`]
//!   what the caller can configure and [`names`] what the instruments are
//!   called.
//! - [`model`] is the mathematical model that the contracts speak of,
//!   [`trace`] reads lists of actions, and [`laws`] states what holds of
//!   every request.

pub mod action;
pub mod book;
pub mod clock;
pub mod config;
pub mod extension;
pub mod laws;
pub mod metrics;
pub mod model;
pub mod names;
pub mod records;
pub mod sorting;
pub mod trace;
pub mod tracker;

pub use action::{
    Action, Counter, Fault, FieldAttributes, Labels, Level, Phase, SpanId, SpanParent,
};
pub use book::SpanBook;
pub use clock::Timestamp;
pub use config::OpenTelemetryConfig;
pub use extension::{OpenTelemetry, OpenTelemetryExtension};
pub use metrics::Metrics;
pub use model::Status;
pub use records::{PendingResolve, ResolveStat, TelemetryData, TraceSummary};
pub use tracker::SpanTracker;
