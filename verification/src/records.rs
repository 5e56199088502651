//! The records kept of field resolutions, and the summary made of them.

use crate::action::{FieldAttributes, SpanId};
use crate::clock::Timestamp;
use crate::model::{dotted, FieldView, StatView, SummaryView};
use vstd::prelude::*;

verus! {

/// `join` of std on a slice of strings: the strings in their order with
/// the separator, here a dot, between neighbours.
#[verifier::external_body]
pub(crate) fn join_path(path: &Vec<String>) -> (name: String)
    ensures
        name@ == dotted(path.deep_view()),
{
    path.join(".")
}

/// What is known of a field resolution while it is under way.
#[derive(Clone, Debug, PartialEq, Eq)]
pub struct PendingResolve {
    pub path: Vec<String>,
    pub field_name: String,
    pub parent_type: String,
    pub return_type: String,
    pub start_time: Timestamp,
}

/// A field resolution in flight, under the identifier that the engine
/// gave it.
#[derive(Clone, Debug, PartialEq, Eq)]
pub struct TelemetryData {
    pub resolve_id: usize,
    pub metrics: PendingResolve,
}

impl View for TelemetryData {
    type V = FieldView;

    open spec fn view(&self) -> FieldView {
        FieldView {
            resolve_id: self.resolve_id,
            path: self.metrics.path.deep_view(),
            field_name: self.metrics.field_name@,
            parent_type: self.metrics.parent_type@,
            return_type: self.metrics.return_type@,
            start_time: self.metrics.start_time@,
        }
    }
}

impl DeepView for TelemetryData {
    type V = FieldView;

    open spec fn deep_view(&self) -> FieldView {
        self@
    }
}

impl TelemetryData {
    /// The record of a field resolution that began at `start_time`.
    pub fn new(
        resolve_id: usize,
        path: Vec<String>,
        field_name: String,
        parent_type: String,
        return_type: String,
        start_time: Timestamp,
    ) -> (data: Self)
        ensures
            data@ == (FieldView {
                resolve_id,
                path: path.deep_view(),
                field_name: field_name@,
                parent_type: parent_type@,
                return_type: return_type@,
                start_time: start_time@,
            }),
    {
        TelemetryData {
            resolve_id,
            metrics: PendingResolve { path, field_name, parent_type, return_type, start_time },
        }
    }

    /// What the span of this resolution carries.
    pub fn attributes(&self) -> (attributes: FieldAttributes)
        ensures
            attributes@ == self@.attributes(),
    {
        FieldAttributes {
            path: join_path(&self.metrics.path),
            parent_type: self.metrics.parent_type.clone(),
            return_type: self.metrics.return_type.clone(),
        }
    }

    /// The span of this resolution.
    pub fn span(&self) -> (span: SpanId)
        ensures
            span == SpanId::Field(self@.resolve_id),
    {
        SpanId::Field(self.resolve_id)
    }
}

/// The timing of a field resolution that has completed, in nanoseconds:
/// `start_offset` counts from the start of the request.
#[derive(Clone, Debug, PartialEq, Eq)]
pub struct ResolveStat {
    pub path: Vec<String>,
    pub field_name: String,
    pub parent_type: String,
    pub return_type: String,
    pub start_offset: i64,
    pub duration: i64,
}

impl View for ResolveStat {
    type V = StatView;

    open spec fn view(&self) -> StatView {
        StatView {
            path: self.path.deep_view(),
            field_name: self.field_name@,
            parent_type: self.parent_type@,
            return_type: self.return_type@,
            start_offset: self.start_offset as int,
            duration: self.duration as int,
        }
    }
}

impl DeepView for ResolveStat {
    type V = StatView;

    open spec fn deep_view(&self) -> StatView {
        self@
    }
}

/// The execution summary that goes back with the response.
#[derive(Clone, Debug, PartialEq, Eq)]
pub struct TraceSummary {
    pub version: u32,
    /// RFC 3339.
    pub start_time: String,
    /// RFC 3339.
    pub end_time: String,
    /// Nanoseconds.
    pub duration: i64,
    pub resolvers: Vec<ResolveStat>,
}

impl View for TraceSummary {
    type V = SummaryView;

    open spec fn view(&self) -> SummaryView {
        SummaryView {
            version: self.version as int,
            start_time: self.start_time@,
            end_time: self.end_time@,
            duration: self.duration as int,
            resolvers: self.resolvers.deep_view(),
        }
    }
}

impl DeepView for TraceSummary {
    type V = SummaryView;

    open spec fn deep_view(&self) -> SummaryView {
        self@
    }
}

} // verus!
