//! The span tracker: which phase spans are open and which field
//! resolutions are in flight.

use crate::action::{no_actions, push_action, Action, Phase, SpanId, SpanParent};
use crate::model::TrackerView;
use crate::records::TelemetryData;
use vstd::prelude::*;

verus! {

/// The open spans of one request. The resolutions in flight are kept in
/// the order in which they began, each identifier at most once.
pub struct SpanTracker {
    root: bool,
    parse: bool,
    validation: bool,
    execute: bool,
    fields: Vec<TelemetryData>,
}

impl View for SpanTracker {
    type V = TrackerView;

    closed spec fn view(&self) -> TrackerView {
        TrackerView {
            root: self.root,
            parse: self.parse,
            validation: self.validation,
            execute: self.execute,
            fields: self.fields.deep_view(),
        }
    }
}

impl SpanTracker {
    /// A tracker with nothing open.
    pub fn new() -> (tracker: Self)
        ensures
            tracker@ == TrackerView::idle(),
    {
        SpanTracker {
            root: false,
            parse: false,
            validation: false,
            execute: false,
            fields: Vec::new(),
        }
    }

    /// Whether the span of a phase is open.
    pub fn is_open(&self, phase: Phase) -> (open: bool)
        ensures
            open == self@.phase_open(phase),
    {
        match phase {
            Phase::Root => self.root,
            Phase::Parse => self.parse,
            Phase::Validation => self.validation,
            Phase::Execute => self.execute,
        }
    }

    /// The number of field resolutions in flight.
    pub fn pending(&self) -> (count: usize)
        ensures
            count == self@.fields.len(),
    {
        self.fields.len()
    }

    /// Whether nothing is open and nothing is in flight.
    pub fn is_idle(&self) -> (idle: bool)
        ensures
            idle == (self@ == TrackerView::idle()),
    {
        let idle = !self.root && !self.parse && !self.validation && !self.execute
            && self.fields.len() == 0;
        assert(self@.fields.len() == self.fields.len());
        assert(idle ==> self@ =~= TrackerView::idle());
        idle
    }

    fn find(&self, resolve_id: usize) -> (found: Option<usize>)
        ensures
            found matches Some(i) ==> i < self@.fields.len() && self@.fields[i as int].resolve_id
                == resolve_id,
            found is None ==> !self@.tracks(resolve_id),
    {
        let mut i: usize = 0;
        while i < self.fields.len()
            invariant
                i <= self.fields.len(),
                forall|k: int| 0 <= k < i ==> (#[trigger] self@.fields[k]).resolve_id != resolve_id,
            decreases self.fields.len() - i,
        {
            if self.fields[i].resolve_id == resolve_id {
                return Some(i);
            }
            i += 1;
        }
        None
    }

    /// Whether a resolution with this identifier is in flight.
    pub fn tracks(&self, resolve_id: usize) -> (found: bool)
        ensures
            found == self@.tracks(resolve_id),
    {
        self.find(resolve_id).is_some()
    }

    fn set_phase(&mut self, phase: Phase, open: bool)
        ensures
            final(self)@ == old(self)@.with_phase(phase, open),
    {
        match phase {
            Phase::Root => {
                self.root = open;
            },
            Phase::Parse => {
                self.parse = open;
            },
            Phase::Validation => {
                self.validation = open;
            },
            Phase::Execute => {
                self.execute = open;
            },
        }
    }

    fn open_under(&mut self, phase: Phase, parent: SpanParent) -> (actions: Vec<Action>)
        ensures
            final(self)@ == old(self)@.open_under(phase, parent).0,
            actions.deep_view() == old(self)@.open_under(phase, parent).1,
    {
        let span = SpanId::Phase(phase);
        let mut actions = no_actions();
        if self.is_open(phase) {
            push_action(&mut actions, Action::CloseSpan { span });
        }
        push_action(&mut actions, Action::OpenSpan { span, parent, attributes: None });
        self.set_phase(phase, true);
        actions
    }

    /// Opens the root span: under the caller's span when `caller` says
    /// that one was supplied, else as the root of a new trace. A root span
    /// that is still open is closed first.
    pub fn open_root(&mut self, caller: bool) -> (actions: Vec<Action>)
        ensures
            final(self)@ == old(self)@.open_root(caller).0,
            actions.deep_view() == old(self)@.open_root(caller).1,
    {
        let parent = if caller {
            SpanParent::Caller
        } else {
            SpanParent::Detached
        };
        self.open_under(Phase::Root, parent)
    }

    /// Opens the span of a phase under the root span, or detached when no
    /// root span is open. A span of the phase that is still open is closed
    /// first.
    pub fn open_phase(&mut self, phase: Phase) -> (actions: Vec<Action>)
        ensures
            final(self)@ == old(self)@.open_phase(phase).0,
            actions.deep_view() == old(self)@.open_phase(phase).1,
    {
        match phase {
            Phase::Root => self.open_root(false),
            _ => {
                let parent = if self.root {
                    SpanParent::Span(SpanId::Phase(Phase::Root))
                } else {
                    SpanParent::Detached
                };
                self.open_under(phase, parent)
            },
        }
    }

    /// Closes the span of a phase. Nothing happens when it is not open.
    pub fn close_phase(&mut self, phase: Phase) -> (actions: Vec<Action>)
        ensures
            final(self)@ == old(self)@.close_phase(phase).0,
            actions.deep_view() == old(self)@.close_phase(phase).1,
    {
        let mut actions = no_actions();
        if self.is_open(phase) {
            push_action(&mut actions, Action::CloseSpan { span: SpanId::Phase(phase) });
            self.set_phase(phase, false);
        }
        actions
    }

    /// The span under which a field resolution would begin, if any.
    pub fn field_parent(&self, resolve_id: usize, parent_id: Option<usize>) -> (parent: Option<
        SpanId,
    >)
        ensures
            parent == self@.field_parent(resolve_id, parent_id),
    {
        match parent_id {
            Some(p) => {
                if p != 0 && p != resolve_id && self.tracks(p) {
                    return Some(SpanId::Field(p));
                }
            },
            None => {},
        }
        if self.execute {
            Some(SpanId::Phase(Phase::Execute))
        } else {
            None
        }
    }

    /// Begins a field resolution under the span that `field_parent`
    /// names, and does nothing when it names none. A resolution in flight
    /// under the same identifier is discarded and its span closed first.
    pub fn begin_field(&mut self, field: TelemetryData, parent_id: Option<usize>) -> (actions: Vec<
        Action,
    >)
        requires
            old(self)@.wf(),
        ensures
            final(self)@.wf(),
            final(self)@ == old(self)@.begin_field(field@, parent_id).0,
            actions.deep_view() == old(self)@.begin_field(field@, parent_id).1,
    {
        let span = field.span();
        let attributes = field.attributes();
        let mut actions = no_actions();
        match self.field_parent(field.resolve_id, parent_id) {
            None => {},
            Some(parent) => {
                match self.find(field.resolve_id) {
                    Some(i) => {
                        proof {
                            self@.lemma_position(i as int);
                        }
                        self.fields.remove(i);
                        push_action(&mut actions, Action::CloseSpan { span });
                        assert(self.fields.deep_view() =~= old(self)@.fields.remove(i as int));
                    },
                    None => {},
                }
                let ghost before = self.fields.deep_view();
                self.fields.push(field);
                push_action(
                    &mut actions,
                    Action::OpenSpan {
                        span,
                        parent: SpanParent::Span(parent),
                        attributes: Some(attributes),
                    },
                );
                assert(self.fields.deep_view() =~= before.push(field@));
                proof {
                    old(self)@.lemma_without(field@.resolve_id);
                }
            },
        }
        actions
    }

    /// Ends a field resolution: takes its record out and closes its span.
    /// An identifier that is not in flight changes nothing.
    pub fn end_field(&mut self, resolve_id: usize) -> (ended: (Option<TelemetryData>, Vec<Action>))
        requires
            old(self)@.wf(),
        ensures
            final(self)@.wf(),
            final(self)@ == old(self)@.end_field(resolve_id).0,
            ended.0.deep_view() == old(self)@.end_field(resolve_id).1,
            ended.1.deep_view() == old(self)@.end_field(resolve_id).2,
    {
        let mut actions = no_actions();
        let field = match self.find(resolve_id) {
            Some(i) => {
                proof {
                    self@.lemma_position(i as int);
                    self@.lemma_without(resolve_id);
                }
                let field = self.fields.remove(i);
                push_action(&mut actions, Action::CloseSpan { span: SpanId::Field(resolve_id) });
                assert(self.fields.deep_view() =~= old(self)@.fields.remove(i as int));
                Some(field)
            },
            None => None,
        };
        (field, actions)
    }

    /// Closes every span that is open: the field spans in the order in
    /// which the resolutions began, then execute, validation, parse and
    /// root. Nothing is in flight afterwards.
    pub fn unwind_all(&mut self) -> (actions: Vec<Action>)
        ensures
            final(self)@ == old(self)@.unwind_all().0,
            actions.deep_view() == old(self)@.unwind_all().1,
    {
        let mut actions = no_actions();
        let mut i: usize = 0;
        while i < self.fields.len()
            invariant
                i <= self.fields.len(),
                *self == *old(self),
                actions.deep_view() == self@.field_closes().take(i as int),
            decreases self.fields.len() - i,
        {
            push_action(&mut actions, Action::CloseSpan { span: self.fields[i].span() });
            i += 1;
        }
        if self.execute {
            push_action(&mut actions, Action::CloseSpan { span: SpanId::Phase(Phase::Execute) });
        }
        if self.validation {
            push_action(&mut actions, Action::CloseSpan { span: SpanId::Phase(Phase::Validation) });
        }
        if self.parse {
            push_action(&mut actions, Action::CloseSpan { span: SpanId::Phase(Phase::Parse) });
        }
        if self.root {
            push_action(&mut actions, Action::CloseSpan { span: SpanId::Phase(Phase::Root) });
        }
        self.root = false;
        self.parse = false;
        self.validation = false;
        self.execute = false;
        self.fields = Vec::new();
        actions
    }
}

} // verus!
