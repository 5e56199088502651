//! The handles of the spans that are open.
//!
//! The telemetry names spans; the tracing backend hands out handles. The
//! book keeps the handle of every span that has been opened and not yet
//! closed, so that a child finds its parent and a close finds its span. A
//! host that keeps the handle when it performs an `OpenSpan` and lets go of
//! it when it performs a `CloseSpan` holds, between two events, a handle
//! for exactly the spans that the telemetry has open.

use crate::action::{SpanId, SpanParent};
use tracing::Span;
use vstd::prelude::*;

verus! {

/// The handles that are kept, in the order in which they came.
#[verifier::ext_equal]
pub struct BookView {
    /// The span of the caller, if one was supplied.
    pub caller: Option<Span>,
    /// Every open span with its handle.
    pub open: Seq<(SpanId, Span)>,
}

impl BookView {
    /// No span has more than one handle.
    pub open spec fn wf(self) -> bool {
        forall|i: int, j: int|
            0 <= i < j < self.open.len() ==> (#[trigger] self.open[i]).0 != (
            #[trigger] self.open[j]).0
    }

    /// Whether the handle of the span is kept.
    pub open spec fn holds(self, span: SpanId) -> bool {
        exists|i: int| 0 <= i < self.open.len() && (#[trigger] self.open[i]).0 == span
    }

    /// Where the handle of the span is kept.
    pub open spec fn position(self, span: SpanId) -> int {
        choose|i: int| 0 <= i < self.open.len() && (#[trigger] self.open[i]).0 == span
    }

    /// The handle of the span, if it is kept.
    pub open spec fn handle(self, span: SpanId) -> Option<Span> {
        if self.holds(span) {
            Some(self.open[self.position(span)].1)
        } else {
            None
        }
    }

    /// The spans whose handles are kept.
    pub open spec fn spans(self) -> Set<SpanId> {
        Set::new(|span: SpanId| self.holds(span))
    }

    /// The handle under which a new span hangs.
    pub open spec fn parent(self, parent: SpanParent) -> Option<Span> {
        match parent {
            SpanParent::Detached => None,
            SpanParent::Caller => self.caller,
            SpanParent::Span(above) => self.handle(above),
        }
    }

    /// The handles but that of the span.
    pub open spec fn without(self, span: SpanId) -> Seq<(SpanId, Span)> {
        if self.holds(span) {
            self.open.remove(self.position(span))
        } else {
            self.open
        }
    }

    /// In a well-formed book a span has one place.
    pub proof fn lemma_position(self, i: int)
        requires
            self.wf(),
            0 <= i < self.open.len(),
        ensures
            self.holds(self.open[i].0),
            self.position(self.open[i].0) == i,
            self.handle(self.open[i].0) == Some(self.open[i].1),
    {
        let span = self.open[i].0;
        let p = self.position(span);
        assert(0 <= p < self.open.len() && self.open[p].0 == span);
        if p < i {
            assert(self.open[p].0 != self.open[i].0);
        } else if i < p {
            assert(self.open[i].0 != self.open[p].0);
        }
    }

    /// Which handles are kept once that of a span has been taken out.
    pub proof fn lemma_without(self, span: SpanId, other: SpanId)
        requires
            self.wf(),
        ensures
            (BookView { open: self.without(span), ..self }).wf(),
            (BookView { open: self.without(span), ..self }).holds(other) <==> (self.holds(other)
                && other != span),
            other != span ==> (BookView { open: self.without(span), ..self }).handle(other)
                == self.handle(other),
    {
        let rest = BookView { open: self.without(span), ..self };
        if self.holds(span) {
            let p = self.position(span);
            assert forall|i: int, j: int| 0 <= i < j < rest.open.len() implies (
            #[trigger] rest.open[i]).0 != (#[trigger] rest.open[j]).0 by {
                let a = if i < p {
                    i
                } else {
                    i + 1
                };
                let b = if j < p {
                    j
                } else {
                    j + 1
                };
                assert(rest.open[i] == self.open[a]);
                assert(rest.open[j] == self.open[b]);
                assert(self.open[a].0 != self.open[b].0);
            }
            if rest.holds(other) {
                let k = rest.position(other);
                let a = if k < p {
                    k
                } else {
                    k + 1
                };
                assert(rest.open[k] == self.open[a]);
                self.lemma_position(a);
                self.lemma_position(p);
                rest.lemma_position(k);
            }
            if self.holds(other) && other != span {
                let k = self.position(other);
                let a = if k < p {
                    k
                } else {
                    k - 1
                };
                assert(rest.open[a] == self.open[k]);
                self.lemma_position(k);
                rest.lemma_position(a);
            }
        }
    }

    /// Which handles are kept once one has been added for a span that had
    /// none.
    pub proof fn lemma_push(self, span: SpanId, handle: Span, other: SpanId)
        requires
            self.wf(),
            !self.holds(span),
        ensures
            (BookView { open: self.open.push((span, handle)), ..self }).wf(),
            (BookView { open: self.open.push((span, handle)), ..self }).handle(other) == if other
                == span {
                Some(handle)
            } else {
                self.handle(other)
            },
    {
        let more = BookView { open: self.open.push((span, handle)), ..self };
        let last = self.open.len() as int;
        assert forall|i: int, j: int| 0 <= i < j < more.open.len() implies (
        #[trigger] more.open[i]).0 != (#[trigger] more.open[j]).0 by {
            assert(more.open[i] == self.open[i]);
            if j < last {
                assert(more.open[j] == self.open[j]);
            }
        }
        assert(more.open[last] == (span, handle));
        if other == span {
            more.lemma_position(last);
        } else {
            if self.holds(other) {
                let k = self.position(other);
                assert(more.open[k] == self.open[k]);
                more.lemma_position(k);
                self.lemma_position(k);
            }
            if more.holds(other) {
                let k = more.position(other);
                assert(k != last);
                assert(more.open[k] == self.open[k]);
                more.lemma_position(k);
                self.lemma_position(k);
            }
        }
    }
}

/// The handles of the open spans of one request.
pub struct SpanBook {
    caller: Option<Span>,
    open: Vec<(SpanId, Span)>,
}

impl View for SpanBook {
    type V = BookView;

    closed spec fn view(&self) -> BookView {
        BookView { caller: self.caller, open: self.open@ }
    }
}

impl SpanBook {
    /// An empty book for a request under the span of the caller, if any.
    pub fn new(caller: Option<Span>) -> (book: Self)
        ensures
            book@.wf(),
            book@.caller == caller,
            book@.open == Seq::<(SpanId, Span)>::empty(),
    {
        SpanBook { caller, open: Vec::new() }
    }

    /// Takes the span of the caller, or none, in place of the one it had.
    pub fn set_caller(&mut self, caller: Option<Span>)
        ensures
            final(self)@ == (BookView { caller, ..old(self)@ }),
    {
        self.caller = caller;
    }

    /// The number of handles that are kept.
    pub fn len(&self) -> (count: usize)
        ensures
            count == self@.open.len(),
    {
        self.open.len()
    }

    fn find(&self, span: SpanId) -> (found: Option<usize>)
        ensures
            found matches Some(i) ==> i < self@.open.len() && self@.open[i as int].0 == span,
            found is None ==> !self@.holds(span),
    {
        let mut i: usize = 0;
        while i < self.open.len()
            invariant
                i <= self.open.len(),
                forall|k: int| 0 <= k < i ==> (#[trigger] self@.open[k]).0 != span,
            decreases self.open.len() - i,
        {
            if self.open[i].0 == span {
                return Some(i);
            }
            i += 1;
        }
        None
    }

    /// The handle of a span, if it is kept.
    pub fn handle(&self, span: SpanId) -> (handle: Option<&Span>)
        requires
            self@.wf(),
        ensures
            handle matches Some(kept) ==> self@.handle(span) == Some(*kept),
            handle is None ==> self@.handle(span) is None,
    {
        match self.find(span) {
            Some(i) => {
                proof {
                    self@.lemma_position(i as int);
                }
                Some(&self.open[i].1)
            },
            None => None,
        }
    }

    /// The handle under which a new span is to be created: none for a
    /// detached span, the span of the caller, or the handle of another
    /// span of the request.
    pub fn parent(&self, parent: SpanParent) -> (handle: Option<&Span>)
        requires
            self@.wf(),
        ensures
            handle matches Some(kept) ==> self@.parent(parent) == Some(*kept),
            handle is None ==> self@.parent(parent) is None,
    {
        match parent {
            SpanParent::Detached => None,
            SpanParent::Caller => self.caller.as_ref(),
            SpanParent::Span(above) => self.handle(above),
        }
    }

    /// Keeps the handle of a span that has been opened. A handle that was
    /// kept for the span before gives way and is returned.
    pub fn keep(&mut self, span: SpanId, handle: Span) -> (displaced: Option<Span>)
        requires
            old(self)@.wf(),
        ensures
            final(self)@.wf(),
            final(self)@.caller == old(self)@.caller,
            final(self)@.open == old(self)@.without(span).push((span, handle)),
            displaced == old(self)@.handle(span),
            final(self)@.spans() == old(self)@.spans().insert(span),
            forall|other: SpanId|
                other != span ==> final(self)@.handle(other) == old(self)@.handle(other),
            final(self)@.handle(span) == Some(handle),
    {
        let displaced = match self.find(span) {
            Some(i) => {
                proof {
                    self@.lemma_position(i as int);
                }
                let (_, gone) = self.open.remove(i);
                Some(gone)
            },
            None => None,
        };
        let ghost rest = BookView { open: old(self)@.without(span), ..old(self)@ };
        proof {
            old(self)@.lemma_without(span, span);
        }
        self.open.push((span, handle));
        proof {
            assert forall|other: SpanId|
                self@.holds(other) == (old(self)@.holds(other) || other == span) by {
                old(self)@.lemma_without(span, other);
                rest.lemma_push(span, handle, other);
            }
            assert forall|other: SpanId| other != span implies self@.handle(other) == old(
                self,
            )@.handle(other) by {
                old(self)@.lemma_without(span, other);
                rest.lemma_push(span, handle, other);
            }
            rest.lemma_push(span, handle, span);
            assert(self@.spans() =~= old(self)@.spans().insert(span));
        }
        displaced
    }

    /// Lets go of the handle of a span that is being closed, and returns
    /// it. A span without a handle changes nothing.
    pub fn release(&mut self, span: SpanId) -> (released: Option<Span>)
        requires
            old(self)@.wf(),
        ensures
            final(self)@.wf(),
            final(self)@.caller == old(self)@.caller,
            final(self)@.open == old(self)@.without(span),
            released == old(self)@.handle(span),
            final(self)@.spans() == old(self)@.spans().remove(span),
            forall|other: SpanId|
                other != span ==> final(self)@.handle(other) == old(self)@.handle(other),
    {
        let released = match self.find(span) {
            Some(i) => {
                proof {
                    self@.lemma_position(i as int);
                }
                let (_, gone) = self.open.remove(i);
                Some(gone)
            },
            None => None,
        };
        proof {
            assert forall|other: SpanId|
                self@.holds(other) == (old(self)@.holds(other) && other != span) by {
                old(self)@.lemma_without(span, other);
            }
            assert forall|other: SpanId| other != span implies self@.handle(other) == old(
                self,
            )@.handle(other) by {
                old(self)@.lemma_without(span, other);
            }
            old(self)@.lemma_without(span, span);
            assert(self@.spans() =~= old(self)@.spans().remove(span));
        }
        released
    }
}

} // verus!
