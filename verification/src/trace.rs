//! Reading a list of actions: which spans it leaves open, and how often
//! it does a thing.

use crate::action::{close_of, ActionView, Counter, SpanId, SpanParent};
use vstd::prelude::*;

verus! {

/// Whether the action opens or closes a span.
pub open spec fn touches_spans(action: ActionView) -> bool {
    action is OpenSpan || action is CloseSpan
}

/// Whether the action opens this span.
pub open spec fn opens_span(action: ActionView, span: SpanId) -> bool {
    action matches ActionView::OpenSpan { span: opened, .. } && opened == span
}

/// Whether the action closes this span.
pub open spec fn closes_span(action: ActionView, span: SpanId) -> bool {
    action == close_of(span)
}

/// Whether the action adds one to this counter.
pub open spec fn increments(action: ActionView, counter: Counter) -> bool {
    action matches ActionView::Count { counter: counted, .. } && counted == counter
}

/// The actions that open this span.
pub open spec fn opening(span: SpanId) -> spec_fn(ActionView) -> bool {
    |action: ActionView| opens_span(action, span)
}

/// The actions that close this span.
pub open spec fn closing(span: SpanId) -> spec_fn(ActionView) -> bool {
    |action: ActionView| closes_span(action, span)
}

/// The actions that add one to this counter.
pub open spec fn counting(counter: Counter) -> spec_fn(ActionView) -> bool {
    |action: ActionView| increments(action, counter)
}

/// The actions that log an error of the request.
pub open spec fn logging_errors() -> spec_fn(ActionView) -> bool {
    |action: ActionView| action is LogRequestError
}

/// The open spans after the action, given those before it. `None` where
/// the action cannot be performed: it opens a span that is open or whose
/// parent is not, or it closes a span that is not open.
pub open spec fn perform(open: Set<SpanId>, action: ActionView) -> Option<Set<SpanId>> {
    match action {
        ActionView::OpenSpan { span, parent, .. } => if open.contains(span) || (parent matches 
            SpanParent::Span(above) && !open.contains(above)) {
            None
        } else {
            Some(open.insert(span))
        },
        ActionView::CloseSpan { span } => if open.contains(span) {
            Some(open.remove(span))
        } else {
            None
        },
        _ => Some(open),
    }
}

/// The open spans after the actions, performed in their order; `None`
/// where one of them cannot be performed.
pub open spec fn replay(open: Set<SpanId>, actions: Seq<ActionView>) -> Option<Set<SpanId>>
    decreases actions.len(),
{
    if actions.len() == 0 {
        Some(open)
    } else {
        match replay(open, actions.drop_last()) {
            Some(before) => perform(before, actions.last()),
            None => None,
        }
    }
}

/// How many of the actions satisfy `pred`.
pub open spec fn tally(actions: Seq<ActionView>, pred: spec_fn(ActionView) -> bool) -> int
    decreases actions.len(),
{
    if actions.len() == 0 {
        0
    } else {
        tally(actions.drop_last(), pred) + if pred(actions.last()) {
            1int
        } else {
            0int
        }
    }
}

/// Replaying one action more is performing it on what the others leave.
pub proof fn lemma_replay_push(open: Set<SpanId>, actions: Seq<ActionView>, action: ActionView)
    ensures
        replay(open, actions.push(action)) == match replay(open, actions) {
            Some(before) => perform(before, action),
            None => None,
        },
{
    assert(actions.push(action).drop_last() =~= actions);
}

/// Replaying two lists in a row is replaying the second on what the first
/// leaves.
pub proof fn lemma_replay_concat(open: Set<SpanId>, first: Seq<ActionView>, rest: Seq<ActionView>)
    ensures
        replay(open, first + rest) == match replay(open, first) {
            Some(between) => replay(between, rest),
            None => None,
        },
    decreases rest.len(),
{
    if rest.len() == 0 {
        assert(first + rest =~= first);
    } else {
        lemma_replay_concat(open, first, rest.drop_last());
        assert((first + rest).drop_last() =~= first + rest.drop_last());
        assert((first + rest).last() == rest.last());
    }
}

/// Actions that touch no span leave the open spans as they are.
pub proof fn lemma_replay_silent(open: Set<SpanId>, actions: Seq<ActionView>)
    requires
        forall|i: int| 0 <= i < actions.len() ==> !touches_spans(#[trigger] actions[i]),
    ensures
        replay(open, actions) == Some(open),
    decreases actions.len(),
{
    if actions.len() > 0 {
        let front = actions.drop_last();
        assert forall|i: int| 0 <= i < front.len() implies !touches_spans(#[trigger] front[i]) by {
            assert(front[i] == actions[i]);
        }
        lemma_replay_silent(open, front);
        assert(!touches_spans(actions[actions.len() - 1]));
    }
}

/// The close of a span that may or may not be open.
pub proof fn lemma_replay_close_if(open: Set<SpanId>, held: bool, span: SpanId)
    requires
        held ==> open.contains(span),
    ensures
        replay(
            open,
            if held {
                seq![close_of(span)]
            } else {
                Seq::empty()
            },
        ) == Some(
            if held {
                open.remove(span)
            } else {
                open
            },
        ),
{
    if held {
        lemma_replay_push(open, Seq::empty(), close_of(span));
        assert(Seq::<ActionView>::empty().push(close_of(span)) =~= seq![close_of(span)]);
    }
}

/// The tally of two lists in a row is the sum of their tallies.
pub proof fn lemma_tally_concat(
    first: Seq<ActionView>,
    rest: Seq<ActionView>,
    pred: spec_fn(ActionView) -> bool,
)
    ensures
        tally(first + rest, pred) == tally(first, pred) + tally(rest, pred),
    decreases rest.len(),
{
    if rest.len() == 0 {
        assert(first + rest =~= first);
    } else {
        lemma_tally_concat(first, rest.drop_last(), pred);
        assert((first + rest).drop_last() =~= first + rest.drop_last());
        assert((first + rest).last() == rest.last());
    }
}

/// Where no action satisfies `pred` the tally is zero.
pub proof fn lemma_tally_none(actions: Seq<ActionView>, pred: spec_fn(ActionView) -> bool)
    requires
        forall|i: int| 0 <= i < actions.len() ==> !pred(#[trigger] actions[i]),
    ensures
        tally(actions, pred) == 0,
    decreases actions.len(),
{
    if actions.len() > 0 {
        let front = actions.drop_last();
        assert forall|i: int| 0 <= i < front.len() implies !pred(#[trigger] front[i]) by {
            assert(front[i] == actions[i]);
        }
        lemma_tally_none(front, pred);
        assert(!pred(actions[actions.len() - 1]));
    }
}

/// Where exactly one action satisfies `pred` the tally is one.
pub proof fn lemma_tally_one(
    actions: Seq<ActionView>,
    pred: spec_fn(ActionView) -> bool,
    at: int,
)
    requires
        0 <= at < actions.len(),
        forall|i: int| 0 <= i < actions.len() ==> (pred(#[trigger] actions[i]) <==> i == at),
    ensures
        tally(actions, pred) == 1,
    decreases actions.len(),
{
    let front = actions.drop_last();
    if at == actions.len() - 1 {
        assert forall|i: int| 0 <= i < front.len() implies !pred(#[trigger] front[i]) by {
            assert(front[i] == actions[i]);
        }
        lemma_tally_none(front, pred);
        assert(pred(actions[at]));
    } else {
        assert forall|i: int| 0 <= i < front.len() implies (pred(#[trigger] front[i]) <==> i
            == at) by {
            assert(front[i] == actions[i]);
        }
        lemma_tally_one(front, pred, at);
        assert(!pred(actions[actions.len() - 1]));
    }
}

/// Over actions that can be performed, a span is opened as often as it is
/// closed, give or take whether it is open before and after.
pub proof fn lemma_replay_balance(open: Set<SpanId>, actions: Seq<ActionView>, span: SpanId)
    requires
        replay(open, actions) is Some,
    ensures
        tally(actions, opening(span)) - tally(actions, closing(span)) == (if replay(open, actions).unwrap().contains(span) {
            1int
        } else {
            0int
        }) - (if open.contains(span) {
            1int
        } else {
            0int
        }),
    decreases actions.len(),
{
    if actions.len() > 0 {
        lemma_replay_balance(open, actions.drop_last(), span);
    }
}

} // verus!
