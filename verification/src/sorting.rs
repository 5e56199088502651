//! Ordering the completed resolutions by their start offsets.

use crate::model::{
    durations_non_negative, ordered_by_offset, place_stat, sort_stats, starting_at, StatView,
};
use crate::records::ResolveStat;
use vstd::prelude::*;

verus! {

/// The place at which `place_stat` puts `stat`: behind the last record
/// that does not start later.
pub open spec fn place_index(sorted: Seq<StatView>, stat: StatView) -> int
    decreases sorted.len(),
{
    if sorted.len() == 0 {
        0
    } else if sorted.last().start_offset <= stat.start_offset {
        sorted.len() as int
    } else {
        place_index(sorted.drop_last(), stat)
    }
}

/// `place_stat` inserts at `place_index`; every record from there on
/// starts later than `stat`, the one before it does not.
pub proof fn lemma_place_index(sorted: Seq<StatView>, stat: StatView)
    ensures
        0 <= place_index(sorted, stat) <= sorted.len(),
        forall|k: int|
            place_index(sorted, stat) <= k < sorted.len() ==> (#[trigger] sorted[k]).start_offset
                > stat.start_offset,
        place_index(sorted, stat) > 0 ==> sorted[place_index(sorted, stat) - 1].start_offset
            <= stat.start_offset,
        place_stat(sorted, stat) == sorted.insert(place_index(sorted, stat), stat),
    decreases sorted.len(),
{
    if sorted.len() == 0 {
        assert(place_stat(sorted, stat) =~= sorted.insert(0, stat));
    } else if sorted.last().start_offset <= stat.start_offset {
        assert(place_stat(sorted, stat) =~= sorted.insert(sorted.len() as int, stat));
    } else {
        let front = sorted.drop_last();
        lemma_place_index(front, stat);
        let p = place_index(front, stat);
        assert forall|k: int| p <= k < sorted.len() implies (#[trigger] sorted[k]).start_offset
            > stat.start_offset by {
            if k < front.len() {
                assert(front[k] == sorted[k]);
            }
        }
        if p > 0 {
            assert(front[p - 1] == sorted[p - 1]);
        }
        assert(front.insert(p, stat).push(sorted.last()) =~= sorted.insert(p, stat));
    }
}

/// The place is the only one with the two properties of
/// `lemma_place_index`.
pub proof fn lemma_place_unique(sorted: Seq<StatView>, stat: StatView, p: int)
    requires
        0 <= p <= sorted.len(),
        forall|k: int| p <= k < sorted.len() ==> (#[trigger] sorted[k]).start_offset
            > stat.start_offset,
        p > 0 ==> sorted[p - 1].start_offset <= stat.start_offset,
    ensures
        p == place_index(sorted, stat),
{
    lemma_place_index(sorted, stat);
    let q = place_index(sorted, stat);
    if p < q {
        assert(sorted[q - 1].start_offset > stat.start_offset);
    } else if q < p {
        assert(sorted[p - 1].start_offset > stat.start_offset);
    }
}

/// Placing a record keeps an ordered sequence ordered.
pub proof fn lemma_place_ordered(sorted: Seq<StatView>, stat: StatView)
    requires
        ordered_by_offset(sorted),
    ensures
        ordered_by_offset(place_stat(sorted, stat)),
{
    lemma_place_index(sorted, stat);
    let p = place_index(sorted, stat);
    let placed = sorted.insert(p, stat);
    assert forall|i: int, j: int| 0 <= i <= j < placed.len() implies placed[i].start_offset
        <= placed[j].start_offset by {
        if i < p && j == p {
            assert(sorted[i].start_offset <= sorted[p - 1].start_offset);
        } else if i < p && j > p {
            assert(sorted[i].start_offset <= sorted[j - 1].start_offset);
        } else if i == p && j > p {
            assert(sorted[j - 1].start_offset > stat.start_offset);
        } else if i > p {
            assert(sorted[i - 1].start_offset <= sorted[j - 1].start_offset);
        }
    }
}

/// No record that satisfies nothing is kept by a filter.
proof fn lemma_filter_none(stats: Seq<StatView>, offset: int)
    requires
        forall|k: int| 0 <= k < stats.len() ==> (#[trigger] stats[k]).start_offset != offset,
    ensures
        starting_at(stats, offset) == Seq::<StatView>::empty(),
    decreases stats.len(),
{
    reveal(Seq::filter);
    if stats.len() > 0 {
        let front = stats.drop_last();
        assert forall|k: int| 0 <= k < front.len() implies (#[trigger] front[k]).start_offset
            != offset by {
            assert(front[k] == stats[k]);
        }
        lemma_filter_none(front, offset);
        assert(stats.last() == stats[stats.len() - 1]);
    }
}

/// Among the records that start at one offset, placing a record puts it
/// last and moves no other.
pub proof fn lemma_place_stable(sorted: Seq<StatView>, stat: StatView, offset: int)
    ensures
        starting_at(place_stat(sorted, stat), offset) == if stat.start_offset == offset {
            starting_at(sorted, offset).push(stat)
        } else {
            starting_at(sorted, offset)
        },
{
    lemma_place_index(sorted, stat);
    let p = place_index(sorted, stat);
    let pred = |s: StatView| s.start_offset == offset;
    let front = sorted.take(p);
    let back = sorted.skip(p);
    assert(sorted =~= front + back);
    assert(sorted.insert(p, stat) =~= (front + seq![stat]) + back);
    Seq::filter_distributes_over_add(front, back, pred);
    Seq::filter_distributes_over_add(front + seq![stat], back, pred);
    Seq::filter_distributes_over_add(front, seq![stat], pred);
    reveal(Seq::filter);
    assert(seq![stat].drop_last() =~= Seq::<StatView>::empty());
    assert(seq![stat].filter(pred) =~= if stat.start_offset == offset {
        seq![stat]
    } else {
        Seq::<StatView>::empty()
    }) by {
        assert(Seq::<StatView>::empty().filter(pred) =~= Seq::<StatView>::empty());
        assert(seq![stat].last() == stat);
    }
    if stat.start_offset == offset {
        assert forall|k: int| 0 <= k < back.len() implies (#[trigger] back[k]).start_offset
            != offset by {
            assert(back[k] == sorted[p + k]);
        }
        lemma_filter_none(back, offset);
        assert(starting_at(place_stat(sorted, stat), offset) =~= starting_at(sorted, offset).push(
            stat,
        ));
    } else {
        assert(starting_at(place_stat(sorted, stat), offset) =~= starting_at(sorted, offset));
    }
}

/// Placing a record keeps all durations non-negative when its own is.
pub proof fn lemma_place_durations(sorted: Seq<StatView>, stat: StatView)
    requires
        durations_non_negative(sorted),
        stat.duration >= 0,
    ensures
        durations_non_negative(place_stat(sorted, stat)),
{
    lemma_place_index(sorted, stat);
    let p = place_index(sorted, stat);
    let placed = sorted.insert(p, stat);
    assert forall|i: int| 0 <= i < placed.len() implies (#[trigger] placed[i]).duration >= 0 by {
        if i < p {
            assert(placed[i] == sorted[i]);
        } else if i > p {
            assert(placed[i] == sorted[i - 1]);
        }
    }
}

/// What sorting does: the result is in ascending order of start offset,
/// has the length of what went in, and among the records that start at
/// one offset nothing is added, lost or moved. Non-negative durations
/// stay so.
pub proof fn lemma_sort_stats(stats: Seq<StatView>)
    ensures
        ordered_by_offset(sort_stats(stats)),
        sort_stats(stats).len() == stats.len(),
        forall|offset: int| #[trigger]
            starting_at(sort_stats(stats), offset) == starting_at(stats, offset),
        durations_non_negative(stats) ==> durations_non_negative(sort_stats(stats)),
    decreases stats.len(),
{
    if stats.len() == 0 {
        assert(sort_stats(stats) =~= stats);
    } else {
        let front = stats.drop_last();
        let last = stats.last();
        lemma_sort_stats(front);
        let sorted = sort_stats(front);
        lemma_place_ordered(sorted, last);
        lemma_place_index(sorted, last);
        assert forall|offset: int| #[trigger]
            starting_at(sort_stats(stats), offset) == starting_at(stats, offset) by {
            lemma_place_stable(sorted, last, offset);
            assert(starting_at(sorted, offset) == starting_at(front, offset));
            reveal(Seq::filter);
        }
        if durations_non_negative(stats) {
            assert forall|i: int| 0 <= i < front.len() implies (#[trigger] front[i]).duration
                >= 0 by {
                assert(front[i] == stats[i]);
            }
            assert(last == stats[stats.len() - 1]);
            lemma_place_durations(sorted, last);
        }
    }
}

/// Whether `sorted` holds the records of `source` in ascending order of
/// start offset, records of equal offset in the order of `source`.
pub open spec fn is_stable_order_of(sorted: Seq<StatView>, source: Seq<StatView>) -> bool {
    &&& ordered_by_offset(sorted)
    &&& forall|offset: int| #[trigger] starting_at(sorted, offset) == starting_at(source, offset)
}

proof fn lemma_starting_at_last(stats: Seq<StatView>, offset: int)
    requires
        stats.len() > 0,
    ensures
        starting_at(stats, offset) == if stats.last().start_offset == offset {
            starting_at(stats.drop_last(), offset).push(stats.last())
        } else {
            starting_at(stats.drop_last(), offset)
        },
{
    reveal(Seq::filter);
}

proof fn lemma_starting_at_member(stats: Seq<StatView>, offset: int)
    requires
        starting_at(stats, offset).len() > 0,
    ensures
        exists|i: int| 0 <= i < stats.len() && (#[trigger] stats[i]).start_offset == offset,
    decreases stats.len(),
{
    reveal(Seq::filter);
    if stats.len() > 0 {
        if stats.last().start_offset == offset {
            assert(stats[stats.len() - 1].start_offset == offset);
        } else {
            let front = stats.drop_last();
            lemma_starting_at_member(front, offset);
            let i = choose|i: int| 0 <= i < front.len() && (#[trigger] front[i]).start_offset
                == offset;
            assert(stats[i] == front[i]);
        }
    }
}

/// There is one stable order only: two ordered sequences that agree, for
/// every offset, on the records that start there and on their order, are
/// the same sequence.
pub proof fn law_stable_order_is_unique(first: Seq<StatView>, second: Seq<StatView>)
    requires
        ordered_by_offset(first),
        ordered_by_offset(second),
        forall|offset: int| #[trigger] starting_at(first, offset) == starting_at(second, offset),
    ensures
        first == second,
    decreases first.len(),
{
    if first.len() == 0 {
        if second.len() > 0 {
            let key = second.last().start_offset;
            lemma_starting_at_last(second, key);
            assert(starting_at(first, key) == starting_at(second, key));
            reveal(Seq::filter);
            assert(false);
        }
        assert(first =~= second);
    } else {
        let x = first.last();
        let k = x.start_offset;
        lemma_starting_at_last(first, k);
        assert(starting_at(first, k) == starting_at(second, k));
        lemma_starting_at_member(second, k);
        let y = second.last();
        let m = y.start_offset;
        lemma_starting_at_last(second, m);
        assert(starting_at(first, m) == starting_at(second, m));
        lemma_starting_at_member(first, m);
        let in_first = choose|i: int|
            0 <= i < first.len() && (#[trigger] first[i]).start_offset == m;
        let in_second = choose|i: int|
            0 <= i < second.len() && (#[trigger] second[i]).start_offset == k;
        assert(first[in_first].start_offset <= first[first.len() - 1].start_offset);
        assert(second[in_second].start_offset <= second[second.len() - 1].start_offset);
        assert(k == m);
        let left = starting_at(first.drop_last(), k).push(x);
        let right = starting_at(second.drop_last(), k).push(y);
        assert(left == right);
        assert(left.last() == right.last());
        assert(left.drop_last() =~= starting_at(first.drop_last(), k));
        assert(right.drop_last() =~= starting_at(second.drop_last(), k));
        assert(x == y);
        let front = first.drop_last();
        let other = second.drop_last();
        assert forall|offset: int| #[trigger]
            starting_at(front, offset) == starting_at(other, offset) by {
            lemma_starting_at_last(first, offset);
            lemma_starting_at_last(second, offset);
            assert(starting_at(first, offset) == starting_at(second, offset));
        }
        assert forall|i: int, j: int| 0 <= i <= j < front.len() implies front[i].start_offset
            <= front[j].start_offset by {
            assert(front[i] == first[i] && front[j] == first[j]);
        }
        assert forall|i: int, j: int| 0 <= i <= j < other.len() implies other[i].start_offset
            <= other[j].start_offset by {
            assert(other[i] == second[i] && other[j] == second[j]);
        }
        law_stable_order_is_unique(front, other);
        assert(first =~= front.push(x));
        assert(second =~= other.push(y));
    }
}

/// Sorting gives the stable order of what went in, and that is the only
/// one there is.
pub proof fn law_sort_is_the_stable_order(stats: Seq<StatView>, sorted: Seq<StatView>)
    ensures
        is_stable_order_of(sort_stats(stats), stats),
        is_stable_order_of(sorted, stats) ==> sorted == sort_stats(stats),
{
    lemma_sort_stats(stats);
    if is_stable_order_of(sorted, stats) {
        assert forall|offset: int| #[trigger]
            starting_at(sorted, offset) == starting_at(sort_stats(stats), offset) by {
            assert(starting_at(sorted, offset) == starting_at(stats, offset));
            assert(starting_at(sort_stats(stats), offset) == starting_at(stats, offset));
        }
        law_stable_order_is_unique(sorted, sort_stats(stats));
    }
}

/// Sorts the records by start offset, ascending. Records with equal
/// offsets keep their order.
pub fn sort_resolves(stats: Vec<ResolveStat>) -> (sorted: Vec<ResolveStat>)
    ensures
        sorted.deep_view() == sort_stats(stats.deep_view()),
        is_stable_order_of(sorted.deep_view(), stats.deep_view()),
{
    proof {
        lemma_sort_stats(stats.deep_view());
    }
    let ghost all = stats.deep_view();
    let mut rest = stats;
    let mut sorted: Vec<ResolveStat> = Vec::new();
    let ghost mut done: int = 0;
    assert(sorted.deep_view() =~= sort_stats(all.take(0)));
    assert(rest.deep_view() =~= all.skip(0));
    while rest.len() > 0
        invariant
            0 <= done <= all.len(),
            rest.deep_view() == all.skip(done),
            sorted.deep_view() == sort_stats(all.take(done)),
        decreases rest.len(),
    {
        let ghost rest_before = rest.deep_view();
        assert(rest_before.len() == rest.len());
        assert(all.skip(done).len() == all.len() - done);
        assert(rest_before[0] == all.skip(done)[0]);
        let stat = rest.remove(0);
        assert(stat@ == all[done]);
        assert(rest.deep_view() =~= all.skip(done + 1)) by {
            assert forall|k: int| 0 <= k < rest.len() implies rest.deep_view()[k] == all.skip(
                done + 1,
            )[k] by {
                assert(rest.deep_view()[k] == rest_before[k + 1]);
                assert(rest_before[k + 1] == all.skip(done)[k + 1]);
            }
        }
        let mut p: usize = sorted.len();
        while p > 0 && sorted[p - 1].start_offset > stat.start_offset
            invariant
                p <= sorted.len(),
                forall|k: int|
                    p <= k < sorted.len() ==> (#[trigger] sorted.deep_view()[k]).start_offset
                        > stat@.start_offset,
            decreases p,
        {
            p -= 1;
        }
        proof {
            let before = sorted.deep_view();
            if p > 0 {
                assert(before[p - 1].start_offset <= stat@.start_offset);
            }
            lemma_place_unique(before, stat@, p as int);
            lemma_place_index(before, stat@);
            assert(all.take(done + 1).drop_last() =~= all.take(done));
            assert(all.take(done + 1).last() == all[done]);
        }
        let ghost before = sorted.deep_view();
        sorted.insert(p, stat);
        assert(sorted.deep_view() =~= before.insert(p as int, stat@));
        proof {
            done = done + 1;
        }
    }
    assert(all.take(done) =~= all);
    sorted
}

} // verus!
