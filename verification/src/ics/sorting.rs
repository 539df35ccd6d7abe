//! Ordering events by their start, stably.
use vstd::prelude::*;

use crate::ics::types::{EventSummary, EventSummaryView};

verus! {

/// `e` inserted into `sorted` after every event that starts no later than it.
pub open spec fn insert_by_start(sorted: Seq<EventSummaryView>, e: EventSummaryView) -> Seq<
    EventSummaryView,
>
    decreases sorted.len(),
{
    if sorted.len() == 0 {
        seq![e]
    } else if sorted.last().dtstart <= e.dtstart {
        sorted.push(e)
    } else {
        insert_by_start(sorted.drop_last(), e).push(sorted.last())
    }
}

/// The events ordered by start; events that start together keep their order
/// (a stable sort by `dtstart`).
pub open spec fn sort_by_start(s: Seq<EventSummaryView>) -> Seq<EventSummaryView>
    decreases s.len(),
{
    if s.len() == 0 {
        s
    } else {
        insert_by_start(sort_by_start(s.drop_last()), s.last())
    }
}

/// Events in ascending order of start.
pub open spec fn starts_ascending(s: Seq<EventSummaryView>) -> bool {
    forall|i: int, j: int| 0 <= i <= j < s.len() ==> s[i].dtstart <= s[j].dtstart
}

/// Inserting at the position after the last event that starts no later
/// than `e` is what `insert_by_start` does.
proof fn lemma_insert_at(s: Seq<EventSummaryView>, e: EventSummaryView, j: int)
    requires
        0 <= j <= s.len(),
        forall|k: int| j <= k < s.len() ==> #[trigger] s[k].dtstart > e.dtstart,
        j == 0 || s[j - 1].dtstart <= e.dtstart,
    ensures
        insert_by_start(s, e) == s.take(j).push(e) + s.skip(j),
    decreases s.len(),
{
    if s.len() == 0 {
        assert(s.take(j).push(e) + s.skip(j) =~= seq![e]);
    } else if j == s.len() {
        assert(s.take(j) =~= s);
        assert(s.take(j).push(e) + s.skip(j) =~= s.push(e));
    } else {
        let init = s.drop_last();
        lemma_insert_at(init, e, j);
        assert(s.take(j).push(e) + s.skip(j) =~= (init.take(j).push(e) + init.skip(j)).push(
            s.last(),
        ));
    }
}

/// Inserting into an ascending sequence keeps it ascending and adds exactly `e`.
proof fn lemma_insert_props(s: Seq<EventSummaryView>, e: EventSummaryView)
    requires
        starts_ascending(s),
    ensures
        starts_ascending(insert_by_start(s, e)),
        insert_by_start(s, e).to_multiset() =~= s.to_multiset().insert(e),
        insert_by_start(s, e).len() == s.len() + 1,
    decreases s.len(),
{
    broadcast use vstd::seq_lib::group_seq_properties;
    if s.len() == 0 {
        assert(seq![e] =~= Seq::<EventSummaryView>::empty().push(e));
    } else if s.last().dtstart <= e.dtstart {
    } else {
        let init = s.drop_last();
        assert(starts_ascending(init));
        lemma_insert_props(init, e);
        let ins = insert_by_start(init, e);
        assert(s =~= init.push(s.last()));
        assert forall|i: int, j: int| 0 <= i <= j < ins.push(s.last()).len() implies ins.push(
            s.last(),
        )[i].dtstart <= ins.push(s.last())[j].dtstart by {
            if j == ins.len() && i < j {
                assert(ins.to_multiset().count(ins[i]) > 0);
                assert(init.to_multiset().insert(e).count(ins[i]) > 0);
                if ins[i] != e {
                    assert(init.to_multiset().count(ins[i]) > 0);
                    assert(init.contains(ins[i]));
                    let k = choose|k: int| 0 <= k < init.len() && init[k] == ins[i];
                    assert(s[k] == init[k]);
                }
            }
        }
    }
}

/// The ordering of events by start.
pub proof fn lemma_sort_by_start(s: Seq<EventSummaryView>)
    ensures
        starts_ascending(sort_by_start(s)),
        sort_by_start(s).to_multiset() =~= s.to_multiset(),
        sort_by_start(s).len() == s.len(),
    decreases s.len(),
{
    broadcast use vstd::seq_lib::group_seq_properties;
    if s.len() > 0 {
        lemma_sort_by_start(s.drop_last());
        lemma_insert_props(sort_by_start(s.drop_last()), s.last());
        assert(s =~= s.drop_last().push(s.last()));
    }
}

/// Law: ordering events by start gives them in ascending order of start and
/// neither loses nor adds an event.
pub proof fn law_sorted_events_ascend(s: Seq<EventSummaryView>)
    ensures
        starts_ascending(sort_by_start(s)),
        sort_by_start(s).to_multiset() == s.to_multiset(),
{
    lemma_sort_by_start(s);
}

/// The views of events.
pub open spec fn event_views(v: Seq<EventSummary>) -> Seq<EventSummaryView> {
    v.map_values(|e: EventSummary| e@)
}

/// Orders events by start, stably (`sort_by_key(|e| e.dtstart)`).
pub fn sort_by_dtstart(events: Vec<EventSummary>) -> (r: Vec<EventSummary>)
    ensures
        event_views(r@) == sort_by_start(event_views(events@)),
{
    let ghost ev = event_views(events@);
    let mut out: Vec<EventSummary> = Vec::new();
    let mut i: usize = 0;
    while i < events.len()
        invariant
            0 <= i <= events@.len(),
            ev == event_views(events@),
            event_views(out@) == sort_by_start(ev.subrange(0, i as int)),
        decreases events@.len() - i,
    {
        let ghost prefix = ev.subrange(0, i + 1);
        assert(prefix.drop_last() =~= ev.subrange(0, i as int));
        let e = events[i].duplicate();
        let ghost sv = event_views(out@);
        let mut j = out.len();
        while j > 0 && out[j - 1].dtstart > e.dtstart
            invariant
                0 <= j <= out@.len(),
                sv == event_views(out@),
                forall|k: int| j <= k < sv.len() ==> #[trigger] sv[k].dtstart > e.dtstart,
            decreases j,
        {
            j -= 1;
        }
        proof {
            lemma_insert_at(sv, e@, j as int);
        }
        out.insert(j, e);
        assert(event_views(out@) =~= sv.take(j as int).push(e@) + sv.skip(j as int));
        assert(e@ == ev[i as int]);
        i += 1;
    }
    assert(ev.subrange(0, events@.len() as int) =~= ev);
    out
}

} // verus!
