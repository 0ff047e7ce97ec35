//! The events of a call that speak of one output index, and what they add up to.

use crate::events::StreamEventV;
use crate::laws::numbering::numbered;
use vstd::prelude::*;

verus! {

/// The kinds of event that speak of one output item.
#[derive(Clone, Copy, PartialEq, Eq, Structural)]
pub enum Mark {
    /// `response.output_item.added`
    Added,
    /// `response.function_call_arguments.done`
    ArgumentsDone,
    /// `response.output_item.done`
    ItemDone,
    /// `response.function_call_arguments.delta`
    Delta,
}

/// Whether the event is of the kind `mark` and speaks of the output index
/// `k`.
pub open spec fn marks(e: StreamEventV, mark: Mark, k: int) -> bool {
    match e {
        StreamEventV::ItemAdded { output_index, .. } => mark == Mark::Added && output_index == k,
        StreamEventV::ArgumentsDone { output_index, .. } => mark == Mark::ArgumentsDone
            && output_index == k,
        StreamEventV::ItemDone { output_index, .. } => mark == Mark::ItemDone && output_index == k,
        StreamEventV::ArgumentsDelta { output_index, .. } => mark == Mark::Delta && output_index
            == k,
        _ => false,
    }
}

/// The events of the kind `mark` that speak of the output index `k`, in
/// the order in which they were emitted.
pub open spec fn pick(h: Seq<StreamEventV>, mark: Mark, k: int) -> Seq<StreamEventV>
    decreases h.len(),
{
    if h.len() == 0 {
        Seq::empty()
    } else if marks(h.last(), mark, k) {
        pick(h.drop_last(), mark, k).push(h.last())
    } else {
        pick(h.drop_last(), mark, k)
    }
}

/// The arguments fragment that the event carries for the output index `k`.
pub open spec fn fragment_of(e: StreamEventV, k: int) -> Seq<char> {
    match e {
        StreamEventV::ArgumentsDelta { output_index, delta, .. } => if output_index == k {
            delta
        } else {
            Seq::empty()
        },
        _ => Seq::empty(),
    }
}

/// All arguments fragments that the events carry for the output index `k`,
/// one after the other.
pub open spec fn delta_text(h: Seq<StreamEventV>, k: int) -> Seq<char>
    decreases h.len(),
{
    if h.len() == 0 {
        Seq::empty()
    } else {
        delta_text(h.drop_last(), k) + fragment_of(h.last(), k)
    }
}

/// Picking from two runs of events is picking from each.
pub proof fn lemma_pick_concat(a: Seq<StreamEventV>, b: Seq<StreamEventV>, mark: Mark, k: int)
    ensures
        pick(a + b, mark, k) == pick(a, mark, k) + pick(b, mark, k),
    decreases b.len(),
{
    if b.len() == 0 {
        assert(a + b =~= a);
        assert(pick(a, mark, k) + pick(b, mark, k) =~= pick(a, mark, k));
    } else {
        assert((a + b).drop_last() =~= a + b.drop_last());
        assert((a + b).last() == b.last());
        lemma_pick_concat(a, b.drop_last(), mark, k);
        if marks(b.last(), mark, k) {
            assert(pick(a + b, mark, k) =~= pick(a, mark, k) + pick(b, mark, k));
        }
    }
}

/// The fragments of two runs of events are those of each, one after the
/// other.
pub proof fn lemma_delta_concat(a: Seq<StreamEventV>, b: Seq<StreamEventV>, k: int)
    ensures
        delta_text(a + b, k) == delta_text(a, k) + delta_text(b, k),
    decreases b.len(),
{
    if b.len() == 0 {
        assert(a + b =~= a);
        assert(delta_text(a, k) + delta_text(b, k) =~= delta_text(a, k));
    } else {
        assert((a + b).drop_last() =~= a + b.drop_last());
        assert((a + b).last() == b.last());
        lemma_delta_concat(a, b.drop_last(), k);
        assert(delta_text(a + b, k) =~= delta_text(a, k) + delta_text(b, k));
    }
}

/// What one event adds to a pick and to the fragments.
pub proof fn lemma_single(e: StreamEventV, mark: Mark, k: int)
    ensures
        pick(seq![e], mark, k) == (if marks(e, mark, k) {
            seq![e]
        } else {
            Seq::empty()
        }),
        delta_text(seq![e], k) == fragment_of(e, k),
{
    let h = seq![e];
    assert(h.drop_last() =~= Seq::<StreamEventV>::empty());
    assert(h.last() == e);
    assert(pick(h.drop_last(), mark, k) =~= Seq::<StreamEventV>::empty());
    assert(delta_text(h.drop_last(), k) =~= Seq::<char>::empty());
    assert(delta_text(h, k) =~= fragment_of(e, k));
    if marks(e, mark, k) {
        assert(pick(h, mark, k) =~= seq![e]);
    }
}

/// What one more event adds to a pick and to the fragments.
pub proof fn lemma_push(h: Seq<StreamEventV>, e: StreamEventV, mark: Mark, k: int)
    ensures
        pick(h + seq![e], mark, k) == pick(h, mark, k) + (if marks(e, mark, k) {
            seq![e]
        } else {
            Seq::empty()
        }),
        delta_text(h + seq![e], k) == delta_text(h, k) + fragment_of(e, k),
{
    lemma_single(e, mark, k);
    lemma_pick_concat(h, seq![e], mark, k);
    lemma_delta_concat(h, seq![e], k);
}

/// Whether an event says nothing of the output index `k`.
pub open spec fn silent(e: StreamEventV, k: int) -> bool {
    &&& !marks(e, Mark::Added, k)
    &&& !marks(e, Mark::ArgumentsDone, k)
    &&& !marks(e, Mark::ItemDone, k)
    &&& !marks(e, Mark::Delta, k)
    &&& fragment_of(e, k) == Seq::<char>::empty()
}

/// Events that say nothing of the output index `k` add nothing for it.
pub proof fn lemma_silent(events: Seq<StreamEventV>, mark: Mark, k: int)
    requires
        forall|j: int| 0 <= j < events.len() ==> silent(#[trigger] events[j], k),
    ensures
        pick(events, mark, k) == Seq::<StreamEventV>::empty(),
        delta_text(events, k) == Seq::<char>::empty(),
    decreases events.len(),
{
    if events.len() > 0 {
        let rest = events.drop_last();
        assert forall|j: int| 0 <= j < rest.len() implies silent(#[trigger] rest[j], k) by {
            assert(rest[j] == events[j]);
        }
        lemma_silent(rest, mark, k);
        assert(silent(events[events.len() - 1], k));
        assert(delta_text(events, k) =~= Seq::<char>::empty());
    }
}

/// Events of which none is of the kind `mark` for the output index `k`
/// give an empty pick.
pub proof fn lemma_unmarked(events: Seq<StreamEventV>, mark: Mark, k: int)
    requires
        forall|j: int| 0 <= j < events.len() ==> !marks(#[trigger] events[j], mark, k),
    ensures
        pick(events, mark, k) == Seq::<StreamEventV>::empty(),
    decreases events.len(),
{
    if events.len() > 0 {
        let rest = events.drop_last();
        assert forall|j: int| 0 <= j < rest.len() implies !marks(#[trigger] rest[j], mark, k) by {
            assert(rest[j] == events[j]);
        }
        lemma_unmarked(rest, mark, k);
        assert(!marks(events[events.len() - 1], mark, k));
    }
}

/// The events picked from numbered events carry numbers of that range.
pub proof fn lemma_pick_bound(h: Seq<StreamEventV>, mark: Mark, k: int, n: int)
    requires
        numbered(h, n),
    ensures
        forall|j: int|
            0 <= j < pick(h, mark, k).len() ==> n < (#[trigger] pick(h, mark, k)[j]).seq() <= n
                + h.len(),
    decreases h.len(),
{
    if h.len() > 0 {
        let rest = h.drop_last();
        assert(numbered(rest, n)) by {
            assert forall|i: int| 0 <= i < rest.len() implies (#[trigger] rest[i]).seq() == n + i
                + 1 by {
                assert(rest[i] == h[i]);
            }
        }
        lemma_pick_bound(rest, mark, k, n);
        assert(h.last() == h[h.len() - 1]);
        assert forall|j: int| 0 <= j < pick(h, mark, k).len() implies n < (#[trigger] pick(
            h,
            mark,
            k,
        )[j]).seq() <= n + h.len() by {
            if j < pick(rest, mark, k).len() {
                assert(pick(h, mark, k)[j] == pick(rest, mark, k)[j]);
            }
        }
    }
}

/// The picks and fragments of a whole call are those of its events before
/// the end and of the events that end its calls, where the other closing
/// events say nothing of the output index.
pub proof fn lemma_law_marks(
    before: Seq<StreamEventV>,
    e1: Seq<StreamEventV>,
    e2: Seq<StreamEventV>,
    e3: Seq<StreamEventV>,
    e4: Seq<StreamEventV>,
    mark: Mark,
    k: int,
)
    requires
        forall|j: int| 0 <= j < e1.len() ==> silent(#[trigger] e1[j], k),
        forall|j: int| 0 <= j < e2.len() ==> silent(#[trigger] e2[j], k),
        forall|j: int| 0 <= j < e4.len() ==> silent(#[trigger] e4[j], k),
    ensures
        pick((((before + e1) + e2) + e3) + e4, mark, k) == pick(before, mark, k) + pick(
            e3,
            mark,
            k,
        ),
        delta_text((((before + e1) + e2) + e3) + e4, k) == delta_text(before, k) + delta_text(
            e3,
            k,
        ),
{
    lemma_silent(e1, mark, k);
    lemma_silent(e2, mark, k);
    lemma_silent(e4, mark, k);
    lemma_pick_concat(before, e1, mark, k);
    lemma_pick_concat(before + e1, e2, mark, k);
    lemma_pick_concat((before + e1) + e2, e3, mark, k);
    lemma_pick_concat(((before + e1) + e2) + e3, e4, mark, k);
    lemma_delta_concat(before, e1, k);
    lemma_delta_concat(before + e1, e2, k);
    lemma_delta_concat((before + e1) + e2, e3, k);
    lemma_delta_concat(((before + e1) + e2) + e3, e4, k);
    assert(pick((((before + e1) + e2) + e3) + e4, mark, k) =~= pick(before, mark, k) + pick(
        e3,
        mark,
        k,
    ));
    assert(delta_text((((before + e1) + e2) + e3) + e4, k) =~= delta_text(before, k)
        + delta_text(e3, k));
}

} // verus!
