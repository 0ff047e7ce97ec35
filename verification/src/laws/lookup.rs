//! The tool call that a state holds for an output index.

use crate::transitions::ToolCallV;
use vstd::prelude::*;

verus! {

/// The call whose output index is `k`, if there is one.
pub open spec fn call_for(calls: Seq<ToolCallV>, k: int) -> Option<ToolCallV>
    decreases calls.len(),
{
    if calls.len() == 0 {
        None
    } else if calls.last().index + 1 == k {
        Some(calls.last())
    } else {
        call_for(calls.drop_last(), k)
    }
}

/// Among calls in order, the call at a position is the call for its output
/// index.
pub proof fn lemma_call_for_found(calls: Seq<ToolCallV>, k: int, i: int)
    requires
        crate::transitions::sorted(calls),
        0 <= i < calls.len(),
        calls[i].index + 1 == k,
    ensures
        call_for(calls, k) == Some(calls[i]),
    decreases calls.len(),
{
    if i < calls.len() - 1 {
        assert(calls[i].index < calls.last().index);
        let rest = calls.drop_last();
        assert(crate::transitions::sorted(rest)) by {
            assert forall|a: int, b: int| 0 <= a < b < rest.len() implies rest[a].index
                < rest[b].index by {
                assert(calls[a].index < calls[b].index);
            }
        }
        lemma_call_for_found(rest, k, i);
    }
}

/// The call for an output index is one of the calls; where there is none,
/// no call has that output index.
pub proof fn lemma_call_for_is(calls: Seq<ToolCallV>, k: int)
    ensures
        match call_for(calls, k) {
            Some(acc) => exists|i: int|
                0 <= i < calls.len() && #[trigger] calls[i] == acc && acc.index + 1 == k,
            None => forall|i: int| 0 <= i < calls.len() ==> (#[trigger] calls[i]).index + 1 != k,
        },
    decreases calls.len(),
{
    if calls.len() > 0 {
        if calls.last().index + 1 == k {
            assert(calls[calls.len() - 1] == calls.last());
        } else {
            let rest = calls.drop_last();
            lemma_call_for_is(rest, k);
            match call_for(rest, k) {
                Some(acc) => {
                    let i = choose|i: int|
                        0 <= i < rest.len() && #[trigger] rest[i] == acc && acc.index + 1 == k;
                    assert(calls[i] == acc);
                },
                None => {
                    assert forall|i: int| 0 <= i < calls.len() implies (#[trigger] calls[i]).index
                        + 1 != k by {
                        if i < rest.len() {
                            assert(rest[i] == calls[i]);
                        }
                    }
                },
            }
        }
    }
}

/// Where no call has the output index `k`, there is no call for it.
pub proof fn lemma_call_for_none(calls: Seq<ToolCallV>, k: int)
    requires
        forall|i: int| 0 <= i < calls.len() ==> (#[trigger] calls[i]).index + 1 != k,
    ensures
        call_for(calls, k) is None,
    decreases calls.len(),
{
    if calls.len() > 0 {
        assert(calls[calls.len() - 1] == calls.last());
        let rest = calls.drop_last();
        assert forall|i: int| 0 <= i < rest.len() implies (#[trigger] rest[i]).index + 1 != k by {
            assert(rest[i] == calls[i]);
        }
        lemma_call_for_none(rest, k);
    }
}

/// Putting the call `acc` at its slot makes it the call for its output
/// index and leaves the call for any other output index as it was.
pub proof fn lemma_put_call_for(calls: Seq<ToolCallV>, acc: ToolCallV, k: int)
    requires
        crate::transitions::sorted(calls),
        acc.index < u64::MAX,
    ensures
        ({
            let p = crate::transitions::slot(calls, acc.index, 0);
            let found = p < calls.len() && calls[p].index == acc.index;
            let after = crate::transitions::put_call(calls, p, found, acc);
            &&& call_for(after, k) == (if acc.index + 1 == k {
                Some(acc)
            } else {
                call_for(calls, k)
            })
            &&& call_for(calls, acc.index + 1) == (if found {
                Some(calls[p])
            } else {
                None
            })
        }),
{
    let idx = acc.index;
    let p = crate::transitions::slot(calls, idx, 0);
    let found = p < calls.len() && calls[p].index == idx;
    let after = crate::transitions::put_call(calls, p, found, acc);
    crate::transitions::lemma_slot(calls, idx, 0);
    crate::transitions::lemma_put_call_sorted(calls, idx, acc);
    if found {
        lemma_call_for_found(calls, idx + 1, p);
    } else {
        assert forall|i: int| 0 <= i < calls.len() implies (#[trigger] calls[i]).index + 1 != idx
            + 1 by {
            if i > p {
                assert(calls[p].index < calls[i].index);
            }
        }
        lemma_call_for_none(calls, idx + 1);
    }
    if idx + 1 == k {
        lemma_call_for_found(after, k, p);
    } else {
        lemma_call_for_is(calls, k);
        match call_for(calls, k) {
            Some(x) => {
                let i = choose|i: int|
                    0 <= i < calls.len() && #[trigger] calls[i] == x && x.index + 1 == k;
                if found {
                    assert(after[i] == calls[i]);
                    lemma_call_for_found(after, k, i);
                } else if i < p {
                    assert(after[i] == calls[i]);
                    lemma_call_for_found(after, k, i);
                } else {
                    assert(after[i + 1] == calls[i]);
                    lemma_call_for_found(after, k, i + 1);
                }
            },
            None => {
                assert forall|j: int| 0 <= j < after.len() implies (#[trigger] after[j]).index + 1
                    != k by {
                    if found {
                        if j != p {
                            assert(after[j] == calls[j]);
                        }
                    } else if j < p {
                        assert(after[j] == calls[j]);
                    } else if j > p {
                        assert(after[j] == calls[j - 1]);
                    }
                }
                lemma_call_for_none(after, k);
            },
        }
    }
}

/// The call at or after position `i` whose output index is `k`, if there
/// is one.
pub open spec fn call_from(calls: Seq<ToolCallV>, i: int, k: int) -> Option<ToolCallV>
    decreases calls.len() - i,
{
    if 0 <= i < calls.len() {
        if calls[i].index + 1 == k {
            Some(calls[i])
        } else {
            call_from(calls, i + 1, k)
        }
    } else {
        None
    }
}

/// Where no call from position `i` on has the output index `k`, there is
/// no call for it from there on.
pub proof fn lemma_call_from_none(calls: Seq<ToolCallV>, i: int, k: int)
    requires
        0 <= i,
        forall|j: int| i <= j < calls.len() ==> (#[trigger] calls[j]).index + 1 != k,
    ensures
        call_from(calls, i, k) is None,
    decreases calls.len() - i,
{
    if i < calls.len() {
        lemma_call_from_none(calls, i + 1, k);
    }
}

/// Among calls in order, the call at a position is the call for its output
/// index from any earlier position on.
pub proof fn lemma_call_from_found(calls: Seq<ToolCallV>, i: int, j: int, k: int)
    requires
        crate::transitions::sorted(calls),
        0 <= i <= j < calls.len(),
        calls[j].index + 1 == k,
    ensures
        call_from(calls, i, k) == Some(calls[j]),
    decreases j - i,
{
    if i < j {
        assert(calls[i].index < calls[j].index);
        lemma_call_from_found(calls, i + 1, j, k);
    }
}

} // verus!
