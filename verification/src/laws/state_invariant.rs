//! The invariant of the state at every point of a call.

use crate::laws::{feed_all, state_at_end, Chunk};
use crate::request::TranslatedRequestV;
use crate::transitions::{feed_text, finish, initial, start, Phase, StreamV};
use vstd::prelude::*;

verus! {

/// A run of chunks keeps the invariant of the state.
pub proof fn lemma_feed_all_wf(s: StreamV, c: u64, chunks: Seq<Chunk>, i: int)
    requires
        crate::transitions::wf(s),
    ensures
        crate::transitions::wf(feed_all(s, c, chunks, i).state),
    decreases chunks.len() - i,
{
    if 0 <= i < chunks.len() {
        let a = feed_text(s, c, chunks[i].stamp, chunks[i].text);
        if s.phase == Phase::Open {
            let all = s.buffer + chunks[i].text;
            crate::transitions::lemma_fold_texts(
                StreamV { buffer: crate::sse::remainder(all), ..s },
                c,
                chunks[i].stamp,
                crate::sse::payloads(all),
                0,
            );
        }
        lemma_feed_all_wf(a.state, a.counter, chunks, i + 1);
    }
}

/// State invariant: at every point of a call (when it is made, after its
/// opening, after any number of chunks, and after its end) the tool calls
/// stand in strictly ascending order of their index, and the sequence
/// number of the last event fits in 64 bits together with those that the
/// end of the call may still need.
pub proof fn law_state_invariant(
    request: TranslatedRequestV,
    message_id: Seq<char>,
    c: u64,
    opened: i64,
    chunks: Seq<Chunk>,
    ended: i64,
)
    ensures
        crate::transitions::wf(initial(request, message_id)),
        crate::transitions::wf(start(initial(request, message_id), opened).state),
        crate::transitions::wf(state_at_end(initial(request, message_id), c, opened, chunks)),
        crate::transitions::wf(
            finish(state_at_end(initial(request, message_id), c, opened, chunks), ended).state,
        ),
{
    let s = initial(request, message_id);
    let a = start(s, opened);
    lemma_feed_all_wf(a.state, c, chunks, 0);
    crate::transitions::lemma_finish(feed_all(a.state, c, chunks, 0).state, ended);
}

} // verus!
