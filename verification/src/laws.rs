//! What holds of a whole streaming call, and of the translators together:
//! statements over the transitions, each with its proof.

pub mod delivery;
pub mod echo;
pub mod frame;
pub mod identifiers;
pub mod lookup;
pub mod members;
pub mod message_text;
pub mod numbering;
pub mod owners;
pub mod picks;
pub mod rejections;
pub mod round_trip;
pub mod state_invariant;
pub mod tool_calls;

use crate::events::StreamEventV;
use crate::transitions::{feed_text, finish, start, Step, StreamV};
use vstd::prelude::*;

verus! {

/// One chunk of upstream text, and the time at which the identifiers of the
/// items it opens are minted.
pub struct Chunk {
    pub text: Seq<char>,
    pub stamp: nat,
}

/// The chunks from position `i` on, fed one after the other.
pub open spec fn feed_all(s: StreamV, c: u64, chunks: Seq<Chunk>, i: int) -> Step
    decreases chunks.len() - i,
{
    if 0 <= i < chunks.len() {
        let a = feed_text(s, c, chunks[i].stamp, chunks[i].text);
        let b = feed_all(a.state, a.counter, chunks, i + 1);
        Step { state: b.state, counter: b.counter, events: a.events + b.events }
    } else {
        Step { state: s, counter: c, events: Seq::empty() }
    }
}

/// The state in which a call is when its upstream stream has ended: after
/// its opening and all its chunks.
pub open spec fn state_at_end(s: StreamV, c: u64, now: i64, chunks: Seq<Chunk>) -> StreamV {
    feed_all(start(s, now).state, c, chunks, 0).state
}

/// All events of a call, in the order in which they are emitted: those of
/// its opening at `opened`, of its chunks, and of its end at `ended`.
pub open spec fn call_events_of(
    s: StreamV,
    c: u64,
    opened: i64,
    chunks: Seq<Chunk>,
    ended: i64,
) -> Seq<StreamEventV> {
    start(s, opened).events + feed_all(start(s, opened).state, c, chunks, 0).events + finish(
        state_at_end(s, c, opened, chunks),
        ended,
    ).events
}

} // verus!
