//! The sequence numbers of the events of a call.

use crate::events::StreamEventV;
use crate::json::JsonV;
use crate::laws::{call_events_of, feed_all, Chunk};
use crate::request::TranslatedRequestV;
use crate::transitions::{
    call_events, choice_fragment, choice_tools, closing_events, drain_events, feed_text,
    final_message, final_response, finish, fold_choices, fold_texts, fold_tools, has_room,
    initial, keeps_message, start, step_choice, step_payload, step_tool, with_usage, Phase,
    Step, StreamV, ToolCallV,
};
use vstd::prelude::*;

verus! {

/// Whether the events carry the sequence numbers `n + 1`, `n + 2`, and so
/// on, in this order.
pub open spec fn numbered(events: Seq<StreamEventV>, n: int) -> bool {
    forall|i: int| 0 <= i < events.len() ==> (#[trigger] events[i]).seq() == n + i + 1
}

/// Events numbered from `n`, followed by events numbered from where the
/// first end, are numbered from `n`.
pub proof fn lemma_numbered_concat(a: Seq<StreamEventV>, b: Seq<StreamEventV>, n: int)
    requires
        numbered(a, n),
        numbered(b, n + a.len()),
    ensures
        numbered(a + b, n),
{
    assert forall|i: int| 0 <= i < (a + b).len() implies (#[trigger] (a + b)[i]).seq() == n + i
        + 1 by {
        if i < a.len() {
            assert((a + b)[i] == a[i]);
        } else {
            assert((a + b)[i] == b[i - a.len()]);
        }
    }
}

/// The events of one tool-call delta continue the numbering.
pub proof fn lemma_step_tool_numbered(s: StreamV, c: u64, stamp: nat, tc: JsonV)
    ensures
        numbered(step_tool(s, c, stamp, tc).events, s.sequence),
        step_tool(s, c, stamp, tc).state.sequence == s.sequence + step_tool(
            s,
            c,
            stamp,
            tc,
        ).events.len(),
{
}

/// The events of a run of tool-call deltas continue the numbering.
pub proof fn lemma_fold_tools_numbered(s: StreamV, c: u64, stamp: nat, tcs: Seq<JsonV>, i: int)
    ensures
        numbered(fold_tools(s, c, stamp, tcs, i).events, s.sequence),
        fold_tools(s, c, stamp, tcs, i).state.sequence == s.sequence + fold_tools(
            s,
            c,
            stamp,
            tcs,
            i,
        ).events.len(),
    decreases tcs.len() - i,
{
    if 0 <= i < tcs.len() {
        let a = step_tool(s, c, stamp, tcs[i]);
        lemma_step_tool_numbered(s, c, stamp, tcs[i]);
        lemma_fold_tools_numbered(a.state, a.counter, stamp, tcs, i + 1);
        lemma_numbered_concat(
            a.events,
            fold_tools(a.state, a.counter, stamp, tcs, i + 1).events,
            s.sequence,
        );
    }
}

/// The events of one choice continue the numbering.
pub proof fn lemma_step_choice_numbered(s: StreamV, c: u64, stamp: nat, choice: JsonV)
    ensures
        numbered(step_choice(s, c, stamp, choice).events, s.sequence),
        step_choice(s, c, stamp, choice).state.sequence == s.sequence + step_choice(
            s,
            c,
            stamp,
            choice,
        ).events.len(),
{
    let s1 = match choice.get_str("finish_reason"@) {
        Some(reason) => StreamV { finish_reason: reason, ..s },
        None => s,
    };
    match choice_fragment(choice) {
        Some(t) => {
            let s2 = StreamV { text: s1.text + t, sequence: s1.sequence + 1, ..s1 };
            lemma_fold_tools_numbered(s2, c, stamp, choice_tools(choice), 0);
            let first = seq![
                StreamEventV::TextDelta { seq: s1.sequence + 1, item_id: s1.message_id, delta: t },
            ];
            lemma_numbered_concat(
                first,
                fold_tools(s2, c, stamp, choice_tools(choice), 0).events,
                s.sequence,
            );
        },
        None => {
            lemma_fold_tools_numbered(s1, c, stamp, choice_tools(choice), 0);
        },
    }
}

/// The events of a run of choices continue the numbering.
pub proof fn lemma_fold_choices_numbered(
    s: StreamV,
    c: u64,
    stamp: nat,
    choices: Seq<JsonV>,
    i: int,
)
    ensures
        numbered(fold_choices(s, c, stamp, choices, i).events, s.sequence),
        fold_choices(s, c, stamp, choices, i).state.sequence == s.sequence + fold_choices(
            s,
            c,
            stamp,
            choices,
            i,
        ).events.len(),
    decreases choices.len() - i,
{
    if 0 <= i < choices.len() {
        let a = step_choice(s, c, stamp, choices[i]);
        lemma_step_choice_numbered(s, c, stamp, choices[i]);
        lemma_fold_choices_numbered(a.state, a.counter, stamp, choices, i + 1);
        lemma_numbered_concat(
            a.events,
            fold_choices(a.state, a.counter, stamp, choices, i + 1).events,
            s.sequence,
        );
    }
}

/// The events of one payload continue the numbering.
pub proof fn lemma_step_payload_numbered(s: StreamV, c: u64, stamp: nat, payload: JsonV)
    ensures
        numbered(step_payload(s, c, stamp, payload).events, s.sequence),
        step_payload(s, c, stamp, payload).state.sequence == s.sequence + step_payload(
            s,
            c,
            stamp,
            payload,
        ).events.len(),
{
    if s.phase == Phase::Open && has_room(s, payload) {
        match payload.get_array("choices"@) {
            Some(choices) => {
                lemma_fold_choices_numbered(with_usage(s, payload), c, stamp, choices, 0);
            },
            None => {},
        }
    }
}

/// The events of a run of payload texts continue the numbering.
pub proof fn lemma_fold_texts_numbered(
    s: StreamV,
    c: u64,
    stamp: nat,
    texts: Seq<Seq<char>>,
    i: int,
)
    ensures
        numbered(fold_texts(s, c, stamp, texts, i).events, s.sequence),
        fold_texts(s, c, stamp, texts, i).state.sequence == s.sequence + fold_texts(
            s,
            c,
            stamp,
            texts,
            i,
        ).events.len(),
    decreases texts.len() - i,
{
    if 0 <= i < texts.len() {
        let a = match crate::codec::json_parse(texts[i]) {
            Some(p) => step_payload(s, c, stamp, p),
            None => Step { state: s, counter: c, events: Seq::empty() },
        };
        match crate::codec::json_parse(texts[i]) {
            Some(p) => {
                lemma_step_payload_numbered(s, c, stamp, p);
            },
            None => {},
        }
        lemma_fold_texts_numbered(a.state, a.counter, stamp, texts, i + 1);
        lemma_numbered_concat(
            a.events,
            fold_texts(a.state, a.counter, stamp, texts, i + 1).events,
            s.sequence,
        );
    }
}

/// The events of one chunk continue the numbering.
pub proof fn lemma_feed_numbered(s: StreamV, c: u64, stamp: nat, text: Seq<char>)
    ensures
        numbered(feed_text(s, c, stamp, text).events, s.sequence),
        feed_text(s, c, stamp, text).state.sequence == s.sequence + feed_text(
            s,
            c,
            stamp,
            text,
        ).events.len(),
{
    if s.phase == Phase::Open {
        let all = s.buffer + text;
        lemma_fold_texts_numbered(
            StreamV { buffer: crate::sse::remainder(all), ..s },
            c,
            stamp,
            crate::sse::payloads(all),
            0,
        );
    }
}

/// The events of a run of chunks continue the numbering.
pub proof fn lemma_feed_all_numbered(s: StreamV, c: u64, chunks: Seq<Chunk>, i: int)
    ensures
        numbered(feed_all(s, c, chunks, i).events, s.sequence),
        feed_all(s, c, chunks, i).state.sequence == s.sequence + feed_all(
            s,
            c,
            chunks,
            i,
        ).events.len(),
    decreases chunks.len() - i,
{
    if 0 <= i < chunks.len() {
        let a = feed_text(s, c, chunks[i].stamp, chunks[i].text);
        lemma_feed_numbered(s, c, chunks[i].stamp, chunks[i].text);
        lemma_feed_all_numbered(a.state, a.counter, chunks, i + 1);
        lemma_numbered_concat(
            a.events,
            feed_all(a.state, a.counter, chunks, i + 1).events,
            s.sequence,
        );
    }
}

/// The events that end the tool calls are numbered from `n`.
pub proof fn lemma_drain_numbered(calls: Seq<ToolCallV>, i: int, n: int)
    ensures
        numbered(drain_events(calls, i, n), n),
    decreases calls.len() - i,
{
    if 0 <= i < calls.len() {
        let here = call_events(calls[i], n);
        lemma_drain_numbered(calls, i + 1, n + here.len());
        lemma_numbered_concat(here, drain_events(calls, i + 1, n + here.len()), n);
    }
}

/// The events of the end continue the numbering.
pub proof fn lemma_finish_numbered(s: StreamV, now: i64)
    ensures
        numbered(finish(s, now).events, s.sequence),
{
    if s.phase == Phase::Open {
        let e1 = closing_events(s);
        let n1 = s.sequence + e1.len();
        let e2: Seq<StreamEventV> = if keeps_message(s) {
            seq![StreamEventV::ItemDone { seq: n1 + 1, output_index: 0, item: final_message(s) }]
        } else {
            Seq::empty()
        };
        let n2 = n1 + e2.len();
        let e3 = drain_events(s.calls, 0, n2);
        let n3 = n2 + e3.len();
        let e4 = seq![StreamEventV::Finished { seq: n3 + 1, response: final_response(s, now) }];
        lemma_drain_numbered(s.calls, 0, n2);
        lemma_numbered_concat(e1, e2, s.sequence);
        lemma_numbered_concat(e1 + e2, e3, s.sequence);
        lemma_numbered_concat(e1 + e2 + e3, e4, s.sequence);
    }
}

/// Sequence numbers: the events of a whole call, in the order in which
/// they are emitted, carry the numbers 1, 2, 3 and so on, without a gap
/// and without a repeat.
pub proof fn law_sequence_numbers(
    request: TranslatedRequestV,
    message_id: Seq<char>,
    c: u64,
    opened: i64,
    chunks: Seq<Chunk>,
    ended: i64,
)
    ensures
        forall|i: int|
            0 <= i < call_events_of(
                initial(request, message_id),
                c,
                opened,
                chunks,
                ended,
            ).len() ==> (#[trigger] call_events_of(
                initial(request, message_id),
                c,
                opened,
                chunks,
                ended,
            )[i]).seq() == i + 1,
{
    let s = initial(request, message_id);
    let a = start(s, opened);
    let b = feed_all(a.state, c, chunks, 0);
    let z = finish(b.state, ended);
    assert(numbered(a.events, 0));
    lemma_feed_all_numbered(a.state, c, chunks, 0);
    lemma_finish_numbered(b.state, ended);
    lemma_numbered_concat(a.events, b.events, 0);
    lemma_numbered_concat(a.events + b.events, z.events, 0);
}

} // verus!
