//! The opening and the terminal events of a call.

use crate::events::StreamEventV;
use crate::json::JsonV;
use crate::laws::{call_events_of, feed_all, state_at_end, Chunk};
use crate::laws::echo::echoes;
use crate::laws::tool_calls::lemma_drain_kinds;
use crate::request::TranslatedRequestV;
use crate::transitions::{
    call_events, choice_fragment, choice_tools, closing_events, drain_events, feed_text,
    final_message, final_response, finish, fold_choices, fold_texts, fold_tools, has_room,
    initial, keeps_message, response_base, start, step_choice, step_payload, step_tool,
    with_usage, Phase, Step, StreamV, ToolCallV,
};
use vstd::prelude::*;

verus! {

/// Whether every event is a delta or the announcement of an item: the
/// events that a payload can bring.
pub open spec fn quiet(events: Seq<StreamEventV>) -> bool {
    forall|i: int|
        0 <= i < events.len() ==> ((#[trigger] events[i]) is TextDelta || events[i] is ItemAdded
            || events[i] is ArgumentsDelta)
}

/// Two runs of such events make one.
pub proof fn lemma_quiet_concat(a: Seq<StreamEventV>, b: Seq<StreamEventV>)
    requires
        quiet(a),
        quiet(b),
    ensures
        quiet(a + b),
{
    assert forall|i: int| 0 <= i < (a + b).len() implies ((#[trigger] (a + b)[i]) is TextDelta || (a
        + b)[i] is ItemAdded || (a + b)[i] is ArgumentsDelta) by {
        if i < a.len() {
            assert((a + b)[i] == a[i]);
        } else {
            assert((a + b)[i] == b[i - a.len()]);
        }
    }
}

/// A run of tool-call deltas brings only deltas and announcements, and
/// leaves the request and the message as they are.
pub proof fn lemma_fold_tools_quiet(s: StreamV, c: u64, stamp: nat, tcs: Seq<JsonV>, i: int)
    ensures
        quiet(fold_tools(s, c, stamp, tcs, i).events),
        fold_tools(s, c, stamp, tcs, i).state.request == s.request,
        fold_tools(s, c, stamp, tcs, i).state.message_id == s.message_id,
    decreases tcs.len() - i,
{
    if 0 <= i < tcs.len() {
        let a = step_tool(s, c, stamp, tcs[i]);
        lemma_fold_tools_quiet(a.state, a.counter, stamp, tcs, i + 1);
        lemma_quiet_concat(a.events, fold_tools(a.state, a.counter, stamp, tcs, i + 1).events);
    }
}

/// A run of choices brings only deltas and announcements, and leaves the
/// request and the message as they are.
pub proof fn lemma_fold_choices_quiet(s: StreamV, c: u64, stamp: nat, choices: Seq<JsonV>, i: int)
    ensures
        quiet(fold_choices(s, c, stamp, choices, i).events),
        fold_choices(s, c, stamp, choices, i).state.request == s.request,
        fold_choices(s, c, stamp, choices, i).state.message_id == s.message_id,
    decreases choices.len() - i,
{
    if 0 <= i < choices.len() {
        let choice = choices[i];
        let s1 = match choice.get_str("finish_reason"@) {
            Some(reason) => StreamV { finish_reason: reason, ..s },
            None => s,
        };
        match choice_fragment(choice) {
            Some(t) => {
                let s2 = StreamV { text: s1.text + t, sequence: s1.sequence + 1, ..s1 };
                lemma_fold_tools_quiet(s2, c, stamp, choice_tools(choice), 0);
                lemma_quiet_concat(
                    seq![
                        StreamEventV::TextDelta {
                            seq: s1.sequence + 1,
                            item_id: s1.message_id,
                            delta: t,
                        },
                    ],
                    fold_tools(s2, c, stamp, choice_tools(choice), 0).events,
                );
            },
            None => {
                lemma_fold_tools_quiet(s1, c, stamp, choice_tools(choice), 0);
            },
        }
        let a = step_choice(s, c, stamp, choice);
        lemma_fold_choices_quiet(a.state, a.counter, stamp, choices, i + 1);
        lemma_quiet_concat(
            a.events,
            fold_choices(a.state, a.counter, stamp, choices, i + 1).events,
        );
    }
}

/// A run of payload texts brings only deltas and announcements, and leaves
/// the request and the message as they are.
pub proof fn lemma_fold_texts_quiet(s: StreamV, c: u64, stamp: nat, texts: Seq<Seq<char>>, i: int)
    ensures
        quiet(fold_texts(s, c, stamp, texts, i).events),
        fold_texts(s, c, stamp, texts, i).state.request == s.request,
        fold_texts(s, c, stamp, texts, i).state.message_id == s.message_id,
    decreases texts.len() - i,
{
    if 0 <= i < texts.len() {
        let a = match crate::codec::json_parse(texts[i]) {
            Some(p) => step_payload(s, c, stamp, p),
            None => Step { state: s, counter: c, events: Seq::empty() },
        };
        match crate::codec::json_parse(texts[i]) {
            Some(p) => {
                if s.phase == Phase::Open && has_room(s, p) {
                    match p.get_array("choices"@) {
                        Some(choices) => {
                            lemma_fold_choices_quiet(with_usage(s, p), c, stamp, choices, 0);
                        },
                        None => {},
                    }
                }
            },
            None => {},
        }
        lemma_fold_texts_quiet(a.state, a.counter, stamp, texts, i + 1);
        lemma_quiet_concat(a.events, fold_texts(a.state, a.counter, stamp, texts, i + 1).events);
    }
}

/// A run of chunks brings only deltas and announcements, and leaves the
/// request and the message as they are.
pub proof fn lemma_feed_all_quiet(s: StreamV, c: u64, chunks: Seq<Chunk>, i: int)
    ensures
        quiet(feed_all(s, c, chunks, i).events),
        feed_all(s, c, chunks, i).state.request == s.request,
        feed_all(s, c, chunks, i).state.message_id == s.message_id,
    decreases chunks.len() - i,
{
    if 0 <= i < chunks.len() {
        let a = feed_text(s, c, chunks[i].stamp, chunks[i].text);
        if s.phase == Phase::Open {
            let all = s.buffer + chunks[i].text;
            lemma_fold_texts_quiet(
                StreamV { buffer: crate::sse::remainder(all), ..s },
                c,
                chunks[i].stamp,
                crate::sse::payloads(all),
                0,
            );
        }
        lemma_feed_all_quiet(a.state, a.counter, chunks, i + 1);
        lemma_quiet_concat(a.events, feed_all(a.state, a.counter, chunks, i + 1).events);
    }
}

/// The events that end the tool calls carry no response object.
pub proof fn lemma_drain_plain(calls: Seq<ToolCallV>, i: int, n: int)
    ensures
        forall|j: int|
            0 <= j < drain_events(calls, i, n).len() ==> !((#[trigger] drain_events(
                calls,
                i,
                n,
            )[j]) is Created) && !(drain_events(calls, i, n)[j] is InProgress) && !(drain_events(
                calls,
                i,
                n,
            )[j] is Finished),
    decreases calls.len() - i,
{
    if 0 <= i < calls.len() {
        let here = call_events(calls[i], n);
        let rest = drain_events(calls, i + 1, n + here.len());
        lemma_drain_plain(calls, i + 1, n + here.len());
        let all = drain_events(calls, i, n);
        assert forall|j: int| 0 <= j < all.len() implies !((#[trigger] all[j]) is Created) && !(
        all[j] is InProgress) && !(all[j] is Finished) by {
            if j < here.len() {
                assert(all[j] == here[j]);
            } else {
                assert(all[j] == rest[j - here.len()]);
            }
        }
    }
}

/// Frame of a call: the events of a call begin with its four opening
/// events, which carry the response object of the request in progress,
/// without output and without a time of completion; no other event is an
/// opening event; and a terminal event, if there is one, is the last event
/// of the call and the only one. A call that reached its end has one.
pub proof fn law_call_frame(
    request: TranslatedRequestV,
    message_id: Seq<char>,
    c: u64,
    opened: i64,
    chunks: Seq<Chunk>,
    ended: i64,
)
    ensures
        ({
            let end = state_at_end(initial(request, message_id), c, opened, chunks);
            let h = call_events_of(initial(request, message_id), c, opened, chunks, ended);
            let base = response_base(request, opened);
            &&& h.len() >= 4
            &&& h[0] == (StreamEventV::Created { seq: 1, response: base })
            &&& h[1] == (StreamEventV::InProgress { seq: 2, response: base })
            &&& h[2] == (StreamEventV::ItemAdded {
                seq: 3,
                output_index: 0,
                item: crate::transitions::opening_item(message_id),
            })
            &&& h[3] == (StreamEventV::PartAdded { seq: 4, item_id: message_id })
            &&& base.id == request.resp_id && base.model == request.model && base.status
                == crate::shape::Status::InProgress && base.output.len() == 0
                && base.completed_at is None && echoes(base, request)
            &&& forall|i: int|
                4 <= i < h.len() ==> !((#[trigger] h[i]) is Created) && !(h[i] is InProgress)
                    && !(h[i] is PartAdded)
            &&& forall|i: int|
                0 <= i < h.len() && (#[trigger] h[i]) is Finished ==> end.phase == Phase::Open && i
                    == h.len() - 1
            &&& end.phase == Phase::Open ==> h.last() is Finished
        }),
{
    let s = initial(request, message_id);
    let a = start(s, opened);
    let b = feed_all(a.state, c, chunks, 0);
    let end = b.state;
    let z = finish(end, ended);
    let h = call_events_of(s, c, opened, chunks, ended);
    lemma_feed_all_quiet(a.state, c, chunks, 0);
    assert(h =~= (a.events + b.events) + z.events);
    assert(h[0] == a.events[0]);
    assert(h[1] == a.events[1]);
    assert(h[2] == a.events[2]);
    assert(h[3] == a.events[3]);
    if end.phase == Phase::Open {
        let e1 = closing_events(end);
        let n1 = end.sequence + e1.len();
        let e2: Seq<StreamEventV> = if keeps_message(end) {
            seq![StreamEventV::ItemDone { seq: n1 + 1, output_index: 0, item: final_message(end) }]
        } else {
            Seq::empty()
        };
        let n2 = n1 + e2.len();
        let e3 = drain_events(end.calls, 0, n2);
        let n3 = n2 + e3.len();
        let e4 = seq![StreamEventV::Finished { seq: n3 + 1, response: final_response(end, ended) }];
        lemma_drain_plain(end.calls, 0, n2);
        assert(z.events =~= ((e1 + e2) + e3) + e4);
        assert(h.last() == e4[0]);
        assert forall|i: int| 4 <= i < h.len() implies !((#[trigger] h[i]) is Created) && !(
        h[i] is InProgress) && !(h[i] is PartAdded) && (h[i] is Finished ==> i == h.len() - 1) by {
            if i < 4 + b.events.len() {
                let x = b.events[i - 4];
                assert(h[i] == x);
                assert(x is TextDelta || x is ItemAdded || x is ArgumentsDelta);
            } else {
                let j = i - 4 - b.events.len();
                assert(h[i] == z.events[j]);
                assert(h.len() == 4 + b.events.len() + z.events.len());
                assert(z.events.len() == e1.len() + e2.len() + e3.len() + 1);
                if j < e1.len() {
                    assert(z.events[j] == e1[j]);
                    assert(e1[j] is TextDone || e1[j] is PartDone);
                } else if j < e1.len() + e2.len() {
                    assert(z.events[j] == e2[j - e1.len()]);
                    assert(e2[j - e1.len()] is ItemDone);
                } else if j < e1.len() + e2.len() + e3.len() {
                    let y = e3[j - e1.len() - e2.len()];
                    assert(z.events[j] == y);
                    lemma_drain_kinds(end.calls, 0, n2);
                    assert(y is ItemAdded || y is ArgumentsDone || y is ItemDone);
                } else {
                    assert(z.events[j] == e4[0]);
                }
            }
        }
    } else {
        assert(h =~= a.events + b.events);
        assert forall|i: int| 4 <= i < h.len() implies !((#[trigger] h[i]) is Created) && !(
        h[i] is InProgress) && !(h[i] is PartAdded) && !(h[i] is Finished) by {
            let x = b.events[i - 4];
            assert(h[i] == x);
            assert(x is TextDelta || x is ItemAdded || x is ArgumentsDelta);
        }
    }
}

} // verus!
