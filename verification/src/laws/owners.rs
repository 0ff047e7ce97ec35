//! Every event speaks of the tool call of its output index.

use crate::events::StreamEventV;
use crate::json::JsonV;
use crate::laws::{call_events_of, feed_all, state_at_end, Chunk};
use crate::laws::state_invariant::lemma_feed_all_wf;
use crate::laws::lookup::{call_for, lemma_call_for_found, lemma_call_for_is, lemma_put_call_for};
use crate::request::TranslatedRequestV;
use crate::shape::OutputItemV;
use crate::transitions::{
    call_events, choice_fragment, choice_tools, closing_events, delta_arguments, delta_index,
    drain_events, feed_text, final_message, final_response, finish, fold_choices, fold_texts,
    fold_tools, fresh_call, has_room, initial, keeps_message, named_call, start, step_choice,
    step_payload, step_tool, with_usage, Phase, Step, StreamV, ToolCallV,
};
use vstd::prelude::*;

verus! {

/// Whether an event that speaks of a tool call speaks of the call that the
/// calls hold for its output index, under the item identifier of that
/// call. The output index 0 is that of the message.
pub open spec fn owner_ok(calls: Seq<ToolCallV>, e: StreamEventV) -> bool {
    match e {
        StreamEventV::ItemAdded { output_index, item, .. } => output_index == 0 || (call_for(
            calls,
            output_index,
        ) matches Some(acc) && item matches OutputItemV::FunctionCall { id, .. } && id
            == acc.item_id),
        StreamEventV::ItemDone { output_index, item, .. } => output_index == 0 || (call_for(
            calls,
            output_index,
        ) matches Some(acc) && item matches OutputItemV::FunctionCall { id, .. } && id
            == acc.item_id),
        StreamEventV::ArgumentsDelta { item_id, output_index, .. } => call_for(
            calls,
            output_index,
        ) matches Some(acc) && item_id == acc.item_id,
        StreamEventV::ArgumentsDone { item_id, output_index, .. } => call_for(
            calls,
            output_index,
        ) matches Some(acc) && item_id == acc.item_id,
        _ => true,
    }
}

/// Whether every event speaks of the call that the calls hold for its
/// output index.
pub open spec fn owned(calls: Seq<ToolCallV>, h: Seq<StreamEventV>) -> bool {
    forall|j: int| 0 <= j < h.len() ==> owner_ok(calls, #[trigger] h[j])
}

/// One tool-call delta keeps the item identifier of every call.
pub proof fn lemma_step_tool_ids(s: StreamV, c: u64, stamp: nat, tc: JsonV, k: int)
    requires
        crate::transitions::sorted(s.calls),
        call_for(s.calls, k) is Some,
    ensures
        call_for(step_tool(s, c, stamp, tc).state.calls, k) is Some,
        call_for(step_tool(s, c, stamp, tc).state.calls, k)->0.item_id == call_for(
            s.calls,
            k,
        )->0.item_id,
{
    let idx = delta_index(tc);
    if idx != u64::MAX {
        let p = crate::transitions::slot(s.calls, idx, 0);
        let found = p < s.calls.len() && s.calls[p].index == idx;
        let before = if found {
            s.calls[p]
        } else {
            fresh_call(tc, crate::ids::id_text("fc"@, stamp, c as nat))
        };
        let acc = named_call(before, tc);
        match delta_arguments(tc) {
            None => {
                lemma_put_call_for(s.calls, acc, k);
            },
            Some(a) => {
                lemma_put_call_for(s.calls, crate::transitions::argued_call(acc, a), k);
            },
        }
    }
}

/// An event that speaks of the call for its output index still does so
/// after one tool-call delta.
pub proof fn lemma_owner_kept(s: StreamV, c: u64, stamp: nat, tc: JsonV, e: StreamEventV)
    requires
        crate::transitions::sorted(s.calls),
        owner_ok(s.calls, e),
    ensures
        owner_ok(step_tool(s, c, stamp, tc).state.calls, e),
{
    match e {
        StreamEventV::ItemAdded { output_index, .. } => {
            if output_index != 0 {
                lemma_step_tool_ids(s, c, stamp, tc, output_index);
            }
        },
        StreamEventV::ItemDone { output_index, .. } => {
            if output_index != 0 {
                lemma_step_tool_ids(s, c, stamp, tc, output_index);
            }
        },
        StreamEventV::ArgumentsDelta { output_index, .. } => {
            lemma_step_tool_ids(s, c, stamp, tc, output_index);
        },
        StreamEventV::ArgumentsDone { output_index, .. } => {
            lemma_step_tool_ids(s, c, stamp, tc, output_index);
        },
        _ => {},
    }
}

/// One tool-call delta keeps every event with the call for its output
/// index, and its own events speak of the call it names.
pub proof fn lemma_step_tool_owned(
    s: StreamV,
    c: u64,
    stamp: nat,
    tc: JsonV,
    h: Seq<StreamEventV>,
)
    requires
        crate::transitions::sorted(s.calls),
        owned(s.calls, h),
    ensures
        owned(step_tool(s, c, stamp, tc).state.calls, h + step_tool(s, c, stamp, tc).events),
{
    let r = step_tool(s, c, stamp, tc);
    let all = h + r.events;
    let idx = delta_index(tc);
    assert forall|j: int| 0 <= j < all.len() implies owner_ok(r.state.calls, #[trigger] all[j]) by {
        if j < h.len() {
            assert(all[j] == h[j]);
            lemma_owner_kept(s, c, stamp, tc, h[j]);
        } else {
            assert(all[j] == r.events[j - h.len()]);
            let p = crate::transitions::slot(s.calls, idx, 0);
            let found = p < s.calls.len() && s.calls[p].index == idx;
            let before = if found {
                s.calls[p]
            } else {
                fresh_call(tc, crate::ids::id_text("fc"@, stamp, c as nat))
            };
            let acc = named_call(before, tc);
            let a = delta_arguments(tc)->0;
            lemma_put_call_for(s.calls, crate::transitions::argued_call(acc, a), idx + 1);
        }
    }
}

/// A run of tool-call deltas keeps every event with the call for its
/// output index.
pub proof fn lemma_fold_tools_owned(
    s: StreamV,
    c: u64,
    stamp: nat,
    tcs: Seq<JsonV>,
    i: int,
    h: Seq<StreamEventV>,
)
    requires
        crate::transitions::sorted(s.calls),
        owned(s.calls, h),
    ensures
        owned(fold_tools(s, c, stamp, tcs, i).state.calls, h + fold_tools(s, c, stamp, tcs, i).events),
    decreases tcs.len() - i,
{
    if 0 <= i < tcs.len() {
        let a = step_tool(s, c, stamp, tcs[i]);
        let b = fold_tools(a.state, a.counter, stamp, tcs, i + 1);
        lemma_step_tool_owned(s, c, stamp, tcs[i], h);
        crate::transitions::lemma_step_tool(s, c, stamp, tcs[i]);
        lemma_fold_tools_owned(a.state, a.counter, stamp, tcs, i + 1, h + a.events);
        assert(h + (a.events + b.events) =~= (h + a.events) + b.events);
    } else {
        assert(h + Seq::<StreamEventV>::empty() =~= h);
    }
}

/// A run of choices keeps every event with the call for its output index.
pub proof fn lemma_fold_choices_owned(
    s: StreamV,
    c: u64,
    stamp: nat,
    choices: Seq<JsonV>,
    i: int,
    h: Seq<StreamEventV>,
)
    requires
        crate::transitions::sorted(s.calls),
        owned(s.calls, h),
    ensures
        owned(
            fold_choices(s, c, stamp, choices, i).state.calls,
            h + fold_choices(s, c, stamp, choices, i).events,
        ),
    decreases choices.len() - i,
{
    if 0 <= i < choices.len() {
        let choice = choices[i];
        let s1 = match choice.get_str("finish_reason"@) {
            Some(reason) => StreamV { finish_reason: reason, ..s },
            None => s,
        };
        let a = step_choice(s, c, stamp, choice);
        match choice_fragment(choice) {
            Some(t) => {
                let s2 = StreamV { text: s1.text + t, sequence: s1.sequence + 1, ..s1 };
                let e = StreamEventV::TextDelta {
                    seq: s1.sequence + 1,
                    item_id: s1.message_id,
                    delta: t,
                };
                assert(owned(s2.calls, h + seq![e])) by {
                    assert forall|j: int| 0 <= j < (h + seq![e]).len() implies owner_ok(
                        s2.calls,
                        #[trigger] (h + seq![e])[j],
                    ) by {
                        if j < h.len() {
                            assert((h + seq![e])[j] == h[j]);
                        }
                    }
                }
                lemma_fold_tools_owned(s2, c, stamp, choice_tools(choice), 0, h + seq![e]);
                let tools = fold_tools(s2, c, stamp, choice_tools(choice), 0);
                assert(h + (seq![e] + tools.events) =~= (h + seq![e]) + tools.events);
            },
            None => {
                lemma_fold_tools_owned(s1, c, stamp, choice_tools(choice), 0, h);
            },
        }
        let b = fold_choices(a.state, a.counter, stamp, choices, i + 1);
        crate::transitions::lemma_step_choice(s, c, stamp, choice);
        lemma_fold_choices_owned(a.state, a.counter, stamp, choices, i + 1, h + a.events);
        assert(h + (a.events + b.events) =~= (h + a.events) + b.events);
    } else {
        assert(h + Seq::<StreamEventV>::empty() =~= h);
    }
}

/// A run of payload texts keeps every event with the call for its output
/// index.
pub proof fn lemma_fold_texts_owned(
    s: StreamV,
    c: u64,
    stamp: nat,
    texts: Seq<Seq<char>>,
    i: int,
    h: Seq<StreamEventV>,
)
    requires
        crate::transitions::wf(s),
        owned(s.calls, h),
    ensures
        owned(fold_texts(s, c, stamp, texts, i).state.calls, h + fold_texts(s, c, stamp, texts, i).events),
    decreases texts.len() - i,
{
    if 0 <= i < texts.len() {
        let a = match crate::codec::json_parse(texts[i]) {
            Some(p) => step_payload(s, c, stamp, p),
            None => Step { state: s, counter: c, events: Seq::empty() },
        };
        assert(owned(a.state.calls, h + a.events) && crate::transitions::wf(a.state)) by {
            assert(h + Seq::<StreamEventV>::empty() =~= h);
            match crate::codec::json_parse(texts[i]) {
                Some(p) => {
                    crate::transitions::lemma_step_payload(s, c, stamp, p);
                    if s.phase == Phase::Open && has_room(s, p) {
                        match p.get_array("choices"@) {
                            Some(choices) => {
                                lemma_fold_choices_owned(with_usage(s, p), c, stamp, choices, 0, h);
                            },
                            None => {},
                        }
                    }
                },
                None => {},
            }
        }
        let b = fold_texts(a.state, a.counter, stamp, texts, i + 1);
        lemma_fold_texts_owned(a.state, a.counter, stamp, texts, i + 1, h + a.events);
        assert(h + (a.events + b.events) =~= (h + a.events) + b.events);
    } else {
        assert(h + Seq::<StreamEventV>::empty() =~= h);
    }
}

/// A run of chunks keeps every event with the call for its output index.
pub proof fn lemma_feed_all_owned(
    s: StreamV,
    c: u64,
    chunks: Seq<Chunk>,
    i: int,
    h: Seq<StreamEventV>,
)
    requires
        crate::transitions::wf(s),
        owned(s.calls, h),
    ensures
        owned(feed_all(s, c, chunks, i).state.calls, h + feed_all(s, c, chunks, i).events),
    decreases chunks.len() - i,
{
    if 0 <= i < chunks.len() {
        let a = feed_text(s, c, chunks[i].stamp, chunks[i].text);
        if s.phase == Phase::Open {
            let all = s.buffer + chunks[i].text;
            let s1 = StreamV { buffer: crate::sse::remainder(all), ..s };
            lemma_fold_texts_owned(s1, c, chunks[i].stamp, crate::sse::payloads(all), 0, h);
            crate::transitions::lemma_fold_texts(
                s1,
                c,
                chunks[i].stamp,
                crate::sse::payloads(all),
                0,
            );
        } else {
            assert(h + Seq::<StreamEventV>::empty() =~= h);
        }
        let b = feed_all(a.state, a.counter, chunks, i + 1);
        lemma_feed_all_owned(a.state, a.counter, chunks, i + 1, h + a.events);
        assert(h + (a.events + b.events) =~= (h + a.events) + b.events);
    } else {
        assert(h + Seq::<StreamEventV>::empty() =~= h);
    }
}

/// The events that end the tool calls speak each of the call for its
/// output index.
pub proof fn lemma_drain_owned(calls: Seq<ToolCallV>, i: int, n: int)
    requires
        crate::transitions::sorted(calls),
        0 <= i <= calls.len(),
    ensures
        owned(calls, drain_events(calls, i, n)),
    decreases calls.len() - i,
{
    if i < calls.len() {
        let here = call_events(calls[i], n);
        let rest = drain_events(calls, i + 1, n + here.len());
        lemma_drain_owned(calls, i + 1, n + here.len());
        lemma_call_for_found(calls, calls[i].index + 1, i);
        let all = drain_events(calls, i, n);
        assert forall|j: int| 0 <= j < all.len() implies owner_ok(calls, #[trigger] all[j]) by {
            if j < here.len() {
                assert(all[j] == here[j]);
            } else {
                assert(all[j] == rest[j - here.len()]);
            }
        }
    }
}

/// Event owners: every event of a call that speaks of an output index other
/// than 0 speaks of the tool call that the state at the end of the stream
/// holds for that index, under the item identifier of that call; the index
/// of the call is one less than the output index. The output index 0 is
/// that of the message.
pub proof fn law_event_owners(
    request: TranslatedRequestV,
    message_id: Seq<char>,
    c: u64,
    opened: i64,
    chunks: Seq<Chunk>,
    ended: i64,
)
    ensures
        ({
            let end = state_at_end(initial(request, message_id), c, opened, chunks);
            let h = call_events_of(initial(request, message_id), c, opened, chunks, ended);
            &&& owned(end.calls, h)
            &&& forall|k: int|
                (#[trigger] call_for(end.calls, k)) is Some ==> call_for(end.calls, k)->0.index + 1
                    == k
        }),
{
    let s = initial(request, message_id);
    let a = start(s, opened);
    let b = feed_all(a.state, c, chunks, 0);
    let end = b.state;
    let z = finish(end, ended);
    let h = call_events_of(s, c, opened, chunks, ended);
    assert(owned(a.state.calls, a.events));
    lemma_feed_all_owned(a.state, c, chunks, 0, a.events);
    lemma_feed_all_wf(a.state, c, chunks, 0);
    assert(h =~= (a.events + b.events) + z.events);
    assert forall|k: int| (#[trigger] call_for(end.calls, k)) is Some implies call_for(
        end.calls,
        k,
    )->0.index + 1 == k by {
        lemma_call_for_is(end.calls, k);
    }
    if end.phase == Phase::Open {
        let e1 = closing_events(end);
        let n1 = end.sequence + e1.len();
        let e2: Seq<StreamEventV> = if keeps_message(end) {
            seq![StreamEventV::ItemDone { seq: n1 + 1, output_index: 0, item: final_message(end) }]
        } else {
            Seq::empty()
        };
        let n2 = n1 + e2.len();
        let e3 = drain_events(end.calls, 0, n2);
        let n3 = n2 + e3.len();
        let e4 = seq![StreamEventV::Finished { seq: n3 + 1, response: final_response(end, ended) }];
        lemma_drain_owned(end.calls, 0, n2);
        assert(z.events =~= ((e1 + e2) + e3) + e4);
        let before = a.events + b.events;
        assert forall|j: int| 0 <= j < h.len() implies owner_ok(end.calls, #[trigger] h[j]) by {
            if j < before.len() {
                assert(h[j] == before[j]);
            } else {
                let m = j - before.len();
                assert(h[j] == z.events[m]);
                if m < e1.len() {
                    assert(z.events[m] == e1[m]);
                } else if m < e1.len() + e2.len() {
                    assert(z.events[m] == e2[m - e1.len()]);
                } else if m < e1.len() + e2.len() + e3.len() {
                    assert(z.events[m] == e3[m - e1.len() - e2.len()]);
                } else {
                    assert(z.events[m] == e4[0]);
                }
            }
        }
    } else {
        assert(h =~= a.events + b.events);
    }
}

} // verus!
