//! Every index that upstream delivers keeps its tool call.

use crate::json::JsonV;
use crate::laws::{feed_all, Chunk};
use crate::laws::lookup::{call_for, lemma_put_call_for};
use crate::transitions::{
    choice_fragment, choice_tools, delta_arguments, delta_index, feed_text, fold_choices,
    fold_texts, fold_tools, fresh_call, has_room, named_call, step_choice, step_payload,
    step_tool, with_usage, Phase, Step, StreamV,
};
use vstd::prelude::*;

verus! {

/// One tool-call delta keeps every call that was there, and leaves a call
/// for the index it names.
pub proof fn lemma_step_tool_calls(s: StreamV, c: u64, stamp: nat, tc: JsonV, k: int)
    requires
        crate::transitions::sorted(s.calls),
    ensures
        call_for(s.calls, k) is Some ==> call_for(step_tool(s, c, stamp, tc).state.calls, k) is Some,
        delta_index(tc) < u64::MAX ==> call_for(
            step_tool(s, c, stamp, tc).state.calls,
            delta_index(tc) + 1,
        ) is Some,
{
    let idx = delta_index(tc);
    if idx != u64::MAX {
        let p = crate::transitions::slot(s.calls, idx, 0);
        let found = p < s.calls.len() && s.calls[p].index == idx;
        let before = if found {
            s.calls[p]
        } else {
            fresh_call(tc, crate::ids::id_text("fc"@, stamp, c as nat))
        };
        let acc = named_call(before, tc);
        match delta_arguments(tc) {
            None => {
                lemma_put_call_for(s.calls, acc, k);
                lemma_put_call_for(s.calls, acc, idx + 1);
            },
            Some(a) => {
                lemma_put_call_for(s.calls, crate::transitions::argued_call(acc, a), k);
                lemma_put_call_for(s.calls, crate::transitions::argued_call(acc, a), idx + 1);
            },
        }
    }
}

/// A run of tool-call deltas keeps every call that was there, and leaves a
/// call for every index that one of the deltas names.
pub proof fn lemma_fold_tools_calls(
    s: StreamV,
    c: u64,
    stamp: nat,
    tcs: Seq<JsonV>,
    i: int,
    k: int,
)
    requires
        crate::transitions::sorted(s.calls),
        0 <= i <= tcs.len(),
    ensures
        call_for(s.calls, k) is Some ==> call_for(fold_tools(s, c, stamp, tcs, i).state.calls, k)
            is Some,
        forall|j: int|
            i <= j < tcs.len() && delta_index(#[trigger] tcs[j]) < u64::MAX && k == delta_index(
                tcs[j],
            ) + 1 ==> call_for(fold_tools(s, c, stamp, tcs, i).state.calls, k) is Some,
    decreases tcs.len() - i,
{
    if i < tcs.len() {
        let a = step_tool(s, c, stamp, tcs[i]);
        lemma_step_tool_calls(s, c, stamp, tcs[i], k);
        crate::transitions::lemma_step_tool(s, c, stamp, tcs[i]);
        lemma_fold_tools_calls(a.state, a.counter, stamp, tcs, i + 1, k);
    }
}

/// A run of choices keeps every call that was there, and leaves a call for
/// every index that one of their tool-call deltas names.
pub proof fn lemma_fold_choices_calls(
    s: StreamV,
    c: u64,
    stamp: nat,
    choices: Seq<JsonV>,
    i: int,
    k: int,
)
    requires
        crate::transitions::sorted(s.calls),
        0 <= i <= choices.len(),
    ensures
        call_for(s.calls, k) is Some ==> call_for(
            fold_choices(s, c, stamp, choices, i).state.calls,
            k,
        ) is Some,
        forall|n: int, j: int|
            i <= n < choices.len() && 0 <= j < choice_tools(choices[n]).len() && delta_index(
                #[trigger] choice_tools(choices[n])[j],
            ) < u64::MAX && k == delta_index(choice_tools(choices[n])[j]) + 1 ==> call_for(
                fold_choices(s, c, stamp, choices, i).state.calls,
                k,
            ) is Some,
    decreases choices.len() - i,
{
    if i < choices.len() {
        let choice = choices[i];
        let s1 = match choice.get_str("finish_reason"@) {
            Some(reason) => StreamV { finish_reason: reason, ..s },
            None => s,
        };
        let s2 = match choice_fragment(choice) {
            Some(t) => StreamV { text: s1.text + t, sequence: s1.sequence + 1, ..s1 },
            None => s1,
        };
        lemma_fold_tools_calls(s2, c, stamp, choice_tools(choice), 0, k);
        let a = step_choice(s, c, stamp, choice);
        assert(a.state == fold_tools(s2, c, stamp, choice_tools(choice), 0).state);
        crate::transitions::lemma_step_choice(s, c, stamp, choice);
        lemma_fold_choices_calls(a.state, a.counter, stamp, choices, i + 1, k);
    }
}

/// A run of payload texts keeps every call that was there.
pub proof fn lemma_fold_texts_calls(
    s: StreamV,
    c: u64,
    stamp: nat,
    texts: Seq<Seq<char>>,
    i: int,
    k: int,
)
    requires
        crate::transitions::wf(s),
        call_for(s.calls, k) is Some,
    ensures
        call_for(fold_texts(s, c, stamp, texts, i).state.calls, k) is Some,
    decreases texts.len() - i,
{
    if 0 <= i < texts.len() {
        let a = match crate::codec::json_parse(texts[i]) {
            Some(p) => step_payload(s, c, stamp, p),
            None => Step { state: s, counter: c, events: Seq::empty() },
        };
        match crate::codec::json_parse(texts[i]) {
            Some(p) => {
                crate::transitions::lemma_step_payload(s, c, stamp, p);
                if s.phase == Phase::Open && has_room(s, p) {
                    match p.get_array("choices"@) {
                        Some(choices) => {
                            lemma_fold_choices_calls(with_usage(s, p), c, stamp, choices, 0, k);
                        },
                        None => {},
                    }
                }
            },
            None => {},
        }
        lemma_fold_texts_calls(a.state, a.counter, stamp, texts, i + 1, k);
    }
}

/// A run of chunks keeps every call that was there.
pub proof fn lemma_feed_all_calls(s: StreamV, c: u64, chunks: Seq<Chunk>, i: int, k: int)
    requires
        crate::transitions::wf(s),
        call_for(s.calls, k) is Some,
    ensures
        call_for(feed_all(s, c, chunks, i).state.calls, k) is Some,
    decreases chunks.len() - i,
{
    if 0 <= i < chunks.len() {
        let a = feed_text(s, c, chunks[i].stamp, chunks[i].text);
        if s.phase == Phase::Open {
            let all = s.buffer + chunks[i].text;
            let s1 = StreamV { buffer: crate::sse::remainder(all), ..s };
            lemma_fold_texts_calls(s1, c, chunks[i].stamp, crate::sse::payloads(all), 0, k);
            crate::transitions::lemma_fold_texts(
                s1,
                c,
                chunks[i].stamp,
                crate::sse::payloads(all),
                0,
            );
        }
        lemma_feed_all_calls(a.state, a.counter, chunks, i + 1, k);
    }
}

/// Delivered calls: a payload that is taken in leaves a call for every
/// index that one of its tool-call deltas names, and every chunk that
/// follows keeps that call; so the state at the end of the stream holds a
/// call for every index that upstream delivered. A delta that names no
/// index names the index 0.
pub proof fn law_delivered_calls(
    s: StreamV,
    c: u64,
    stamp: nat,
    payload: JsonV,
    choice: int,
    delta: int,
    later: u64,
    chunks: Seq<Chunk>,
)
    requires
        crate::transitions::wf(s),
        s.phase == Phase::Open,
        has_room(s, payload),
        payload.get_array("choices"@) is Some,
        0 <= choice < payload.get_array("choices"@)->0.len(),
        0 <= delta < choice_tools(payload.get_array("choices"@)->0[choice]).len(),
        delta_index(choice_tools(payload.get_array("choices"@)->0[choice])[delta]) < u64::MAX,
    ensures
        ({
            let tc = choice_tools(payload.get_array("choices"@)->0[choice])[delta];
            let after = step_payload(s, c, stamp, payload).state;
            &&& call_for(after.calls, delta_index(tc) + 1) is Some
            &&& call_for(feed_all(after, later, chunks, 0).state.calls, delta_index(tc) + 1) is Some
        }),
{
    let choices = payload.get_array("choices"@)->0;
    let tc = choice_tools(choices[choice])[delta];
    let k = delta_index(tc) + 1;
    lemma_fold_choices_calls(with_usage(s, payload), c, stamp, choices, 0, k);
    crate::transitions::lemma_step_payload(s, c, stamp, payload);
    lemma_feed_all_calls(step_payload(s, c, stamp, payload).state, later, chunks, 0, k);
}

} // verus!
