//! The events of each tool call: its announcement, its arguments and its end.

use crate::events::StreamEventV;
use crate::json::JsonV;
use crate::laws::{call_events_of, feed_all, state_at_end, Chunk};
use crate::laws::lookup::{
    call_for, call_from, lemma_call_for_found, lemma_call_from_found, lemma_call_from_none,
    lemma_put_call_for,
};
use crate::laws::numbering::{law_sequence_numbers, lemma_feed_all_numbered, lemma_numbered_concat};
use crate::laws::picks::{
    delta_text, fragment_of, lemma_delta_concat, lemma_law_marks, lemma_pick_bound,
    lemma_pick_concat, lemma_push, lemma_silent, lemma_single, lemma_unmarked, pick, silent,
    Mark,
};
use crate::request::TranslatedRequestV;
use crate::shape::OutputItemV;
use crate::transitions::{
    argument_events, call_events, choice_fragment, choice_tools, closing_events,
    delta_arguments, delta_index, drain_events, feed_text, final_message, final_response,
    finish, fold_choices, fold_texts, fold_tools, fresh_call, has_room, initial, keeps_message,
    named_call, start, step_choice, step_payload, step_tool, with_usage, Phase, Step, StreamV,
    ToolCallV,
};
use vstd::prelude::*;

verus! {

/// Whether the events so far agree with the calls on the output index `k`:
/// the call for it was announced once if it counts as announced and never
/// otherwise, its arguments are the fragments sent so far, and nothing
/// was declared done.
pub open spec fn tracks(calls: Seq<ToolCallV>, h: Seq<StreamEventV>, k: int) -> bool {
    &&& match call_for(calls, k) {
        Some(acc) => pick(h, Mark::Added, k).len() == (if acc.announced {
            1int
        } else {
            0int
        }) && delta_text(h, k) == acc.arguments,
        None => pick(h, Mark::Added, k).len() == 0 && delta_text(h, k) == Seq::<char>::empty(),
    }
    &&& pick(h, Mark::ArgumentsDone, k).len() == 0
    &&& pick(h, Mark::ItemDone, k).len() == 0
}

/// What the events of an arguments fragment add for the output index `k`.
pub proof fn lemma_argument_events(acc: ToolCallV, a: Seq<char>, n: int, k: int)
    ensures
        pick(argument_events(acc, a, n), Mark::Added, k).len() == (if crate::transitions::announces(
            acc,
        ) && acc.index + 1 == k {
            1int
        } else {
            0int
        }),
        pick(argument_events(acc, a, n), Mark::ArgumentsDone, k).len() == 0,
        pick(argument_events(acc, a, n), Mark::ItemDone, k).len() == 0,
        delta_text(argument_events(acc, a, n), k) == (if acc.index + 1 == k {
            a
        } else {
            Seq::empty()
        }),
{
    let delta = StreamEventV::ArgumentsDelta {
        seq: if crate::transitions::announces(acc) {
            n + 2
        } else {
            n + 1
        },
        item_id: acc.item_id,
        output_index: acc.index + 1,
        delta: a,
    };
    if crate::transitions::announces(acc) {
        let added = StreamEventV::ItemAdded {
            seq: n + 1,
            output_index: acc.index + 1,
            item: crate::transitions::progress_item(acc),
        };
        assert(argument_events(acc, a, n) =~= seq![added] + seq![delta]);
        lemma_single(added, Mark::Added, k);
        lemma_single(added, Mark::ArgumentsDone, k);
        lemma_single(added, Mark::ItemDone, k);
        lemma_push(seq![added], delta, Mark::Added, k);
        lemma_push(seq![added], delta, Mark::ArgumentsDone, k);
        lemma_push(seq![added], delta, Mark::ItemDone, k);
        assert(delta_text(argument_events(acc, a, n), k) =~= fragment_of(delta, k));
    } else {
        assert(argument_events(acc, a, n) =~= seq![delta]);
        lemma_single(delta, Mark::Added, k);
        lemma_single(delta, Mark::ArgumentsDone, k);
        lemma_single(delta, Mark::ItemDone, k);
    }
}

/// One tool-call delta keeps the events in agreement with the calls.
pub proof fn lemma_step_tool_tracks(
    s: StreamV,
    c: u64,
    stamp: nat,
    tc: JsonV,
    h: Seq<StreamEventV>,
    k: int,
)
    requires
        crate::transitions::sorted(s.calls),
        tracks(s.calls, h, k),
    ensures
        tracks(step_tool(s, c, stamp, tc).state.calls, h + step_tool(s, c, stamp, tc).events, k),
{
    let r = step_tool(s, c, stamp, tc);
    let idx = delta_index(tc);
    lemma_pick_concat(h, r.events, Mark::Added, k);
    lemma_pick_concat(h, r.events, Mark::ArgumentsDone, k);
    lemma_pick_concat(h, r.events, Mark::ItemDone, k);
    lemma_delta_concat(h, r.events, k);
    if idx == u64::MAX {
        assert(h + r.events =~= h);
    } else {
        let p = crate::transitions::slot(s.calls, idx, 0);
        let found = p < s.calls.len() && s.calls[p].index == idx;
        let before = if found {
            s.calls[p]
        } else {
            fresh_call(tc, crate::ids::id_text("fc"@, stamp, c as nat))
        };
        let acc = named_call(before, tc);
        match delta_arguments(tc) {
            None => {
                assert(h + r.events =~= h);
                lemma_put_call_for(s.calls, acc, k);
            },
            Some(a) => {
                lemma_argument_events(acc, a, s.sequence, k);
                lemma_put_call_for(s.calls, crate::transitions::argued_call(acc, a), k);
                if idx + 1 == k {
                    assert(delta_text(h + r.events, k) =~= before.arguments + a);
                } else {
                    assert(delta_text(h + r.events, k) =~= delta_text(h, k));
                }
            },
        }
    }
}

/// A run of tool-call deltas keeps the events in agreement with the calls.
pub proof fn lemma_fold_tools_tracks(
    s: StreamV,
    c: u64,
    stamp: nat,
    tcs: Seq<JsonV>,
    i: int,
    h: Seq<StreamEventV>,
    k: int,
)
    requires
        crate::transitions::sorted(s.calls),
        tracks(s.calls, h, k),
    ensures
        tracks(
            fold_tools(s, c, stamp, tcs, i).state.calls,
            h + fold_tools(s, c, stamp, tcs, i).events,
            k,
        ),
    decreases tcs.len() - i,
{
    if 0 <= i < tcs.len() {
        let a = step_tool(s, c, stamp, tcs[i]);
        let b = fold_tools(a.state, a.counter, stamp, tcs, i + 1);
        lemma_step_tool_tracks(s, c, stamp, tcs[i], h, k);
        crate::transitions::lemma_step_tool(s, c, stamp, tcs[i]);
        lemma_fold_tools_tracks(a.state, a.counter, stamp, tcs, i + 1, h + a.events, k);
        assert(h + (a.events + b.events) =~= (h + a.events) + b.events);
    } else {
        assert(h + Seq::<StreamEventV>::empty() =~= h);
    }
}

/// One choice keeps the events in agreement with the calls.
pub proof fn lemma_step_choice_tracks(
    s: StreamV,
    c: u64,
    stamp: nat,
    choice: JsonV,
    h: Seq<StreamEventV>,
    k: int,
)
    requires
        crate::transitions::sorted(s.calls),
        tracks(s.calls, h, k),
    ensures
        tracks(
            step_choice(s, c, stamp, choice).state.calls,
            h + step_choice(s, c, stamp, choice).events,
            k,
        ),
{
    let s1 = match choice.get_str("finish_reason"@) {
        Some(reason) => StreamV { finish_reason: reason, ..s },
        None => s,
    };
    match choice_fragment(choice) {
        Some(t) => {
            let s2 = StreamV { text: s1.text + t, sequence: s1.sequence + 1, ..s1 };
            let e = StreamEventV::TextDelta {
                seq: s1.sequence + 1,
                item_id: s1.message_id,
                delta: t,
            };
            lemma_push(h, e, Mark::Added, k);
            lemma_push(h, e, Mark::ArgumentsDone, k);
            lemma_push(h, e, Mark::ItemDone, k);
            assert(pick(h + seq![e], Mark::Added, k) =~= pick(h, Mark::Added, k));
            assert(pick(h + seq![e], Mark::ArgumentsDone, k) =~= pick(h, Mark::ArgumentsDone, k));
            assert(pick(h + seq![e], Mark::ItemDone, k) =~= pick(h, Mark::ItemDone, k));
            assert(delta_text(h + seq![e], k) =~= delta_text(h, k));
            lemma_fold_tools_tracks(s2, c, stamp, choice_tools(choice), 0, h + seq![e], k);
            let b = fold_tools(s2, c, stamp, choice_tools(choice), 0);
            assert(h + (seq![e] + b.events) =~= (h + seq![e]) + b.events);
        },
        None => {
            lemma_fold_tools_tracks(s1, c, stamp, choice_tools(choice), 0, h, k);
        },
    }
}

/// A run of choices keeps the events in agreement with the calls.
pub proof fn lemma_fold_choices_tracks(
    s: StreamV,
    c: u64,
    stamp: nat,
    choices: Seq<JsonV>,
    i: int,
    h: Seq<StreamEventV>,
    k: int,
)
    requires
        crate::transitions::sorted(s.calls),
        tracks(s.calls, h, k),
    ensures
        tracks(
            fold_choices(s, c, stamp, choices, i).state.calls,
            h + fold_choices(s, c, stamp, choices, i).events,
            k,
        ),
    decreases choices.len() - i,
{
    if 0 <= i < choices.len() {
        let a = step_choice(s, c, stamp, choices[i]);
        let b = fold_choices(a.state, a.counter, stamp, choices, i + 1);
        lemma_step_choice_tracks(s, c, stamp, choices[i], h, k);
        crate::transitions::lemma_step_choice(s, c, stamp, choices[i]);
        lemma_fold_choices_tracks(a.state, a.counter, stamp, choices, i + 1, h + a.events, k);
        assert(h + (a.events + b.events) =~= (h + a.events) + b.events);
    } else {
        assert(h + Seq::<StreamEventV>::empty() =~= h);
    }
}

/// One payload keeps the events in agreement with the calls.
pub proof fn lemma_step_payload_tracks(
    s: StreamV,
    c: u64,
    stamp: nat,
    payload: JsonV,
    h: Seq<StreamEventV>,
    k: int,
)
    requires
        crate::transitions::sorted(s.calls),
        tracks(s.calls, h, k),
    ensures
        tracks(
            step_payload(s, c, stamp, payload).state.calls,
            h + step_payload(s, c, stamp, payload).events,
            k,
        ),
        crate::transitions::sorted(step_payload(s, c, stamp, payload).state.calls),
{
    if s.phase == Phase::Open && has_room(s, payload) {
        match payload.get_array("choices"@) {
            Some(choices) => {
                lemma_fold_choices_tracks(with_usage(s, payload), c, stamp, choices, 0, h, k);
                crate::transitions::lemma_fold_choices(
                    with_usage(s, payload),
                    c,
                    stamp,
                    choices,
                    0,
                );
            },
            None => {
                assert(h + Seq::<StreamEventV>::empty() =~= h);
            },
        }
    } else {
        assert(h + Seq::<StreamEventV>::empty() =~= h);
    }
}

/// A run of payload texts keeps the events in agreement with the calls.
pub proof fn lemma_fold_texts_tracks(
    s: StreamV,
    c: u64,
    stamp: nat,
    texts: Seq<Seq<char>>,
    i: int,
    h: Seq<StreamEventV>,
    k: int,
)
    requires
        crate::transitions::sorted(s.calls),
        tracks(s.calls, h, k),
    ensures
        tracks(
            fold_texts(s, c, stamp, texts, i).state.calls,
            h + fold_texts(s, c, stamp, texts, i).events,
            k,
        ),
        crate::transitions::sorted(fold_texts(s, c, stamp, texts, i).state.calls),
    decreases texts.len() - i,
{
    if 0 <= i < texts.len() {
        let a = match crate::codec::json_parse(texts[i]) {
            Some(p) => step_payload(s, c, stamp, p),
            None => Step { state: s, counter: c, events: Seq::empty() },
        };
        let b = fold_texts(a.state, a.counter, stamp, texts, i + 1);
        match crate::codec::json_parse(texts[i]) {
            Some(p) => {
                lemma_step_payload_tracks(s, c, stamp, p, h, k);
            },
            None => {
                assert(h + Seq::<StreamEventV>::empty() =~= h);
            },
        }
        lemma_fold_texts_tracks(a.state, a.counter, stamp, texts, i + 1, h + a.events, k);
        assert(h + (a.events + b.events) =~= (h + a.events) + b.events);
    } else {
        assert(h + Seq::<StreamEventV>::empty() =~= h);
    }
}

/// A run of chunks keeps the events in agreement with the calls.
pub proof fn lemma_feed_all_tracks(
    s: StreamV,
    c: u64,
    chunks: Seq<Chunk>,
    i: int,
    h: Seq<StreamEventV>,
    k: int,
)
    requires
        crate::transitions::sorted(s.calls),
        tracks(s.calls, h, k),
    ensures
        tracks(feed_all(s, c, chunks, i).state.calls, h + feed_all(s, c, chunks, i).events, k),
        crate::transitions::sorted(feed_all(s, c, chunks, i).state.calls),
    decreases chunks.len() - i,
{
    if 0 <= i < chunks.len() {
        let a = feed_text(s, c, chunks[i].stamp, chunks[i].text);
        let b = feed_all(a.state, a.counter, chunks, i + 1);
        if s.phase == Phase::Open {
            let all = s.buffer + chunks[i].text;
            lemma_fold_texts_tracks(
                StreamV { buffer: crate::sse::remainder(all), ..s },
                c,
                chunks[i].stamp,
                crate::sse::payloads(all),
                0,
                h,
                k,
            );
        } else {
            assert(h + Seq::<StreamEventV>::empty() =~= h);
        }
        lemma_feed_all_tracks(a.state, a.counter, chunks, i + 1, h + a.events, k);
        assert(h + (a.events + b.events) =~= (h + a.events) + b.events);
    } else {
        assert(h + Seq::<StreamEventV>::empty() =~= h);
    }
}

/// What the events that end one call add for the output index `k`.
pub proof fn lemma_call_events(acc: ToolCallV, n: int, k: int)
    ensures
        delta_text(call_events(acc, n), k) == Seq::<char>::empty(),
        acc.index + 1 != k ==> pick(call_events(acc, n), Mark::Added, k).len() == 0 && pick(
            call_events(acc, n),
            Mark::ArgumentsDone,
            k,
        ).len() == 0 && pick(call_events(acc, n), Mark::ItemDone, k).len() == 0,
        acc.index + 1 == k ==> {
            &&& pick(call_events(acc, n), Mark::Added, k).len() == (if acc.announced {
                0int
            } else {
                1int
            })
            &&& pick(call_events(acc, n), Mark::ArgumentsDone, k).len() == 1
            &&& pick(call_events(acc, n), Mark::ArgumentsDone, k)[0] matches StreamEventV::ArgumentsDone {
                item_id,
                name,
                arguments,
                ..
            } && item_id == acc.item_id && name == acc.name && arguments == acc.arguments
            &&& pick(call_events(acc, n), Mark::ItemDone, k).len() == 1
            &&& pick(call_events(acc, n), Mark::ItemDone, k)[0] matches StreamEventV::ItemDone {
                item,
                ..
            } && item == crate::transitions::done_item(acc)
            &&& pick(call_events(acc, n), Mark::ArgumentsDone, k)[0].seq() > n
            &&& pick(call_events(acc, n), Mark::ItemDone, k)[0].seq() == pick(
                call_events(acc, n),
                Mark::ArgumentsDone,
                k,
            )[0].seq() + 1
            &&& !acc.announced ==> pick(call_events(acc, n), Mark::Added, k)[0].seq() + 1 == pick(
                call_events(acc, n),
                Mark::ArgumentsDone,
                k,
            )[0].seq()
        },
{
    let shift: int = if acc.announced {
        0
    } else {
        1
    };
    let added = StreamEventV::ItemAdded {
        seq: n + 1,
        output_index: acc.index + 1,
        item: crate::transitions::progress_item(acc),
    };
    let first: Seq<StreamEventV> = if acc.announced {
        Seq::empty()
    } else {
        seq![added]
    };
    let args = StreamEventV::ArgumentsDone {
        seq: n + shift + 1,
        item_id: acc.item_id,
        output_index: acc.index + 1,
        name: acc.name,
        arguments: acc.arguments,
    };
    let item = StreamEventV::ItemDone {
        seq: n + shift + 2,
        output_index: acc.index + 1,
        item: crate::transitions::done_item(acc),
    };
    assert(call_events(acc, n) =~= (first + seq![args]) + seq![item]);
    if acc.announced {
        assert(pick(first, Mark::Added, k) =~= Seq::<StreamEventV>::empty());
        assert(pick(first, Mark::ArgumentsDone, k) =~= Seq::<StreamEventV>::empty());
        assert(pick(first, Mark::ItemDone, k) =~= Seq::<StreamEventV>::empty());
        assert(delta_text(first, k) =~= Seq::<char>::empty());
    } else {
        lemma_single(added, Mark::Added, k);
        lemma_single(added, Mark::ArgumentsDone, k);
        lemma_single(added, Mark::ItemDone, k);
    }
    lemma_push(first, args, Mark::Added, k);
    lemma_push(first, args, Mark::ArgumentsDone, k);
    lemma_push(first, args, Mark::ItemDone, k);
    lemma_push(first + seq![args], item, Mark::Added, k);
    lemma_push(first + seq![args], item, Mark::ArgumentsDone, k);
    lemma_push(first + seq![args], item, Mark::ItemDone, k);
    assert(delta_text(call_events(acc, n), k) =~= Seq::<char>::empty());
    if acc.index + 1 == k {
        assert(pick(call_events(acc, n), Mark::ArgumentsDone, k) =~= seq![args]);
        assert(pick(call_events(acc, n), Mark::ItemDone, k) =~= seq![item]);
        if !acc.announced {
            assert(pick(call_events(acc, n), Mark::Added, k) =~= seq![added]);
        }
    }
}

/// What the events that end the calls from position `i` on add for the
/// output index `k`: for the call with that index, its announcement where
/// it is owed, one event with its full arguments and one with its finished
/// item; nothing where no call has that index.
pub proof fn lemma_drain_picks(calls: Seq<ToolCallV>, i: int, n: int, k: int)
    requires
        crate::transitions::sorted(calls),
        0 <= i <= calls.len(),
    ensures
        delta_text(drain_events(calls, i, n), k) == Seq::<char>::empty(),
        match call_from(calls, i, k) {
            Some(acc) => {
                &&& pick(drain_events(calls, i, n), Mark::Added, k).len() == (if acc.announced {
                    0int
                } else {
                    1int
                })
                &&& pick(drain_events(calls, i, n), Mark::ArgumentsDone, k).len() == 1
                &&& pick(
                    drain_events(calls, i, n),
                    Mark::ArgumentsDone,
                    k,
                )[0] matches StreamEventV::ArgumentsDone { item_id, name, arguments, .. }
                    && item_id == acc.item_id && name == acc.name && arguments == acc.arguments
                &&& pick(drain_events(calls, i, n), Mark::ItemDone, k).len() == 1
                &&& pick(drain_events(calls, i, n), Mark::ItemDone, k)[0] matches StreamEventV::ItemDone {
                    item,
                    ..
                } && item == crate::transitions::done_item(acc)
                &&& pick(drain_events(calls, i, n), Mark::ArgumentsDone, k)[0].seq() > n
                &&& pick(drain_events(calls, i, n), Mark::ItemDone, k)[0].seq() == pick(
                    drain_events(calls, i, n),
                    Mark::ArgumentsDone,
                    k,
                )[0].seq() + 1
                &&& !acc.announced ==> pick(drain_events(calls, i, n), Mark::Added, k)[0].seq() + 1
                    == pick(drain_events(calls, i, n), Mark::ArgumentsDone, k)[0].seq()
            },
            None => {
                &&& pick(drain_events(calls, i, n), Mark::Added, k).len() == 0
                &&& pick(drain_events(calls, i, n), Mark::ArgumentsDone, k).len() == 0
                &&& pick(drain_events(calls, i, n), Mark::ItemDone, k).len() == 0
            },
        },
    decreases calls.len() - i,
{
    if i < calls.len() {
        let here = call_events(calls[i], n);
        let rest = drain_events(calls, i + 1, n + here.len());
        lemma_call_events(calls[i], n, k);
        lemma_drain_picks(calls, i + 1, n + here.len(), k);
        lemma_pick_concat(here, rest, Mark::Added, k);
        lemma_pick_concat(here, rest, Mark::ArgumentsDone, k);
        lemma_pick_concat(here, rest, Mark::ItemDone, k);
        lemma_delta_concat(here, rest, k);
        assert(delta_text(drain_events(calls, i, n), k) =~= Seq::<char>::empty());
        if calls[i].index + 1 == k {
            assert forall|j: int| i + 1 <= j < calls.len() implies (#[trigger] calls[j]).index + 1
                != k by {
                assert(calls[i].index < calls[j].index);
            }
            lemma_call_from_none(calls, i + 1, k);
            assert(pick(drain_events(calls, i, n), Mark::Added, k) =~= pick(here, Mark::Added, k));
            assert(pick(drain_events(calls, i, n), Mark::ArgumentsDone, k) =~= pick(
                here,
                Mark::ArgumentsDone,
                k,
            ));
            assert(pick(drain_events(calls, i, n), Mark::ItemDone, k) =~= pick(
                here,
                Mark::ItemDone,
                k,
            ));
        } else {
            assert(pick(drain_events(calls, i, n), Mark::Added, k) =~= pick(rest, Mark::Added, k));
            assert(pick(drain_events(calls, i, n), Mark::ArgumentsDone, k) =~= pick(
                rest,
                Mark::ArgumentsDone,
                k,
            ));
            assert(pick(drain_events(calls, i, n), Mark::ItemDone, k) =~= pick(
                rest,
                Mark::ItemDone,
                k,
            ));
        }
    }
}

/// The finished items of the calls stand in the order of the calls.
pub proof fn lemma_drain_items(calls: Seq<ToolCallV>, i: int)
    requires
        0 <= i <= calls.len(),
    ensures
        crate::transitions::drain_items(calls, i).len() == calls.len() - i,
        forall|j: int|
            0 <= j < calls.len() - i ==> #[trigger] crate::transitions::drain_items(calls, i)[j]
                == crate::transitions::done_item(calls[i + j]),
    decreases calls.len() - i,
{
    if i < calls.len() {
        lemma_drain_items(calls, i + 1);
        let rest = crate::transitions::drain_items(calls, i + 1);
        let all = crate::transitions::drain_items(calls, i);
        assert forall|j: int| 0 <= j < calls.len() - i implies #[trigger] all[j]
            == crate::transitions::done_item(calls[i + j]) by {
            if j > 0 {
                assert(all[j] == rest[j - 1]);
            }
        }
    }
}

/// The state of a whole call at the end of its upstream stream keeps its
/// calls in order, and its events agree with its calls on every output
/// index of a tool call.
pub proof fn lemma_whole_call(
    request: TranslatedRequestV,
    message_id: Seq<char>,
    c: u64,
    opened: i64,
    chunks: Seq<Chunk>,
    k: int,
)
    requires
        k >= 1,
    ensures
        ({
            let s = initial(request, message_id);
            let a = start(s, opened);
            let b = feed_all(a.state, c, chunks, 0);
            &&& crate::transitions::sorted(b.state.calls)
            &&& tracks(b.state.calls, a.events + b.events, k)
        }),
{
    let s = initial(request, message_id);
    let a = start(s, opened);
    assert forall|j: int| 0 <= j < a.events.len() implies silent(#[trigger] a.events[j], k) by {}
    lemma_silent(a.events, Mark::Added, k);
    lemma_silent(a.events, Mark::ArgumentsDone, k);
    lemma_silent(a.events, Mark::ItemDone, k);
    lemma_feed_all_tracks(a.state, c, chunks, 0, a.events, k);
}

/// Tool-call events: in a call that reached its end, every tool call was
/// announced by exactly one `added` event, and was finished by exactly one
/// event with its arguments and, right after it, exactly one with its
/// item; the announcement and every arguments delta came before, and no
/// event about the call came after. This holds however upstream cut the
/// name and the arguments into fragments.
///
/// Fragments: the arguments fragments sent for a tool call, one after the
/// other, are the arguments that its `done` event and its finished item
/// carry.
pub proof fn law_tool_call_events(
    request: TranslatedRequestV,
    message_id: Seq<char>,
    c: u64,
    opened: i64,
    chunks: Seq<Chunk>,
    ended: i64,
    i: int,
)
    requires
        state_at_end(initial(request, message_id), c, opened, chunks).phase == Phase::Open,
        0 <= i < state_at_end(initial(request, message_id), c, opened, chunks).calls.len(),
    ensures
        ({
            let end = state_at_end(initial(request, message_id), c, opened, chunks);
            let h = call_events_of(initial(request, message_id), c, opened, chunks, ended);
            let acc = end.calls[i];
            let k = acc.index + 1;
            &&& pick(h, Mark::Added, k).len() == 1
            &&& pick(h, Mark::ArgumentsDone, k).len() == 1
            &&& pick(h, Mark::ItemDone, k).len() == 1
            &&& delta_text(h, k) == acc.arguments
            &&& pick(h, Mark::ArgumentsDone, k)[0] matches StreamEventV::ArgumentsDone {
                arguments,
                ..
            } && arguments == delta_text(h, k)
            &&& pick(h, Mark::ItemDone, k)[0] matches StreamEventV::ItemDone {
                item: OutputItemV::FunctionCall { arguments, .. },
                ..
            } && arguments == JsonV::Str(delta_text(h, k))
            &&& pick(h, Mark::Added, k)[0].seq() < pick(h, Mark::ArgumentsDone, k)[0].seq()
            &&& pick(h, Mark::ArgumentsDone, k)[0].seq() + 1 == pick(h, Mark::ItemDone, k)[0].seq()
            &&& forall|j: int|
                0 <= j < pick(h, Mark::Delta, k).len() ==> (#[trigger] pick(h, Mark::Delta, k)[j]).seq()
                    < pick(h, Mark::ArgumentsDone, k)[0].seq()
            &&& forall|mark: Mark, j: int|
                0 <= j < pick(h, mark, k).len() ==> (#[trigger] pick(h, mark, k)[j]).seq() <= pick(
                    h,
                    Mark::ItemDone,
                    k,
                )[0].seq()
        }),
{
    let s = initial(request, message_id);
    let a = start(s, opened);
    let b = feed_all(a.state, c, chunks, 0);
    let end = b.state;
    let acc = end.calls[i];
    let k = acc.index + 1;
    let before = a.events + b.events;
    lemma_whole_call(request, message_id, c, opened, chunks, k);
    lemma_call_for_found(end.calls, k, i);
    lemma_call_from_found(end.calls, 0, i, k);
    let e1 = closing_events(end);
    let n1 = end.sequence + e1.len();
    let e2: Seq<StreamEventV> = if keeps_message(end) {
        seq![StreamEventV::ItemDone { seq: n1 + 1, output_index: 0, item: final_message(end) }]
    } else {
        Seq::empty()
    };
    let n2 = n1 + e2.len();
    let e3 = drain_events(end.calls, 0, n2);
    let n3 = n2 + e3.len();
    let e4 = seq![StreamEventV::Finished { seq: n3 + 1, response: final_response(end, ended) }];
    let z = finish(end, ended).events;
    assert(z == e1 + e2 + e3 + e4);
    assert forall|j: int| 0 <= j < e1.len() implies silent(#[trigger] e1[j], k) by {}
    assert forall|j: int| 0 <= j < e2.len() implies silent(#[trigger] e2[j], k) by {}
    assert forall|j: int| 0 <= j < e4.len() implies silent(#[trigger] e4[j], k) by {}
    lemma_drain_picks(end.calls, 0, n2, k);
    let h = before + z;
    assert(h =~= (((before + e1) + e2) + e3) + e4);
    lemma_law_marks(before, e1, e2, e3, e4, Mark::Added, k);
    lemma_law_marks(before, e1, e2, e3, e4, Mark::ArgumentsDone, k);
    lemma_law_marks(before, e1, e2, e3, e4, Mark::ItemDone, k);
    assert(pick(h, Mark::ArgumentsDone, k) =~= pick(e3, Mark::ArgumentsDone, k));
    assert(pick(h, Mark::ItemDone, k) =~= pick(e3, Mark::ItemDone, k));
    assert(delta_text(h, k) =~= acc.arguments);
    lemma_feed_all_numbered(a.state, c, chunks, 0);
    lemma_numbered_concat(a.events, b.events, 0);
    if acc.announced {
        assert(pick(h, Mark::Added, k) =~= pick(before, Mark::Added, k));
        lemma_pick_bound(before, Mark::Added, k, 0);
    } else {
        assert(pick(h, Mark::Added, k) =~= pick(e3, Mark::Added, k));
    }
    lemma_law_marks(before, e1, e2, e3, e4, Mark::Delta, k);
    lemma_drain_kinds(end.calls, 0, n2);
    lemma_unmarked(e3, Mark::Delta, k);
    assert(pick(h, Mark::Delta, k) =~= pick(before, Mark::Delta, k));
    lemma_pick_bound(before, Mark::Delta, k, 0);
    let last = pick(h, Mark::ItemDone, k)[0].seq();
    assert forall|mark: Mark, j: int| 0 <= j < pick(h, mark, k).len() implies (#[trigger] pick(
        h,
        mark,
        k,
    )[j]).seq() <= last by {
        match mark {
            Mark::Added => {},
            Mark::ArgumentsDone => {},
            Mark::ItemDone => {},
            Mark::Delta => {},
        }
    }
}

/// Tool-call order: the state of a call at the end of its upstream stream
/// holds its tool calls in strictly ascending order of their index; the
/// output of the finished response is the message, where it is kept, and
/// then the finished items of the tool calls in that order; and in a call
/// that reached its end the last event carries that response.
pub proof fn law_tool_call_order(
    request: TranslatedRequestV,
    message_id: Seq<char>,
    c: u64,
    opened: i64,
    chunks: Seq<Chunk>,
    ended: i64,
)
    ensures
        ({
            let end = state_at_end(initial(request, message_id), c, opened, chunks);
            let h = call_events_of(initial(request, message_id), c, opened, chunks, ended);
            let output = crate::transitions::final_output(end);
            let first: int = if keeps_message(end) {
                1
            } else {
                0
            };
            &&& forall|i: int, j: int|
                0 <= i < j < end.calls.len() ==> end.calls[i].index < end.calls[j].index
            &&& output.len() == first + end.calls.len()
            &&& keeps_message(end) ==> output[0] == final_message(end)
            &&& forall|i: int|
                0 <= i < end.calls.len() ==> #[trigger] output[first + i]
                    == crate::transitions::done_item(end.calls[i])
            &&& end.phase == Phase::Open ==> h.len() > 0 && h.last() == (StreamEventV::Finished {
                seq: h.len() as int,
                response: final_response(end, ended),
            })
        }),
{
    let s = initial(request, message_id);
    let a = start(s, opened);
    let b = feed_all(a.state, c, chunks, 0);
    let end = b.state;
    lemma_whole_call(request, message_id, c, opened, chunks, 1);
    lemma_drain_items(end.calls, 0);
    let output = crate::transitions::final_output(end);
    let first: int = if keeps_message(end) {
        1
    } else {
        0
    };
    assert forall|i: int| 0 <= i < end.calls.len() implies #[trigger] output[first + i]
        == crate::transitions::done_item(end.calls[i]) by {
        assert(crate::transitions::drain_items(end.calls, 0)[i] == crate::transitions::done_item(
            end.calls[0 + i],
        ));
    }
    if end.phase == Phase::Open {
        let h = call_events_of(s, c, opened, chunks, ended);
        law_sequence_numbers(request, message_id, c, opened, chunks, ended);
        let z = finish(end, ended).events;
        assert(h.last() == z.last());
        assert(h[h.len() - 1].seq() == h.len());
    }
}

/// The events that end the tool calls are announcements, full arguments
/// and finished items, each for an output index of at least 1.
pub proof fn lemma_drain_kinds(calls: Seq<ToolCallV>, i: int, n: int)
    ensures
        forall|j: int|
            0 <= j < drain_events(calls, i, n).len() ==> match #[trigger] drain_events(
                calls,
                i,
                n,
            )[j] {
                StreamEventV::ItemAdded { output_index, .. } => output_index >= 1,
                StreamEventV::ArgumentsDone { output_index, .. } => output_index >= 1,
                StreamEventV::ItemDone { output_index, .. } => output_index >= 1,
                _ => false,
            },
    decreases calls.len() - i,
{
    if 0 <= i < calls.len() {
        let here = call_events(calls[i], n);
        let rest = drain_events(calls, i + 1, n + here.len());
        lemma_drain_kinds(calls, i + 1, n + here.len());
        let all = drain_events(calls, i, n);
        assert forall|j: int| 0 <= j < all.len() implies match #[trigger] all[j] {
            StreamEventV::ItemAdded { output_index, .. } => output_index >= 1,
            StreamEventV::ArgumentsDone { output_index, .. } => output_index >= 1,
            StreamEventV::ItemDone { output_index, .. } => output_index >= 1,
            _ => false,
        } by {
            if j < here.len() {
                assert(all[j] == here[j]);
            } else {
                assert(all[j] == rest[j - here.len()]);
            }
        }
    }
}

} // verus!
