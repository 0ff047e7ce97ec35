//! The text of the message and its text deltas.

use crate::events::StreamEventV;
use crate::json::JsonV;
use crate::laws::{call_events_of, feed_all, state_at_end, Chunk};
use crate::laws::frame::lemma_feed_all_quiet;
use crate::laws::numbering::lemma_feed_all_numbered;
use crate::laws::tool_calls::lemma_drain_kinds;
use crate::request::TranslatedRequestV;
use crate::transitions::{
    choice_fragment, choice_tools, closing_events, drain_events, feed_text, final_message,
    final_response, finish, fold_choices, fold_texts, fold_tools, has_room, initial,
    keeps_message, start, step_choice, step_payload, step_tool, with_usage, Phase, Step,
    StreamV,
};
use vstd::prelude::*;

verus! {

/// The text that an event adds to the message.
pub open spec fn text_fragment(e: StreamEventV) -> Seq<char> {
    match e {
        StreamEventV::TextDelta { delta, .. } => delta,
        _ => Seq::empty(),
    }
}

/// The text that the events add to the message, one fragment after the
/// other.
pub open spec fn text_of(h: Seq<StreamEventV>) -> Seq<char>
    decreases h.len(),
{
    if h.len() == 0 {
        Seq::empty()
    } else {
        text_of(h.drop_last()) + text_fragment(h.last())
    }
}

/// Whether every text delta among the events carries text, and is a delta
/// of the message `id`.
pub open spec fn text_sound(h: Seq<StreamEventV>, id: Seq<char>) -> bool {
    forall|i: int|
        0 <= i < h.len() ==> match #[trigger] h[i] {
            StreamEventV::TextDelta { item_id, delta, .. } => item_id == id && delta.len() > 0,
            _ => true,
        }
}

/// The text of two runs of events is the text of each, one after the other.
pub proof fn lemma_text_concat(a: Seq<StreamEventV>, b: Seq<StreamEventV>, id: Seq<char>)
    ensures
        text_of(a + b) == text_of(a) + text_of(b),
        text_sound(a, id) && text_sound(b, id) ==> text_sound(a + b, id),
    decreases b.len(),
{
    if b.len() == 0 {
        assert(a + b =~= a);
        assert(text_of(a) + text_of(b) =~= text_of(a));
    } else {
        assert((a + b).drop_last() =~= a + b.drop_last());
        assert((a + b).last() == b.last());
        lemma_text_concat(a, b.drop_last(), id);
        assert(text_of(a + b) =~= text_of(a) + text_of(b));
    }
    if text_sound(a, id) && text_sound(b, id) {
        assert forall|i: int| 0 <= i < (a + b).len() implies match #[trigger] (a + b)[i] {
            StreamEventV::TextDelta { item_id, delta, .. } => item_id == id && delta.len() > 0,
            _ => true,
        } by {
            if i < a.len() {
                assert((a + b)[i] == a[i]);
            } else {
                assert((a + b)[i] == b[i - a.len()]);
            }
        }
    }
}

/// Events without a text delta add no text.
pub proof fn lemma_textless(h: Seq<StreamEventV>, id: Seq<char>)
    requires
        forall|i: int| 0 <= i < h.len() ==> !((#[trigger] h[i]) is TextDelta),
    ensures
        text_of(h) == Seq::<char>::empty(),
        text_sound(h, id),
    decreases h.len(),
{
    if h.len() > 0 {
        let rest = h.drop_last();
        assert forall|i: int| 0 <= i < rest.len() implies !((#[trigger] rest[i]) is TextDelta) by {
            assert(rest[i] == h[i]);
        }
        lemma_textless(rest, id);
        assert(!(h[h.len() - 1] is TextDelta));
        assert(text_of(h) =~= Seq::<char>::empty());
    }
}

/// Where text deltas that all carry text add up to no text, there is no
/// text delta.
pub proof fn lemma_text_empty(h: Seq<StreamEventV>, id: Seq<char>)
    requires
        text_sound(h, id),
        text_of(h).len() == 0,
    ensures
        forall|i: int| 0 <= i < h.len() ==> !((#[trigger] h[i]) is TextDelta),
    decreases h.len(),
{
    if h.len() > 0 {
        let rest = h.drop_last();
        assert(h.last() == h[h.len() - 1]);
        assert(text_sound(rest, id)) by {
            assert forall|i: int| 0 <= i < rest.len() implies match #[trigger] rest[i] {
                StreamEventV::TextDelta { item_id, delta, .. } => item_id == id && delta.len() > 0,
                _ => true,
            } by {
                assert(rest[i] == h[i]);
            }
        }
        assert(text_of(h).len() == text_of(rest).len() + text_fragment(h.last()).len());
        lemma_text_empty(rest, id);
        assert forall|i: int| 0 <= i < h.len() implies !((#[trigger] h[i]) is TextDelta) by {
            if i < rest.len() {
                assert(rest[i] == h[i]);
            }
        }
    }
}

/// A run of tool-call deltas brings no text delta and leaves the text as
/// it is.
pub proof fn lemma_fold_tools_text(s: StreamV, c: u64, stamp: nat, tcs: Seq<JsonV>, i: int)
    ensures
        fold_tools(s, c, stamp, tcs, i).state.text == s.text,
        fold_tools(s, c, stamp, tcs, i).state.message_id == s.message_id,
        forall|j: int|
            0 <= j < fold_tools(s, c, stamp, tcs, i).events.len() ==> !((#[trigger] fold_tools(
                s,
                c,
                stamp,
                tcs,
                i,
            ).events[j]) is TextDelta),
    decreases tcs.len() - i,
{
    if 0 <= i < tcs.len() {
        let a = step_tool(s, c, stamp, tcs[i]);
        let b = fold_tools(a.state, a.counter, stamp, tcs, i + 1);
        lemma_fold_tools_text(a.state, a.counter, stamp, tcs, i + 1);
        let all = a.events + b.events;
        assert forall|j: int| 0 <= j < all.len() implies !((#[trigger] all[j]) is TextDelta) by {
            if j < a.events.len() {
                assert(all[j] == a.events[j]);
            } else {
                assert(all[j] == b.events[j - a.events.len()]);
            }
        }
    }
}

/// A run of choices adds to the text what its text deltas carry.
pub proof fn lemma_fold_choices_text(s: StreamV, c: u64, stamp: nat, choices: Seq<JsonV>, i: int)
    ensures
        fold_choices(s, c, stamp, choices, i).state.text == s.text + text_of(
            fold_choices(s, c, stamp, choices, i).events,
        ),
        fold_choices(s, c, stamp, choices, i).state.message_id == s.message_id,
        text_sound(fold_choices(s, c, stamp, choices, i).events, s.message_id),
    decreases choices.len() - i,
{
    let id = s.message_id;
    if 0 <= i < choices.len() {
        let choice = choices[i];
        let s1 = match choice.get_str("finish_reason"@) {
            Some(reason) => StreamV { finish_reason: reason, ..s },
            None => s,
        };
        let a = step_choice(s, c, stamp, choice);
        match choice_fragment(choice) {
            Some(t) => {
                let s2 = StreamV { text: s1.text + t, sequence: s1.sequence + 1, ..s1 };
                let tools = fold_tools(s2, c, stamp, choice_tools(choice), 0);
                lemma_fold_tools_text(s2, c, stamp, choice_tools(choice), 0);
                lemma_textless(tools.events, id);
                let first = seq![
                    StreamEventV::TextDelta {
                        seq: s1.sequence + 1,
                        item_id: s1.message_id,
                        delta: t,
                    },
                ];
                assert(first.drop_last() =~= Seq::<StreamEventV>::empty());
                assert(text_of(first.drop_last()) =~= Seq::<char>::empty());
                assert(text_fragment(first.last()) == t);
                assert(text_of(first) =~= t);
                assert(text_sound(first, id));
                lemma_text_concat(first, tools.events, id);
                assert(a.state.text =~= s.text + text_of(a.events));
            },
            None => {
                let tools = fold_tools(s1, c, stamp, choice_tools(choice), 0);
                lemma_fold_tools_text(s1, c, stamp, choice_tools(choice), 0);
                lemma_textless(tools.events, id);
                assert(a.state.text =~= s.text + text_of(a.events));
            },
        }
        let b = fold_choices(a.state, a.counter, stamp, choices, i + 1);
        lemma_fold_choices_text(a.state, a.counter, stamp, choices, i + 1);
        lemma_text_concat(a.events, b.events, id);
        assert(b.state.text =~= s.text + text_of(a.events + b.events));
    } else {
        assert(s.text + text_of(Seq::<StreamEventV>::empty()) =~= s.text);
    }
}

/// A run of payload texts adds to the text what its text deltas carry.
pub proof fn lemma_fold_texts_text(s: StreamV, c: u64, stamp: nat, texts: Seq<Seq<char>>, i: int)
    ensures
        fold_texts(s, c, stamp, texts, i).state.text == s.text + text_of(
            fold_texts(s, c, stamp, texts, i).events,
        ),
        fold_texts(s, c, stamp, texts, i).state.message_id == s.message_id,
        text_sound(fold_texts(s, c, stamp, texts, i).events, s.message_id),
    decreases texts.len() - i,
{
    let id = s.message_id;
    if 0 <= i < texts.len() {
        let a = match crate::codec::json_parse(texts[i]) {
            Some(p) => step_payload(s, c, stamp, p),
            None => Step { state: s, counter: c, events: Seq::empty() },
        };
        assert(a.state.text == s.text + text_of(a.events) && a.state.message_id == id
            && text_sound(a.events, id)) by {
            assert(s.text + text_of(Seq::<StreamEventV>::empty()) =~= s.text);
            match crate::codec::json_parse(texts[i]) {
                Some(p) => {
                    if s.phase == Phase::Open && has_room(s, p) {
                        match p.get_array("choices"@) {
                            Some(choices) => {
                                lemma_fold_choices_text(with_usage(s, p), c, stamp, choices, 0);
                            },
                            None => {},
                        }
                    }
                },
                None => {},
            }
        }
        let b = fold_texts(a.state, a.counter, stamp, texts, i + 1);
        lemma_fold_texts_text(a.state, a.counter, stamp, texts, i + 1);
        lemma_text_concat(a.events, b.events, id);
        assert(b.state.text =~= s.text + text_of(a.events + b.events));
    } else {
        assert(s.text + text_of(Seq::<StreamEventV>::empty()) =~= s.text);
    }
}

/// A run of chunks adds to the text what its text deltas carry.
pub proof fn lemma_feed_all_text(s: StreamV, c: u64, chunks: Seq<Chunk>, i: int)
    ensures
        feed_all(s, c, chunks, i).state.text == s.text + text_of(feed_all(s, c, chunks, i).events),
        feed_all(s, c, chunks, i).state.message_id == s.message_id,
        text_sound(feed_all(s, c, chunks, i).events, s.message_id),
    decreases chunks.len() - i,
{
    let id = s.message_id;
    if 0 <= i < chunks.len() {
        let a = feed_text(s, c, chunks[i].stamp, chunks[i].text);
        if s.phase == Phase::Open {
            let all = s.buffer + chunks[i].text;
            lemma_fold_texts_text(
                StreamV { buffer: crate::sse::remainder(all), ..s },
                c,
                chunks[i].stamp,
                crate::sse::payloads(all),
                0,
            );
        } else {
            assert(s.text + text_of(Seq::<StreamEventV>::empty()) =~= s.text);
        }
        let b = feed_all(a.state, a.counter, chunks, i + 1);
        lemma_feed_all_text(a.state, a.counter, chunks, i + 1);
        lemma_text_concat(a.events, b.events, id);
        assert(b.state.text =~= s.text + text_of(a.events + b.events));
    } else {
        assert(s.text + text_of(Seq::<StreamEventV>::empty()) =~= s.text);
    }
}

/// Text: the text deltas of a call, one after the other, are the text of
/// its message at the end of the stream; each carries text and belongs to
/// the message; and where the text is announced as done, the whole text is
/// announced. A call without text has no text delta and no such
/// announcement.
///
/// Turn without text: where such a call reached its end with at least one
/// tool call, the part of its message is closed once, empty, right after
/// the last event of the stream; its message is not finished as an item;
/// and its output holds the finished tool calls alone.
pub proof fn law_text(
    request: TranslatedRequestV,
    message_id: Seq<char>,
    c: u64,
    opened: i64,
    chunks: Seq<Chunk>,
    ended: i64,
)
    ensures
        ({
            let end = state_at_end(initial(request, message_id), c, opened, chunks);
            let h = call_events_of(initial(request, message_id), c, opened, chunks, ended);
            &&& end.text == text_of(h)
            &&& text_sound(h, message_id)
            &&& forall|i: int|
                0 <= i < h.len() ==> match #[trigger] h[i] {
                    StreamEventV::TextDone { item_id, text, .. } => item_id == message_id && text
                        == end.text && text.len() > 0,
                    _ => true,
                }
            &&& end.text.len() == 0 ==> forall|i: int|
                0 <= i < h.len() ==> !((#[trigger] h[i]) is TextDelta) && !(h[i] is TextDone)
            &&& end.phase == Phase::Open && end.text.len() == 0 && end.calls.len() > 0 ==> {
                &&& end.sequence < h.len()
                &&& h[end.sequence] == (StreamEventV::PartDone {
                    seq: end.sequence + 1,
                    item_id: message_id,
                    text: Seq::empty(),
                })
                &&& forall|i: int|
                    0 <= i < h.len() && (#[trigger] h[i]) is PartDone ==> i == end.sequence
                &&& forall|i: int|
                    0 <= i < h.len() ==> match #[trigger] h[i] {
                        StreamEventV::ItemDone { output_index, .. } => output_index >= 1,
                        _ => true,
                    }
                &&& final_response(end, ended).output == crate::transitions::drain_items(
                    end.calls,
                    0,
                )
            }
        }),
{
    let s = initial(request, message_id);
    let a = start(s, opened);
    let b = feed_all(a.state, c, chunks, 0);
    let end = b.state;
    let z = finish(end, ended);
    let h = call_events_of(s, c, opened, chunks, ended);
    let id = message_id;
    lemma_feed_all_text(a.state, c, chunks, 0);
    lemma_feed_all_quiet(a.state, c, chunks, 0);
    lemma_feed_all_numbered(a.state, c, chunks, 0);
    assert forall|i: int| 0 <= i < a.events.len() implies !((#[trigger] a.events[i]) is TextDelta) by {}
    lemma_textless(a.events, id);
    lemma_text_concat(a.events, b.events, id);
    assert(h =~= (a.events + b.events) + z.events);
    assert(end.text =~= text_of(a.events + b.events)) by {
        assert(Seq::<char>::empty() + text_of(b.events) =~= text_of(b.events));
    }
    assert(end.sequence == 4 + b.events.len());
    if end.phase == Phase::Open {
        let e1 = closing_events(end);
        let n1 = end.sequence + e1.len();
        let e2: Seq<StreamEventV> = if keeps_message(end) {
            seq![StreamEventV::ItemDone { seq: n1 + 1, output_index: 0, item: final_message(end) }]
        } else {
            Seq::empty()
        };
        let n2 = n1 + e2.len();
        let e3 = drain_events(end.calls, 0, n2);
        let n3 = n2 + e3.len();
        let e4 = seq![StreamEventV::Finished { seq: n3 + 1, response: final_response(end, ended) }];
        lemma_drain_kinds(end.calls, 0, n2);
        assert(z.events =~= ((e1 + e2) + e3) + e4);
        assert forall|j: int| 0 <= j < z.events.len() implies !((#[trigger] z.events[j])
            is TextDelta) && (z.events[j] is TextDone ==> j == 0 && end.text.len() > 0
            && z.events[j] == e1[0]) && (z.events[j] is PartDone ==> j < e1.len() && z.events[j]
            == e1[j]) && (z.events[j] matches StreamEventV::ItemDone { output_index, .. }
            && output_index == 0 ==> keeps_message(end)) by {
            if j < e1.len() {
                assert(z.events[j] == e1[j]);
            } else if j < e1.len() + e2.len() {
                assert(z.events[j] == e2[j - e1.len()]);
            } else if j < e1.len() + e2.len() + e3.len() {
                let y = e3[j - e1.len() - e2.len()];
                assert(z.events[j] == y);
                assert(y is ItemAdded || y is ArgumentsDone || y is ItemDone);
            } else {
                assert(z.events[j] == e4[0]);
            }
        }
        lemma_textless(z.events, id);
        lemma_text_concat(a.events + b.events, z.events, id);
        assert(text_of(h) =~= end.text);
        assert forall|i: int| 0 <= i < h.len() implies match #[trigger] h[i] {
            StreamEventV::TextDone { item_id, text, .. } => item_id == message_id && text
                == end.text && text.len() > 0,
            _ => true,
        } by {
            if i < 4 {
                assert(h[i] == a.events[i]);
            } else if i < 4 + b.events.len() {
                let x = b.events[i - 4];
                assert(h[i] == x);
                assert(x is TextDelta || x is ItemAdded || x is ArgumentsDelta);
            } else {
                assert(h[i] == z.events[i - 4 - b.events.len()]);
            }
        }
        if end.text.len() == 0 {
            lemma_text_empty(h, id);
            assert forall|i: int| 0 <= i < h.len() implies !((#[trigger] h[i]) is TextDone) by {}
            if end.calls.len() > 0 {
                assert(h[end.sequence] == z.events[0]);
                assert(z.events[0] == e1[0]);
                assert forall|i: int| 0 <= i < h.len() implies ((#[trigger] h[i]) is PartDone ==> i
                    == end.sequence) && (match h[i] {
                    StreamEventV::ItemDone { output_index, .. } => output_index >= 1,
                    _ => true,
                }) by {
                    if i < 4 {
                        assert(h[i] == a.events[i]);
                    } else if i < 4 + b.events.len() {
                        let x = b.events[i - 4];
                        assert(h[i] == x);
                        assert(x is TextDelta || x is ItemAdded || x is ArgumentsDelta);
                    } else {
                        let j = i - 4 - b.events.len();
                        assert(h[i] == z.events[j]);
                        if e1.len() <= j < e1.len() + e2.len() + e3.len() {
                            let y = e3[j - e1.len() - e2.len()];
                            assert(z.events[j] == y);
                        }
                    }
                }
                assert(final_response(end, ended).output =~= crate::transitions::drain_items(
                    end.calls,
                    0,
                ));
            }
        }
    } else {
        assert(h =~= a.events + b.events);
        assert forall|i: int| 0 <= i < h.len() implies !((#[trigger] h[i]) is TextDone) by {
            if i < 4 {
                assert(h[i] == a.events[i]);
            } else {
                let x = b.events[i - 4];
                assert(h[i] == x);
                assert(x is TextDelta || x is ItemAdded || x is ArgumentsDelta);
            }
        }
        if end.text.len() == 0 {
            lemma_text_empty(h, id);
        }
    }
}

} // verus!
