//! The transitions of the streaming translator, as functions on
//! mathematical values: what each step makes of a state and an input.

use crate::codec::json_parse;
use crate::events::StreamEventV;
use crate::ids::{id_text, next_counter};
use crate::json::JsonV;
use crate::request::{str_or, TranslatedRequestV};
use crate::response::message_item;
use crate::shape::{status_of, OutputItemV, ResponseV, Status, UsageV};
use crate::sse::{payloads, remainder};
use vstd::prelude::*;

verus! {

/// Where a streaming call stands: before its opening events, while the
/// upstream stream is read, or ended.
#[derive(Clone, Copy, PartialEq, Eq, Structural, Debug)]
pub enum Phase {
    Starting,
    Open,
    Closed,
}

/// The state of one tool call under reconstruction, as a mathematical value.
pub struct ToolCallV {
    pub index: u64,
    pub call_id: Seq<char>,
    pub item_id: Seq<char>,
    pub name: Seq<char>,
    pub arguments: Seq<char>,
    pub announced: bool,
}

/// The state of one streaming call, as a mathematical value.
pub struct StreamV {
    pub phase: Phase,
    pub request: TranslatedRequestV,
    pub message_id: Seq<char>,
    /// The sequence number of the last event emitted.
    pub sequence: int,
    pub text: Seq<char>,
    /// The tool calls seen, in ascending order of their index.
    pub calls: Seq<ToolCallV>,
    pub finish_reason: Seq<char>,
    pub input_tokens: u64,
    pub output_tokens: u64,
    pub total_tokens: u64,
    /// What was read after the last complete block.
    pub buffer: Seq<char>,
}

/// The outcome of a step that mints identifiers.
pub struct Step {
    pub state: StreamV,
    pub counter: u64,
    pub events: Seq<StreamEventV>,
}

/// The outcome of a step that mints none.
pub struct Turn {
    pub state: StreamV,
    pub events: Seq<StreamEventV>,
}

/// Whether the calls stand in strictly ascending order of their index, each
/// index below the largest 64-bit value.
pub open spec fn sorted(calls: Seq<ToolCallV>) -> bool {
    &&& forall|i: int, j: int| 0 <= i < j < calls.len() ==> calls[i].index < calls[j].index
    &&& forall|i: int| 0 <= i < calls.len() ==> calls[i].index < u64::MAX
}

/// The sequence number that the state can still reach when it ends: three
/// events for each tool call, and four more.
pub open spec fn load(s: StreamV) -> int {
    s.sequence + 3 * s.calls.len() + 4
}

/// The invariant of a state: its calls are in order, and the sequence
/// numbers it may still need before it ends fit in 64 bits.
pub open spec fn wf(s: StreamV) -> bool {
    &&& 0 <= s.sequence <= u64::MAX
    &&& s.phase != Phase::Closed ==> load(s) <= u64::MAX
    &&& sorted(s.calls)
    &&& s.phase == Phase::Starting ==> s.sequence == 0 && s.calls.len() == 0
}

/// The state of a call before anything was emitted.
pub open spec fn initial(request: TranslatedRequestV, message_id: Seq<char>) -> StreamV {
    StreamV {
        phase: Phase::Starting,
        request,
        message_id,
        sequence: 0,
        text: Seq::empty(),
        calls: Seq::empty(),
        finish_reason: "stop"@,
        input_tokens: 0,
        output_tokens: 0,
        total_tokens: 0,
        buffer: Seq::empty(),
    }
}

/// The response object with which every response of the call agrees but
/// for its status, times, output and usage.
pub open spec fn response_base(req: TranslatedRequestV, now: i64) -> ResponseV {
    ResponseV {
        id: req.resp_id,
        created_at: now,
        status: Status::InProgress,
        completed_at: None,
        instructions: req.instructions,
        with_limit: true,
        model: req.model,
        output: Seq::empty(),
        parallel_tool_calls: req.parallel_tool_calls,
        temperature: req.temperature,
        tool_choice: req.tool_choice,
        tools: req.tools_echo,
        top_p: req.top_p,
        usage: None,
    }
}

/// The message item as it is announced: in progress, without content.
pub open spec fn opening_item(message_id: Seq<char>) -> OutputItemV {
    OutputItemV::Message { id: message_id, status: Status::InProgress, text: None }
}

/// The opening of a call: four events, numbered 1 to 4, before any upstream
/// data is read. In any other phase nothing happens.
pub open spec fn start(s: StreamV, now: i64) -> Turn {
    if s.phase == Phase::Starting {
        Turn {
            state: StreamV { phase: Phase::Open, sequence: s.sequence + 4, ..s },
            events: seq![
                StreamEventV::Created {
                    seq: s.sequence + 1,
                    response: response_base(s.request, now),
                },
                StreamEventV::InProgress {
                    seq: s.sequence + 2,
                    response: response_base(s.request, now),
                },
                StreamEventV::ItemAdded {
                    seq: s.sequence + 3,
                    output_index: 0,
                    item: opening_item(s.message_id),
                },
                StreamEventV::PartAdded { seq: s.sequence + 4, item_id: s.message_id },
            ],
        }
    } else {
        Turn { state: s, events: Seq::empty() }
    }
}

/// The first position at or after `i` whose call has an index of at least
/// `idx`, or the number of calls.
pub open spec fn slot(calls: Seq<ToolCallV>, idx: u64, i: int) -> int
    decreases calls.len() - i,
{
    if 0 <= i < calls.len() && calls[i].index < idx {
        slot(calls, idx, i + 1)
    } else {
        i
    }
}

/// The item of a tool call as it is announced: in progress, with the name
/// known so far and no arguments.
pub open spec fn progress_item(acc: ToolCallV) -> OutputItemV {
    OutputItemV::FunctionCall {
        id: acc.item_id,
        status: Status::InProgress,
        call_id: JsonV::Str(acc.call_id),
        name: JsonV::Str(acc.name),
        arguments: JsonV::Str(Seq::empty()),
    }
}

/// The item of a tool call when it is done.
pub open spec fn done_item(acc: ToolCallV) -> OutputItemV {
    OutputItemV::FunctionCall {
        id: acc.item_id,
        status: Status::Completed,
        call_id: JsonV::Str(acc.call_id),
        name: JsonV::Str(acc.name),
        arguments: JsonV::Str(acc.arguments),
    }
}

/// The index that a tool-call delta names, zero where it names none.
pub open spec fn delta_index(tc: JsonV) -> u64 {
    match tc.get_u64("index"@) {
        Some(n) => n,
        None => 0,
    }
}

/// The call that a delta opens where its index was not seen before.
pub open spec fn fresh_call(tc: JsonV, item_id: Seq<char>) -> ToolCallV {
    ToolCallV {
        index: delta_index(tc),
        call_id: str_or(tc, "id"@, Seq::empty()),
        item_id,
        name: Seq::empty(),
        arguments: Seq::empty(),
        announced: false,
    }
}

/// The call after the delta's identifier and name fragment were taken in:
/// an identifier that is not empty replaces the old one, a name fragment
/// is appended.
pub open spec fn named_call(acc: ToolCallV, tc: JsonV) -> ToolCallV {
    let call_id = match tc.get_str("id"@) {
        Some(id) => if id.len() > 0 {
            id
        } else {
            acc.call_id
        },
        None => acc.call_id,
    };
    let name = match tc.get("function"@) {
        Some(f) => match f.get_str("name"@) {
            Some(n) => acc.name + n,
            None => acc.name,
        },
        None => acc.name,
    };
    ToolCallV { call_id, name, ..acc }
}

/// The arguments fragment of a tool-call delta.
pub open spec fn delta_arguments(tc: JsonV) -> Option<Seq<char>> {
    match tc.get("function"@) {
        Some(f) => f.get_str("arguments"@),
        None => None,
    }
}

/// The calls with `acc` at position `p`: in place of the call there where
/// the index was found, before it otherwise.
pub open spec fn put_call(calls: Seq<ToolCallV>, p: int, found: bool, acc: ToolCallV) -> Seq<
    ToolCallV,
> {
    if found {
        calls.update(p, acc)
    } else {
        calls.insert(p, acc)
    }
}

/// Whether an arguments fragment announces the call first: where it has a
/// name and was not announced before.
pub open spec fn announces(acc: ToolCallV) -> bool {
    !acc.announced && acc.name.len() > 0
}

/// The call after the arguments fragment `a` was taken in.
pub open spec fn argued_call(acc: ToolCallV, a: Seq<char>) -> ToolCallV {
    ToolCallV { announced: acc.announced || announces(acc), arguments: acc.arguments + a, ..acc }
}

/// The events for the arguments fragment `a` of the call `acc`, numbered
/// from `n + 1` on: the announcement where it is due, then the delta.
pub open spec fn argument_events(acc: ToolCallV, a: Seq<char>, n: int) -> Seq<StreamEventV> {
    if announces(acc) {
        seq![
            StreamEventV::ItemAdded {
                seq: n + 1,
                output_index: acc.index + 1,
                item: progress_item(acc),
            },
            StreamEventV::ArgumentsDelta {
                seq: n + 2,
                item_id: acc.item_id,
                output_index: acc.index + 1,
                delta: a,
            },
        ]
    } else {
        seq![
            StreamEventV::ArgumentsDelta {
                seq: n + 1,
                item_id: acc.item_id,
                output_index: acc.index + 1,
                delta: a,
            },
        ]
    }
}

/// One tool-call delta. The call for its index is found or opened (a new
/// call mints its item identifier); identifier and name are taken in; and
/// an arguments fragment first announces the item, where it has a name and
/// was not announced, then is appended and sent on as a delta. A delta
/// whose index is the largest 64-bit value has no output index and is left
/// out.
pub open spec fn step_tool(s: StreamV, c: u64, stamp: nat, tc: JsonV) -> Step {
    let idx = delta_index(tc);
    if idx == u64::MAX {
        Step { state: s, counter: c, events: Seq::empty() }
    } else {
        let p = slot(s.calls, idx, 0);
        let found = p < s.calls.len() && s.calls[p].index == idx;
        let before = if found {
            s.calls[p]
        } else {
            fresh_call(tc, id_text("fc"@, stamp, c as nat))
        };
        let counter = if found {
            c
        } else {
            next_counter(c)
        };
        let acc = named_call(before, tc);
        match delta_arguments(tc) {
            None => Step {
                state: StreamV { calls: put_call(s.calls, p, found, acc), ..s },
                counter,
                events: Seq::empty(),
            },
            Some(a) => Step {
                state: StreamV {
                    calls: put_call(s.calls, p, found, argued_call(acc, a)),
                    sequence: s.sequence + argument_events(acc, a, s.sequence).len(),
                    ..s
                },
                counter,
                events: argument_events(acc, a, s.sequence),
            },
        }
    }
}

/// The tool-call deltas from position `i` on, one after the other.
pub open spec fn fold_tools(s: StreamV, c: u64, stamp: nat, tcs: Seq<JsonV>, i: int) -> Step
    decreases tcs.len() - i,
{
    if 0 <= i < tcs.len() {
        let a = step_tool(s, c, stamp, tcs[i]);
        let b = fold_tools(a.state, a.counter, stamp, tcs, i + 1);
        Step { state: b.state, counter: b.counter, events: a.events + b.events }
    } else {
        Step { state: s, counter: c, events: Seq::empty() }
    }
}

/// The tool-call deltas of a choice.
pub open spec fn choice_tools(choice: JsonV) -> Seq<JsonV> {
    match choice.get("delta"@) {
        Some(d) => match d.get("tool_calls"@) {
            Some(JsonV::Array(tcs)) => tcs,
            _ => Seq::empty(),
        },
        None => Seq::empty(),
    }
}

/// The text fragment of a choice, where it has one that is not empty.
pub open spec fn choice_fragment(choice: JsonV) -> Option<Seq<char>> {
    match choice.get("delta"@) {
        Some(d) => match d.get_str("content"@) {
            Some(t) => if t.len() > 0 {
                Some(t)
            } else {
                None
            },
            None => None,
        },
        None => None,
    }
}

/// One choice of a payload: its finish reason replaces the old one, a text
/// fragment that is not empty is appended and sent on at once, and its
/// tool-call deltas follow in order.
pub open spec fn step_choice(s: StreamV, c: u64, stamp: nat, choice: JsonV) -> Step {
    let s1 = match choice.get_str("finish_reason"@) {
        Some(reason) => StreamV { finish_reason: reason, ..s },
        None => s,
    };
    match choice_fragment(choice) {
        Some(t) => {
            let s2 = StreamV { text: s1.text + t, sequence: s1.sequence + 1, ..s1 };
            let r = fold_tools(s2, c, stamp, choice_tools(choice), 0);
            Step {
                state: r.state,
                counter: r.counter,
                events: seq![
                    StreamEventV::TextDelta {
                        seq: s1.sequence + 1,
                        item_id: s1.message_id,
                        delta: t,
                    },
                ] + r.events,
            }
        },
        None => fold_tools(s1, c, stamp, choice_tools(choice), 0),
    }
}

/// The choices from position `i` on, one after the other.
pub open spec fn fold_choices(s: StreamV, c: u64, stamp: nat, choices: Seq<JsonV>, i: int) -> Step
    decreases choices.len() - i,
{
    if 0 <= i < choices.len() {
        let a = step_choice(s, c, stamp, choices[i]);
        let b = fold_choices(a.state, a.counter, stamp, choices, i + 1);
        Step { state: b.state, counter: b.counter, events: a.events + b.events }
    } else {
        Step { state: s, counter: c, events: Seq::empty() }
    }
}

/// The sequence numbers that the choices from position `i` on may take up:
/// one for each choice and five for each tool-call delta.
pub open spec fn cost_from(choices: Seq<JsonV>, i: int) -> int
    decreases choices.len() - i,
{
    if 0 <= i < choices.len() {
        1 + 5 * choice_tools(choices[i]).len() + cost_from(choices, i + 1)
    } else {
        0
    }
}

/// The sequence numbers that a payload may take up.
pub open spec fn cost(payload: JsonV) -> int {
    match payload.get_array("choices"@) {
        Some(choices) => cost_from(choices, 0),
        None => 0,
    }
}

/// Whether the sequence numbers that the payload may take up still fit.
pub open spec fn has_room(s: StreamV, payload: JsonV) -> bool {
    load(s) + cost(payload) <= u64::MAX
}

/// The state after the usage of a payload was taken in: each count that
/// the payload reports as an integer replaces the old one.
pub open spec fn with_usage(s: StreamV, payload: JsonV) -> StreamV {
    match payload.get("usage"@) {
        Some(u) => StreamV {
            input_tokens: match u.get_u64("prompt_tokens"@) {
                Some(n) => n,
                None => s.input_tokens,
            },
            output_tokens: match u.get_u64("completion_tokens"@) {
                Some(n) => n,
                None => s.output_tokens,
            },
            total_tokens: match u.get_u64("total_tokens"@) {
                Some(n) => n,
                None => s.total_tokens,
            },
            ..s
        },
        None => s,
    }
}

/// One payload of the upstream stream. Outside the open phase nothing
/// happens. A payload for which the sequence numbers would not fit ends the
/// call without a terminal event.
pub open spec fn step_payload(s: StreamV, c: u64, stamp: nat, payload: JsonV) -> Step {
    if s.phase != Phase::Open {
        Step { state: s, counter: c, events: Seq::empty() }
    } else if !has_room(s, payload) {
        Step { state: StreamV { phase: Phase::Closed, ..s }, counter: c, events: Seq::empty() }
    } else {
        match payload.get_array("choices"@) {
            Some(choices) => fold_choices(with_usage(s, payload), c, stamp, choices, 0),
            None => Step { state: with_usage(s, payload), counter: c, events: Seq::empty() },
        }
    }
}

/// The payload texts from position `i` on, one after the other; a text
/// that is no JSON document is passed over.
pub open spec fn fold_texts(s: StreamV, c: u64, stamp: nat, texts: Seq<Seq<char>>, i: int) -> Step
    decreases texts.len() - i,
{
    if 0 <= i < texts.len() {
        let a = match json_parse(texts[i]) {
            Some(p) => step_payload(s, c, stamp, p),
            None => Step { state: s, counter: c, events: Seq::empty() },
        };
        let b = fold_texts(a.state, a.counter, stamp, texts, i + 1);
        Step { state: b.state, counter: b.counter, events: a.events + b.events }
    } else {
        Step { state: s, counter: c, events: Seq::empty() }
    }
}

/// A run of upstream text: it is appended to what was left over, the
/// payloads of the blocks that are now complete are processed in order, and
/// the unfinished block is kept. Outside the open phase nothing happens.
pub open spec fn feed_text(s: StreamV, c: u64, stamp: nat, text: Seq<char>) -> Step {
    if s.phase != Phase::Open {
        Step { state: s, counter: c, events: Seq::empty() }
    } else {
        let all = s.buffer + text;
        fold_texts(StreamV { buffer: remainder(all), ..s }, c, stamp, payloads(all), 0)
    }
}

/// The events that end one tool call, numbered from `n + 1` on: the
/// announcement where it is still owed, the full arguments, and the item.
pub open spec fn call_events(acc: ToolCallV, n: int) -> Seq<StreamEventV> {
    let k: int = if acc.announced {
        0
    } else {
        1
    };
    (if acc.announced {
        Seq::empty()
    } else {
        seq![
            StreamEventV::ItemAdded {
                seq: n + 1,
                output_index: acc.index + 1,
                item: progress_item(acc),
            },
        ]
    }) + seq![
        StreamEventV::ArgumentsDone {
            seq: n + k + 1,
            item_id: acc.item_id,
            output_index: acc.index + 1,
            name: acc.name,
            arguments: acc.arguments,
        },
        StreamEventV::ItemDone { seq: n + k + 2, output_index: acc.index + 1, item: done_item(acc) },
    ]
}

/// The events that end the tool calls from position `i` on, numbered from
/// `n + 1` on.
pub open spec fn drain_events(calls: Seq<ToolCallV>, i: int, n: int) -> Seq<StreamEventV>
    decreases calls.len() - i,
{
    if 0 <= i < calls.len() {
        let here = call_events(calls[i], n);
        here + drain_events(calls, i + 1, n + here.len())
    } else {
        Seq::empty()
    }
}

/// The finished items of the tool calls from position `i` on.
pub open spec fn drain_items(calls: Seq<ToolCallV>, i: int) -> Seq<OutputItemV>
    decreases calls.len() - i,
{
    if 0 <= i < calls.len() {
        seq![done_item(calls[i])] + drain_items(calls, i + 1)
    } else {
        Seq::empty()
    }
}

/// The events that end the text of the message: the full text and its part
/// where there is text, the part alone and empty where there is none but a
/// tool call, nothing otherwise.
pub open spec fn closing_events(s: StreamV) -> Seq<StreamEventV> {
    if s.text.len() > 0 {
        seq![
            StreamEventV::TextDone { seq: s.sequence + 1, item_id: s.message_id, text: s.text },
            StreamEventV::PartDone { seq: s.sequence + 2, item_id: s.message_id, text: s.text },
        ]
    } else if s.calls.len() > 0 {
        seq![
            StreamEventV::PartDone {
                seq: s.sequence + 1,
                item_id: s.message_id,
                text: Seq::empty(),
            },
        ]
    } else {
        Seq::empty()
    }
}

/// Whether the message item is part of the output: where it has text, or
/// where no tool call stands in for it.
pub open spec fn keeps_message(s: StreamV) -> bool {
    s.text.len() > 0 || s.calls.len() == 0
}

/// The finished message item.
pub open spec fn final_message(s: StreamV) -> OutputItemV {
    message_item(s.message_id, status_of(s.finish_reason), s.text)
}

/// The output of the finished response: the message where it is kept,
/// then the tool calls in ascending order of their index.
pub open spec fn final_output(s: StreamV) -> Seq<OutputItemV> {
    (if keeps_message(s) {
        seq![final_message(s)]
    } else {
        Seq::empty()
    }) + drain_items(s.calls, 0)
}

/// The finished response object.
pub open spec fn final_response(s: StreamV, now: i64) -> ResponseV {
    ResponseV {
        status: status_of(s.finish_reason),
        completed_at: Some(now),
        with_limit: false,
        output: final_output(s),
        usage: Some(
            UsageV {
                input_tokens: JsonV::Int(s.input_tokens as int),
                output_tokens: JsonV::Int(s.output_tokens as int),
                total_tokens: JsonV::Int(s.total_tokens as int),
            },
        ),
        ..response_base(s.request, now)
    }
}

/// The end of the upstream stream: the text is closed, the message item is
/// finished where it is kept, each tool call is finished in ascending
/// order of its index, and one terminal event carries the whole response.
/// Outside the open phase nothing happens.
pub open spec fn finish(s: StreamV, now: i64) -> Turn {
    if s.phase != Phase::Open {
        Turn { state: s, events: Seq::empty() }
    } else {
        let e1 = closing_events(s);
        let n1 = s.sequence + e1.len();
        let e2 = if keeps_message(s) {
            seq![StreamEventV::ItemDone { seq: n1 + 1, output_index: 0, item: final_message(s) }]
        } else {
            Seq::empty()
        };
        let n2 = n1 + e2.len();
        let e3 = drain_events(s.calls, 0, n2);
        let n3 = n2 + e3.len();
        Turn {
            state: StreamV { phase: Phase::Closed, sequence: n3 + 1, ..s },
            events: e1 + e2 + e3 + seq![
                StreamEventV::Finished { seq: n3 + 1, response: final_response(s, now) },
            ],
        }
    }
}

/// Where `slot` lands: every call before it has a smaller index, and the
/// call at it, if any, has not.
pub proof fn lemma_slot(calls: Seq<ToolCallV>, idx: u64, i: int)
    requires
        0 <= i <= calls.len(),
    ensures
        i <= slot(calls, idx, i) <= calls.len(),
        forall|k: int| i <= k < slot(calls, idx, i) ==> calls[k].index < idx,
        slot(calls, idx, i) < calls.len() ==> calls[slot(calls, idx, i)].index >= idx,
    decreases calls.len() - i,
{
    if i < calls.len() && calls[i].index < idx {
        lemma_slot(calls, idx, i + 1);
    }
}

/// Putting a call with index `idx` at its slot keeps the calls in order.
pub proof fn lemma_put_call_sorted(calls: Seq<ToolCallV>, idx: u64, acc: ToolCallV)
    requires
        sorted(calls),
        acc.index == idx,
        idx < u64::MAX,
    ensures
        ({
            let p = slot(calls, idx, 0);
            let found = p < calls.len() && calls[p].index == idx;
            &&& sorted(put_call(calls, p, found, acc))
            &&& put_call(calls, p, found, acc).len() == calls.len() + (if found {
                0int
            } else {
                1int
            })
            &&& 0 <= p < put_call(calls, p, found, acc).len()
            &&& put_call(calls, p, found, acc)[p] == acc
        }),
{
    lemma_slot(calls, idx, 0);
    let p = slot(calls, idx, 0);
    let found = p < calls.len() && calls[p].index == idx;
    let after = put_call(calls, p, found, acc);
    if found {
        assert forall|i: int, j: int| 0 <= i < j < after.len() implies after[i].index
            < after[j].index by {
            assert(calls[i].index < calls[j].index);
        }
    } else {
        assert forall|i: int, j: int| 0 <= i < j < after.len() implies after[i].index
            < after[j].index by {
            if j < p {
                assert(calls[i].index < calls[j].index);
            } else if j == p {
                assert(calls[i].index < idx);
            } else if i < p {
                assert(calls[i].index < idx);
                assert(calls[j - 1].index >= idx) by {
                    if j - 1 > p {
                        assert(calls[p].index < calls[j - 1].index);
                    }
                }
            } else if i == p {
                assert(calls[j - 1].index > idx) by {
                    if j - 1 > p {
                        assert(calls[p].index < calls[j - 1].index);
                    }
                }
            } else {
                assert(calls[i - 1].index < calls[j - 1].index);
            }
        }
    }
}

/// One tool-call delta keeps the invariant's parts and takes up at most
/// five of the sequence numbers still to be had.
pub proof fn lemma_step_tool(s: StreamV, c: u64, stamp: nat, tc: JsonV)
    requires
        sorted(s.calls),
    ensures
        ({
            let r = step_tool(s, c, stamp, tc);
            &&& sorted(r.state.calls)
            &&& s.sequence <= r.state.sequence
            &&& load(r.state) <= load(s) + 5
            &&& r.state.phase == s.phase
            &&& r.state.calls.len() >= s.calls.len()
        }),
{
    let idx = delta_index(tc);
    if idx != u64::MAX {
        let p = slot(s.calls, idx, 0);
        let found = p < s.calls.len() && s.calls[p].index == idx;
        let before = if found {
            s.calls[p]
        } else {
            fresh_call(tc, id_text("fc"@, stamp, c as nat))
        };
        let acc = named_call(before, tc);
        lemma_put_call_sorted(s.calls, idx, acc);
        match delta_arguments(tc) {
            None => {},
            Some(a) => {
                lemma_put_call_sorted(s.calls, idx, argued_call(acc, a));
            },
        }
    }
}

/// The tool-call deltas from position `i` on keep the invariant's parts and
/// take up at most five sequence numbers each.
pub proof fn lemma_fold_tools(s: StreamV, c: u64, stamp: nat, tcs: Seq<JsonV>, i: int)
    requires
        sorted(s.calls),
        0 <= i <= tcs.len(),
    ensures
        ({
            let r = fold_tools(s, c, stamp, tcs, i);
            &&& sorted(r.state.calls)
            &&& s.sequence <= r.state.sequence
            &&& load(r.state) <= load(s) + 5 * (tcs.len() - i)
            &&& r.state.phase == s.phase
            &&& r.state.calls.len() >= s.calls.len()
        }),
    decreases tcs.len() - i,
{
    if i < tcs.len() {
        lemma_step_tool(s, c, stamp, tcs[i]);
        let a = step_tool(s, c, stamp, tcs[i]);
        lemma_fold_tools(a.state, a.counter, stamp, tcs, i + 1);
    }
}

/// One choice keeps the invariant's parts and takes up at most one
/// sequence number and five for each of its tool-call deltas.
pub proof fn lemma_step_choice(s: StreamV, c: u64, stamp: nat, choice: JsonV)
    requires
        sorted(s.calls),
    ensures
        ({
            let r = step_choice(s, c, stamp, choice);
            &&& sorted(r.state.calls)
            &&& s.sequence <= r.state.sequence
            &&& load(r.state) <= load(s) + 1 + 5 * choice_tools(choice).len()
            &&& r.state.phase == s.phase
            &&& r.state.calls.len() >= s.calls.len()
        }),
{
    let s1 = match choice.get_str("finish_reason"@) {
        Some(reason) => StreamV { finish_reason: reason, ..s },
        None => s,
    };
    match choice_fragment(choice) {
        Some(t) => {
            let s2 = StreamV { text: s1.text + t, sequence: s1.sequence + 1, ..s1 };
            lemma_fold_tools(s2, c, stamp, choice_tools(choice), 0);
        },
        None => {
            lemma_fold_tools(s1, c, stamp, choice_tools(choice), 0);
        },
    }
}

/// The choices from position `i` on keep the invariant's parts and take up
/// at most their cost.
pub proof fn lemma_fold_choices(s: StreamV, c: u64, stamp: nat, choices: Seq<JsonV>, i: int)
    requires
        sorted(s.calls),
        0 <= i <= choices.len(),
    ensures
        ({
            let r = fold_choices(s, c, stamp, choices, i);
            &&& sorted(r.state.calls)
            &&& s.sequence <= r.state.sequence
            &&& load(r.state) <= load(s) + cost_from(choices, i)
            &&& r.state.phase == s.phase
            &&& r.state.calls.len() >= s.calls.len()
        }),
    decreases choices.len() - i,
{
    if i < choices.len() {
        lemma_step_choice(s, c, stamp, choices[i]);
        let a = step_choice(s, c, stamp, choices[i]);
        lemma_fold_choices(a.state, a.counter, stamp, choices, i + 1);
    }
}

/// A cost is never negative.
pub proof fn lemma_cost_nonnegative(choices: Seq<JsonV>, i: int)
    ensures
        cost_from(choices, i) >= 0,
    decreases choices.len() - i,
{
    if 0 <= i < choices.len() {
        lemma_cost_nonnegative(choices, i + 1);
    }
}

/// A payload keeps the invariant.
pub proof fn lemma_step_payload(s: StreamV, c: u64, stamp: nat, payload: JsonV)
    requires
        wf(s),
    ensures
        wf(step_payload(s, c, stamp, payload).state),
        step_payload(s, c, stamp, payload).state.phase != Phase::Starting || s.phase
            == Phase::Starting,
{
    if s.phase == Phase::Open && has_room(s, payload) {
        match payload.get_array("choices"@) {
            Some(choices) => {
                lemma_fold_choices(with_usage(s, payload), c, stamp, choices, 0);
            },
            None => {},
        }
    }
}

/// Payload texts keep the invariant.
pub proof fn lemma_fold_texts(s: StreamV, c: u64, stamp: nat, texts: Seq<Seq<char>>, i: int)
    requires
        wf(s),
        0 <= i <= texts.len(),
    ensures
        wf(fold_texts(s, c, stamp, texts, i).state),
    decreases texts.len() - i,
{
    if i < texts.len() {
        let a = match json_parse(texts[i]) {
            Some(p) => step_payload(s, c, stamp, p),
            None => Step { state: s, counter: c, events: Seq::empty() },
        };
        match json_parse(texts[i]) {
            Some(p) => {
                lemma_step_payload(s, c, stamp, p);
            },
            None => {},
        }
        lemma_fold_texts(a.state, a.counter, stamp, texts, i + 1);
    }
}

/// Ending the tool calls from position `i` on takes two or three events
/// each.
pub proof fn lemma_drain_len(calls: Seq<ToolCallV>, i: int, n: int)
    requires
        0 <= i <= calls.len(),
    ensures
        2 * (calls.len() - i) <= drain_events(calls, i, n).len() <= 3 * (calls.len() - i),
    decreases calls.len() - i,
{
    if i < calls.len() {
        let here = call_events(calls[i], n);
        lemma_drain_len(calls, i + 1, n + here.len());
    }
}

/// The end of the stream keeps the invariant.
pub proof fn lemma_finish(s: StreamV, now: i64)
    requires
        wf(s),
    ensures
        wf(finish(s, now).state),
        s.phase == Phase::Open ==> finish(s, now).state.sequence == s.sequence + finish(
            s,
            now,
        ).events.len(),
{
    if s.phase == Phase::Open {
        let e1 = closing_events(s);
        let n1 = s.sequence + e1.len();
        let e2: Seq<StreamEventV> = if keeps_message(s) {
            seq![StreamEventV::ItemDone { seq: n1 + 1, output_index: 0, item: final_message(s) }]
        } else {
            Seq::empty()
        };
        let n2 = n1 + e2.len();
        lemma_drain_len(s.calls, 0, n2);
    }
}

} // verus!
