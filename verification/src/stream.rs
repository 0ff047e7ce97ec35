//! The streaming translator: the state of one streaming call and the
//! steps that turn an upstream Chat Completions stream into the lifecycle
//! events of a response.

use crate::codec::parse;
use crate::events::{emit, event_views, no_events, StreamEvent, StreamEventV};
use crate::ids::{id_text, next_counter, now_epoch, now_millis, IdMinter};
use crate::json::{lemma_array_view, views, Json};
use crate::request::TranslatedRequest;
use crate::shape::{item_views, status_for, OutputItem, OutputItemV, ResponseObject, Status, Usage};
use crate::sse::take_payloads;
use crate::text::{chars_of, decode_lossy, lemma_empty_text, text_views, utf8_lossy};
use crate::transitions::{
    argued_call, argument_events, call_events, choice_tools, closing_events, cost, cost_from,
    delta_arguments, done_item, drain_events, drain_items, feed_text, final_message,
    final_output, final_response, finish, fold_choices, fold_texts, fold_tools, fresh_call,
    has_room, initial, lemma_cost_nonnegative, lemma_drain_len, lemma_finish, lemma_step_choice,
    lemma_step_payload, lemma_step_tool, load, named_call, progress_item, response_base, slot,
    sorted, start, step_choice, step_payload, step_tool, wf, with_usage, Phase, Step, StreamV,
    ToolCallV,
};
use vstd::prelude::*;
use vstd::string::StringExecFns;

verus! {

/// The state of one tool call under reconstruction.
#[derive(Debug, PartialEq, Eq)]
pub struct ToolCallAcc {
    /// The index under which upstream reports the call.
    pub index: u64,
    /// The identifier that upstream gave the call.
    pub id: String,
    /// The identifier of the output item.
    pub item_id: String,
    pub name: String,
    pub arguments: String,
    /// Whether the item was announced as added.
    pub announced: bool,
}

/// The state of one streaming call.
#[derive(Debug)]
pub struct StreamState {
    phase: Phase,
    request: TranslatedRequest,
    message_id: String,
    sequence: u64,
    text: String,
    calls: Vec<ToolCallAcc>,
    finish_reason: String,
    input_tokens: u64,
    output_tokens: u64,
    total_tokens: u64,
    buffer: Vec<char>,
}

/// The views of a run of tool calls.
pub open spec fn call_views(calls: Seq<ToolCallAcc>) -> Seq<ToolCallV> {
    Seq::new(calls.len(), |i: int| calls[i]@)
}

impl ToolCallAcc {
    /// The mathematical value.
    pub open spec fn view(&self) -> ToolCallV {
        ToolCallV {
            index: self.index,
            call_id: self.id@,
            item_id: self.item_id@,
            name: self.name@,
            arguments: self.arguments@,
            announced: self.announced,
        }
    }

    /// A copy of the call's state.
    pub fn deep_clone(&self) -> (r: ToolCallAcc)
        ensures
            r@ == self@,
    {
        ToolCallAcc {
            index: self.index,
            id: self.id.clone(),
            item_id: self.item_id.clone(),
            name: self.name.clone(),
            arguments: self.arguments.clone(),
            announced: self.announced,
        }
    }

    /// The item of the call as it is announced.
    fn progress(&self) -> (r: OutputItem)
        ensures
            r@ == progress_item(self@),
    {
        proof {
            lemma_empty_text();
        }
        OutputItem::FunctionCall {
            id: self.item_id.clone(),
            status: Status::InProgress,
            call_id: Json::Str(self.id.clone()),
            name: Json::Str(self.name.clone()),
            arguments: Json::string(""),
        }
    }

    /// The item of the call when it is done.
    fn done(&self) -> (r: OutputItem)
        ensures
            r@ == done_item(self@),
    {
        OutputItem::FunctionCall {
            id: self.item_id.clone(),
            status: Status::Completed,
            call_id: Json::Str(self.id.clone()),
            name: Json::Str(self.name.clone()),
            arguments: Json::Str(self.arguments.clone()),
        }
    }
}

impl StreamState {
    /// The mathematical value of the state.
    pub closed spec fn view(&self) -> StreamV {
        StreamV {
            phase: self.phase,
            request: self.request@,
            message_id: self.message_id@,
            sequence: self.sequence as int,
            text: self.text@,
            calls: call_views(self.calls@),
            finish_reason: self.finish_reason@,
            input_tokens: self.input_tokens,
            output_tokens: self.output_tokens,
            total_tokens: self.total_tokens,
            buffer: self.buffer@,
        }
    }

    /// The invariant of the state.
    pub open spec fn wf(&self) -> bool {
        wf(self@)
    }

    /// The state of a call for `request` before anything was emitted; the
    /// identifier of its message is minted at the time `stamp`.
    pub fn new_at(request: TranslatedRequest, ids: &mut IdMinter, stamp: u128) -> (r: StreamState)
        ensures
            r@ == initial(request@, id_text("msg"@, stamp as nat, old(ids).counter as nat)),
            r.wf(),
            final(ids).counter == next_counter(old(ids).counter),
    {
        let message_id = ids.next_id_at("msg", stamp);
        let r = StreamState {
            phase: Phase::Starting,
            request,
            message_id,
            sequence: 0,
            text: String::new(),
            calls: Vec::new(),
            finish_reason: "stop".to_owned(),
            input_tokens: 0,
            output_tokens: 0,
            total_tokens: 0,
            buffer: Vec::new(),
        };
        assert(call_views(r.calls@) =~= Seq::<ToolCallV>::empty());
        r
    }

    /// The state of a call for `request` before anything was emitted; the
    /// identifier of its message is minted at the time the system clock
    /// shows.
    pub fn new(request: TranslatedRequest, ids: &mut IdMinter) -> (r: StreamState)
        ensures
            exists|stamp: nat|
                r@ == initial(
                    request@,
                    #[trigger] id_text("msg"@, stamp, old(ids).counter as nat),
                ),
            r.wf(),
            final(ids).counter == next_counter(old(ids).counter),
    {
        let stamp = now_millis();
        StreamState::new_at(request, ids, stamp)
    }

    /// Where the call stands.
    pub fn phase(&self) -> (r: Phase)
        ensures
            r == self@.phase,
    {
        self.phase
    }

    /// The sequence number of the last event emitted.
    pub fn sequence(&self) -> (r: u64)
        ensures
            r as int == self@.sequence,
    {
        self.sequence
    }

    /// The text of the message so far.
    pub fn text(&self) -> (r: &str)
        ensures
            r@ == self@.text,
    {
        self.text.as_str()
    }

    /// The finish reason that upstream reported last, `stop` at first.
    pub fn finish_reason(&self) -> (r: &str)
        ensures
            r@ == self@.finish_reason,
    {
        self.finish_reason.as_str()
    }

    /// The tool calls seen so far, in ascending order of their index.
    pub fn tool_calls(&self) -> (r: Vec<ToolCallAcc>)
        ensures
            call_views(r@) == self@.calls,
    {
        let mut out: Vec<ToolCallAcc> = Vec::new();
        let mut i: usize = 0;
        while i < self.calls.len()
            invariant
                i <= self.calls.len(),
                out@.len() == i,
                forall|k: int| 0 <= k < i ==> out@[k]@ == self.calls@[k]@,
            decreases self.calls.len() - i,
        {
            out.push(self.calls[i].deep_clone());
            i += 1;
        }
        assert(call_views(out@) =~= call_views(self.calls@));
        out
    }

    /// The request that the call answers.
    pub fn request(&self) -> (r: &TranslatedRequest)
        ensures
            r@ == self@.request,
    {
        &self.request
    }

    /// The response object of the opening events.
    fn response_envelope(&self, now: i64) -> (r: ResponseObject)
        ensures
            r@ == response_base(self@.request, now),
    {
        let output: Vec<OutputItem> = Vec::new();
        assert(item_views(output@) =~= Seq::<OutputItemV>::empty());
        ResponseObject {
            id: self.request.resp_id.clone(),
            created_at: now,
            status: Status::InProgress,
            completed_at: None,
            instructions: self.request.instructions.deep_clone(),
            with_limit: true,
            model: self.request.model.clone(),
            output,
            parallel_tool_calls: self.request.parallel_tool_calls.deep_clone(),
            temperature: self.request.temperature.deep_clone(),
            tool_choice: self.request.tool_choice.deep_clone(),
            tools: self.request.tools_echo.deep_clone(),
            top_p: self.request.top_p.deep_clone(),
            usage: None,
        }
    }

    /// Opens the call at the second `now`: emits the four opening events.
    /// In any phase but the first nothing happens.
    pub fn start_at(&mut self, now: i64) -> (r: Vec<StreamEvent>)
        requires
            old(self).wf(),
        ensures
            final(self).wf(),
            final(self)@ == start(old(self)@, now).state,
            event_views(r@) == start(old(self)@, now).events,
    {
        let mut out = no_events();
        match self.phase {
            Phase::Starting => {
                let first = self.response_envelope(now);
                let second = self.response_envelope(now);
                emit(&mut out, StreamEvent::Created { seq: self.sequence + 1, response: first });
                emit(
                    &mut out,
                    StreamEvent::InProgress { seq: self.sequence + 2, response: second },
                );
                emit(
                    &mut out,
                    StreamEvent::ItemAdded {
                        seq: self.sequence + 3,
                        output_index: 0,
                        item: OutputItem::Message {
                            id: self.message_id.clone(),
                            status: Status::InProgress,
                            text: None,
                        },
                    },
                );
                emit(
                    &mut out,
                    StreamEvent::PartAdded {
                        seq: self.sequence + 4,
                        item_id: self.message_id.clone(),
                    },
                );
                self.sequence = self.sequence + 4;
                self.phase = Phase::Open;
            },
            _ => {},
        }
        out
    }

    /// Opens the call at the time the system clock shows.
    pub fn start(&mut self) -> (r: Vec<StreamEvent>)
        requires
            old(self).wf(),
        ensures
            final(self).wf(),
            exists|now: i64|
                final(self)@ == (#[trigger] start(old(self)@, now)).state && event_views(r@)
                    == start(old(self)@, now).events,
    {
        let now = now_epoch();
        self.start_at(now)
    }

    /// Gives the call up: it ends at once, without a terminal event.
    pub fn abandon(&mut self)
        requires
            old(self).wf(),
        ensures
            final(self).wf(),
            final(self)@ == (StreamV { phase: Phase::Closed, ..old(self)@ }),
    {
        self.phase = Phase::Closed;
    }

    /// The position of the call with index `idx`, or where it belongs.
    fn find_slot(&self, idx: u64) -> (p: usize)
        ensures
            p == slot(self@.calls, idx, 0),
            p <= self.calls@.len(),
    {
        let ghost calls = call_views(self.calls@);
        let mut p: usize = 0;
        while p < self.calls.len() && self.calls[p].index < idx
            invariant
                p <= self.calls.len(),
                calls == call_views(self.calls@),
                slot(calls, idx, 0) == slot(calls, idx, p as int),
            decreases self.calls.len() - p,
        {
            p += 1;
        }
        p
    }

    /// Takes the call at position `p` out where the index was found, or
    /// opens a new one.
    fn take_call(
        &mut self,
        tc: &Json,
        ids: &mut IdMinter,
        stamp: u128,
        p: usize,
        found: bool,
    ) -> (acc: ToolCallAcc)
        requires
            found ==> p < old(self)@.calls.len(),
        ensures
            acc@ == (if found {
                old(self)@.calls[p as int]
            } else {
                fresh_call(tc@, id_text("fc"@, stamp as nat, old(ids).counter as nat))
            }),
            final(ids).counter == (if found {
                old(ids).counter
            } else {
                next_counter(old(ids).counter)
            }),
            final(self)@ == (StreamV {
                calls: if found {
                    old(self)@.calls.remove(p as int)
                } else {
                    old(self)@.calls
                },
                ..old(self)@
            }),
    {
        if found {
            let acc = self.calls.remove(p);
            assert(call_views(self.calls@) =~= call_views(old(self).calls@).remove(p as int));
            acc
        } else {
            proof {
                lemma_empty_text();
            }
            let id = match tc.get_str("id") {
                Some(t) => t.to_owned(),
                None => String::new(),
            };
            ToolCallAcc {
                index: match tc.get_u64("index") {
                    Some(n) => n,
                    None => 0,
                },
                id,
                item_id: ids.next_id_at("fc", stamp),
                name: String::new(),
                arguments: String::new(),
                announced: false,
            }
        }
    }

    /// Puts a call at position `p`.
    fn put_call(&mut self, p: usize, acc: ToolCallAcc)
        requires
            p <= old(self)@.calls.len(),
        ensures
            final(self)@ == (StreamV {
                calls: old(self)@.calls.insert(p as int, acc@),
                ..old(self)@
            }),
    {
        self.calls.insert(p, acc);
        assert(call_views(self.calls@) =~= call_views(old(self).calls@).insert(p as int, acc@));
    }

    /// Takes in one tool-call delta.
    fn apply_tool(
        &mut self,
        tc: &Json,
        ids: &mut IdMinter,
        stamp: u128,
        out: &mut Vec<StreamEvent>,
    )
        requires
            sorted(old(self)@.calls),
            0 <= old(self)@.sequence,
            load(old(self)@) + 5 <= u64::MAX,
        ensures
            final(self)@ == step_tool(old(self)@, old(ids).counter, stamp as nat, tc@).state,
            final(ids).counter == step_tool(
                old(self)@,
                old(ids).counter,
                stamp as nat,
                tc@,
            ).counter,
            event_views(final(out)@) == event_views(old(out)@) + step_tool(
                old(self)@,
                old(ids).counter,
                stamp as nat,
                tc@,
            ).events,
    {
        let ghost s0 = self@;
        let ghost e0 = event_views(out@);
        let idx = match tc.get_u64("index") {
            Some(n) => n,
            None => 0,
        };
        if idx == u64::MAX {
            assert(event_views(out@) =~= e0 + Seq::<StreamEventV>::empty());
            return ;
        }
        let p = self.find_slot(idx);
        let found = p < self.calls.len() && self.calls[p].index == idx;
        assert(found == (p < s0.calls.len() && s0.calls[p as int].index == idx));
        let mut acc = self.take_call(tc, ids, stamp, p, found);
        name_call(&mut acc, tc);
        match tool_arguments(tc) {
            Some(a) => {
                let n = argue(self.sequence, &mut acc, a, out);
                self.sequence = n;
            },
            None => {
                assert(event_views(out@) =~= e0 + Seq::<StreamEventV>::empty());
            },
        }
        let ghost last = acc@;
        self.put_call(p, acc);
        proof {
            if found {
                assert(s0.calls.remove(p as int).insert(p as int, last) =~= s0.calls.update(
                    p as int,
                    last,
                ));
            }
        }
    }

    /// Takes in the tool-call deltas `tcs`, in order.
    fn apply_tools(
        &mut self,
        tcs: &Vec<Json>,
        ids: &mut IdMinter,
        stamp: u128,
        out: &mut Vec<StreamEvent>,
    )
        requires
            sorted(old(self)@.calls),
            0 <= old(self)@.sequence,
            load(old(self)@) + 5 * tcs@.len() <= u64::MAX,
        ensures
            final(self)@ == fold_tools(
                old(self)@,
                old(ids).counter,
                stamp as nat,
                views(tcs@),
                0,
            ).state,
            final(ids).counter == fold_tools(
                old(self)@,
                old(ids).counter,
                stamp as nat,
                views(tcs@),
                0,
            ).counter,
            event_views(final(out)@) == event_views(old(out)@) + fold_tools(
                old(self)@,
                old(ids).counter,
                stamp as nat,
                views(tcs@),
                0,
            ).events,
    {
        let ghost s0 = self@;
        let ghost c0 = ids.counter;
        let ghost e0 = event_views(out@);
        let ghost all = views(tcs@);
        let ghost total = fold_tools(s0, c0, stamp as nat, all, 0);
        let mut i: usize = 0;
        assert(e0 + total.events =~= event_views(out@) + total.events);
        while i < tcs.len()
            invariant
                i <= tcs.len(),
                all == views(tcs@),
                sorted(self@.calls),
                0 <= self@.sequence,
                load(self@) + 5 * (tcs@.len() - i) <= u64::MAX,
                total.state == fold_tools(self@, ids.counter, stamp as nat, all, i as int).state,
                total.counter == fold_tools(
                    self@,
                    ids.counter,
                    stamp as nat,
                    all,
                    i as int,
                ).counter,
                e0 + total.events == event_views(out@) + fold_tools(
                    self@,
                    ids.counter,
                    stamp as nat,
                    all,
                    i as int,
                ).events,
            decreases tcs.len() - i,
        {
            let ghost s = self@;
            let ghost c = ids.counter;
            let ghost e = event_views(out@);
            proof {
                lemma_step_tool(s, c, stamp as nat, all[i as int]);
            }
            self.apply_tool(&tcs[i], ids, stamp, out);
            let ghost a = step_tool(s, c, stamp as nat, all[i as int]);
            let ghost b = fold_tools(a.state, a.counter, stamp as nat, all, i + 1);
            assert(e + (a.events + b.events) =~= event_views(out@) + b.events);
            i += 1;
        }
        assert(event_views(out@) =~= e0 + total.events);
    }

    /// Takes in one choice of a payload.
    fn apply_choice(
        &mut self,
        choice: &Json,
        ids: &mut IdMinter,
        stamp: u128,
        out: &mut Vec<StreamEvent>,
    )
        requires
            sorted(old(self)@.calls),
            0 <= old(self)@.sequence,
            load(old(self)@) + 1 + 5 * choice_tools(choice@).len() <= u64::MAX,
        ensures
            final(self)@ == step_choice(old(self)@, old(ids).counter, stamp as nat, choice@).state,
            final(ids).counter == step_choice(
                old(self)@,
                old(ids).counter,
                stamp as nat,
                choice@,
            ).counter,
            event_views(final(out)@) == event_views(old(out)@) + step_choice(
                old(self)@,
                old(ids).counter,
                stamp as nat,
                choice@,
            ).events,
    {
        let ghost s0 = self@;
        let ghost c0 = ids.counter;
        let ghost e0 = event_views(out@);
        let ghost r = step_choice(s0, c0, stamp as nat, choice@);
        match choice.get_str("finish_reason") {
            Some(reason) => {
                self.finish_reason = reason.to_owned();
            },
            None => {},
        }
        match choice.get("delta") {
            Some(delta) => {
                match delta.get_str("content") {
                    Some(t) => {
                        if !t.is_empty() {
                            self.text.append(t);
                            self.sequence = self.sequence + 1;
                            emit(
                                out,
                                StreamEvent::TextDelta {
                                    seq: self.sequence,
                                    item_id: self.message_id.clone(),
                                    delta: t.to_owned(),
                                },
                            );
                        }
                    },
                    None => {},
                }
                match delta.get("tool_calls") {
                    Some(Json::Array(tcs)) => {
                        proof {
                            lemma_array_view(*tcs);
                        }
                        self.apply_tools(tcs, ids, stamp, out);
                        assert(event_views(out@) =~= e0 + r.events);
                    },
                    _ => {
                        assert(event_views(out@) =~= e0 + r.events);
                    },
                }
            },
            None => {
                assert(event_views(out@) =~= e0 + r.events);
            },
        }
    }

    /// Takes in the choices of a payload, in order.
    fn apply_choices(
        &mut self,
        choices: &Vec<Json>,
        ids: &mut IdMinter,
        stamp: u128,
        out: &mut Vec<StreamEvent>,
    )
        requires
            sorted(old(self)@.calls),
            0 <= old(self)@.sequence,
            load(old(self)@) + cost_from(views(choices@), 0) <= u64::MAX,
        ensures
            final(self)@ == fold_choices(
                old(self)@,
                old(ids).counter,
                stamp as nat,
                views(choices@),
                0,
            ).state,
            final(ids).counter == fold_choices(
                old(self)@,
                old(ids).counter,
                stamp as nat,
                views(choices@),
                0,
            ).counter,
            event_views(final(out)@) == event_views(old(out)@) + fold_choices(
                old(self)@,
                old(ids).counter,
                stamp as nat,
                views(choices@),
                0,
            ).events,
    {
        let ghost s0 = self@;
        let ghost c0 = ids.counter;
        let ghost e0 = event_views(out@);
        let ghost all = views(choices@);
        let ghost total = fold_choices(s0, c0, stamp as nat, all, 0);
        let mut i: usize = 0;
        assert(e0 + total.events =~= event_views(out@) + total.events);
        while i < choices.len()
            invariant
                i <= choices.len(),
                all == views(choices@),
                sorted(self@.calls),
                0 <= self@.sequence,
                load(self@) + cost_from(all, i as int) <= u64::MAX,
                total.state == fold_choices(self@, ids.counter, stamp as nat, all, i as int).state,
                total.counter == fold_choices(
                    self@,
                    ids.counter,
                    stamp as nat,
                    all,
                    i as int,
                ).counter,
                e0 + total.events == event_views(out@) + fold_choices(
                    self@,
                    ids.counter,
                    stamp as nat,
                    all,
                    i as int,
                ).events,
            decreases choices.len() - i,
        {
            let ghost s = self@;
            let ghost c = ids.counter;
            let ghost e = event_views(out@);
            proof {
                lemma_step_choice(s, c, stamp as nat, all[i as int]);
                lemma_cost_nonnegative(all, i + 1);
            }
            self.apply_choice(&choices[i], ids, stamp, out);
            let ghost a = step_choice(s, c, stamp as nat, all[i as int]);
            let ghost b = fold_choices(a.state, a.counter, stamp as nat, all, i + 1);
            assert(e + (a.events + b.events) =~= event_views(out@) + b.events);
            i += 1;
        }
        assert(event_views(out@) =~= e0 + total.events);
    }

    /// Whether the sequence numbers that the payload may take up still fit.
    fn check_room(&self, payload: &Json) -> (r: bool)
        requires
            self.wf(),
            self@.phase == Phase::Open,
        ensures
            r == has_room(self@, payload@),
    {
        let choices = match payload.get_array("choices") {
            Some(c) => c,
            None => {
                return true;
            },
        };
        let ghost all = views(choices@);
        let calls: u64 = self.calls.len() as u64;
        let mut left: u64 = u64::MAX - 4 - self.sequence - 3 * calls;
        let mut i: usize = 0;
        while i < choices.len()
            invariant
                i <= choices.len(),
                all == views(choices@),
                cost(payload@) == cost_from(all, 0),
                left + cost_from(all, 0) - cost_from(all, i as int) == u64::MAX - load(self@),
            decreases choices.len() - i,
        {
            proof {
                lemma_cost_nonnegative(all, i + 1);
            }
            let tools: usize = match choices[i].get("delta") {
                Some(d) => match d.get("tool_calls") {
                    Some(Json::Array(tcs)) => {
                        proof {
                            lemma_array_view(*tcs);
                        }
                        tcs.len()
                    },
                    _ => 0,
                },
                None => 0,
            };
            assert(tools == choice_tools(all[i as int]).len());
            if left < 1 || tools as u64 > (left - 1) / 5 {
                return false;
            }
            left = left - 1 - 5 * (tools as u64);
            i += 1;
        }
        true
    }

    /// Takes in the usage of a payload.
    fn take_usage(&mut self, payload: &Json)
        ensures
            final(self)@ == with_usage(old(self)@, payload@),
    {
        match payload.get("usage") {
            Some(u) => {
                match u.get_u64("prompt_tokens") {
                    Some(n) => {
                        self.input_tokens = n;
                    },
                    None => {},
                }
                match u.get_u64("completion_tokens") {
                    Some(n) => {
                        self.output_tokens = n;
                    },
                    None => {},
                }
                match u.get_u64("total_tokens") {
                    Some(n) => {
                        self.total_tokens = n;
                    },
                    None => {},
                }
            },
            None => {},
        }
    }

    /// Takes in one payload and appends its events.
    fn apply_payload(
        &mut self,
        payload: &Json,
        ids: &mut IdMinter,
        stamp: u128,
        out: &mut Vec<StreamEvent>,
    )
        requires
            old(self).wf(),
        ensures
            final(self).wf(),
            final(self)@ == step_payload(
                old(self)@,
                old(ids).counter,
                stamp as nat,
                payload@,
            ).state,
            final(ids).counter == step_payload(
                old(self)@,
                old(ids).counter,
                stamp as nat,
                payload@,
            ).counter,
            event_views(final(out)@) == event_views(old(out)@) + step_payload(
                old(self)@,
                old(ids).counter,
                stamp as nat,
                payload@,
            ).events,
    {
        let ghost e0 = event_views(out@);
        proof {
            lemma_step_payload(self@, ids.counter, stamp as nat, payload@);
        }
        match self.phase {
            Phase::Open => {},
            _ => {
                assert(event_views(out@) =~= e0 + Seq::<StreamEventV>::empty());
                return ;
            },
        }
        if !self.check_room(payload) {
            self.phase = Phase::Closed;
            assert(event_views(out@) =~= e0 + Seq::<StreamEventV>::empty());
            return ;
        }
        self.take_usage(payload);
        match payload.get_array("choices") {
            Some(choices) => {
                self.apply_choices(choices, ids, stamp, out);
            },
            None => {
                assert(event_views(out@) =~= e0 + Seq::<StreamEventV>::empty());
            },
        }
    }

    /// Takes in one payload of the upstream stream, already parsed; item
    /// identifiers are minted at the time `stamp`.
    pub fn on_payload(&mut self, payload: &Json, ids: &mut IdMinter, stamp: u128) -> (r: Vec<
        StreamEvent,
    >)
        requires
            old(self).wf(),
        ensures
            final(self).wf(),
            final(self)@ == step_payload(
                old(self)@,
                old(ids).counter,
                stamp as nat,
                payload@,
            ).state,
            final(ids).counter == step_payload(
                old(self)@,
                old(ids).counter,
                stamp as nat,
                payload@,
            ).counter,
            event_views(r@) == step_payload(
                old(self)@,
                old(ids).counter,
                stamp as nat,
                payload@,
            ).events,
    {
        let mut out = no_events();
        self.apply_payload(payload, ids, stamp, &mut out);
        assert(Seq::<StreamEventV>::empty() + step_payload(
            old(self)@,
            old(ids).counter,
            stamp as nat,
            payload@,
        ).events =~= step_payload(old(self)@, old(ids).counter, stamp as nat, payload@).events);
        out
    }

    /// Takes in a run of upstream text; item identifiers are minted at the
    /// time `stamp`.
    pub fn feed_text_at(&mut self, text: &str, ids: &mut IdMinter, stamp: u128) -> (r: Vec<
        StreamEvent,
    >)
        requires
            old(self).wf(),
        ensures
            final(self).wf(),
            final(self)@ == feed_text(old(self)@, old(ids).counter, stamp as nat, text@).state,
            final(ids).counter == feed_text(
                old(self)@,
                old(ids).counter,
                stamp as nat,
                text@,
            ).counter,
            event_views(r@) == feed_text(old(self)@, old(ids).counter, stamp as nat, text@).events,
    {
        let mut out = no_events();
        match self.phase {
            Phase::Open => {},
            _ => {
                return out;
            },
        }
        let ghost s0 = self@;
        let ghost c0 = ids.counter;
        let mut chars = chars_of(text);
        self.buffer.append(&mut chars);
        let texts = take_payloads(&mut self.buffer);
        let ghost all = text_views(texts@);
        let ghost s1 = self@;
        assert(s1 == (StreamV { buffer: crate::sse::remainder(s0.buffer + text@), ..s0 }));
        let ghost total = fold_texts(s1, c0, stamp as nat, all, 0);
        assert(total.events =~= event_views(out@) + total.events);
        let mut i: usize = 0;
        while i < texts.len()
            invariant
                i <= texts.len(),
                all == text_views(texts@),
                self.wf(),
                total.state == fold_texts(self@, ids.counter, stamp as nat, all, i as int).state,
                total.counter == fold_texts(
                    self@,
                    ids.counter,
                    stamp as nat,
                    all,
                    i as int,
                ).counter,
                total.events == event_views(out@) + fold_texts(
                    self@,
                    ids.counter,
                    stamp as nat,
                    all,
                    i as int,
                ).events,
            decreases texts.len() - i,
        {
            let ghost s = self@;
            let ghost c = ids.counter;
            let ghost e = event_views(out@);
            match parse(texts[i].as_str()) {
                Some(payload) => {
                    self.apply_payload(&payload, ids, stamp, &mut out);
                },
                None => {
                    assert(event_views(out@) =~= e + Seq::<StreamEventV>::empty());
                },
            }
            let ghost a = match crate::codec::json_parse(all[i as int]) {
                Some(p) => step_payload(s, c, stamp as nat, p),
                None => Step { state: s, counter: c, events: Seq::empty() },
            };
            let ghost b = fold_texts(a.state, a.counter, stamp as nat, all, i + 1);
            assert(e + (a.events + b.events) =~= event_views(out@) + b.events);
            i += 1;
        }
        assert(event_views(out@) =~= total.events);
        out
    }

    /// Takes in a chunk of the upstream stream; bytes that are no valid
    /// UTF-8 are replaced, and item identifiers are minted at the time
    /// `stamp`.
    pub fn feed_at(&mut self, chunk: &[u8], ids: &mut IdMinter, stamp: u128) -> (r: Vec<
        StreamEvent,
    >)
        requires
            old(self).wf(),
        ensures
            final(self).wf(),
            final(self)@ == feed_text(
                old(self)@,
                old(ids).counter,
                stamp as nat,
                utf8_lossy(chunk@),
            ).state,
            final(ids).counter == feed_text(
                old(self)@,
                old(ids).counter,
                stamp as nat,
                utf8_lossy(chunk@),
            ).counter,
            event_views(r@) == feed_text(
                old(self)@,
                old(ids).counter,
                stamp as nat,
                utf8_lossy(chunk@),
            ).events,
    {
        let text = decode_lossy(chunk);
        self.feed_text_at(text.as_str(), ids, stamp)
    }

    /// Takes in a chunk of the upstream stream; item identifiers are minted
    /// at the time the system clock shows.
    pub fn feed(&mut self, chunk: &[u8], ids: &mut IdMinter) -> (r: Vec<StreamEvent>)
        requires
            old(self).wf(),
        ensures
            final(self).wf(),
            exists|stamp: nat|
                {
                    let step = #[trigger] feed_text(
                        old(self)@,
                        old(ids).counter,
                        stamp,
                        utf8_lossy(chunk@),
                    );
                    &&& final(self)@ == step.state
                    &&& final(ids).counter == step.counter
                    &&& event_views(r@) == step.events
                },
    {
        let stamp = now_millis();
        self.feed_at(chunk, ids, stamp)
    }

    /// Emits the events that end the text of the message.
    fn close_text(&mut self, out: &mut Vec<StreamEvent>)
        requires
            0 <= old(self)@.sequence,
            old(self)@.sequence + 2 <= u64::MAX,
        ensures
            final(self)@ == (StreamV {
                sequence: old(self)@.sequence + closing_events(old(self)@).len(),
                ..old(self)@
            }),
            event_views(final(out)@) == event_views(old(out)@) + closing_events(old(self)@),
    {
        let ghost e0 = event_views(out@);
        if !self.text.as_str().is_empty() {
            emit(
                out,
                StreamEvent::TextDone {
                    seq: self.sequence + 1,
                    item_id: self.message_id.clone(),
                    text: self.text.clone(),
                },
            );
            emit(
                out,
                StreamEvent::PartDone {
                    seq: self.sequence + 2,
                    item_id: self.message_id.clone(),
                    text: self.text.clone(),
                },
            );
            self.sequence = self.sequence + 2;
        } else if self.calls.len() > 0 {
            emit(
                out,
                StreamEvent::PartDone {
                    seq: self.sequence + 1,
                    item_id: self.message_id.clone(),
                    text: String::new(),
                },
            );
            self.sequence = self.sequence + 1;
        }
        assert(event_views(out@) =~= e0 + closing_events(old(self)@));
    }

    /// The finished response object.
    fn closing_response(&self, output: Vec<OutputItem>, now: i64) -> (r: ResponseObject)
        requires
            item_views(output@) == final_output(self@),
        ensures
            r@ == final_response(self@, now),
    {
        ResponseObject {
            id: self.request.resp_id.clone(),
            created_at: now,
            status: status_for(self.finish_reason.as_str()),
            completed_at: Some(now),
            instructions: self.request.instructions.deep_clone(),
            with_limit: false,
            model: self.request.model.clone(),
            output,
            parallel_tool_calls: self.request.parallel_tool_calls.deep_clone(),
            temperature: self.request.temperature.deep_clone(),
            tool_choice: self.request.tool_choice.deep_clone(),
            tools: self.request.tools_echo.deep_clone(),
            top_p: self.request.top_p.deep_clone(),
            usage: Some(
                Usage {
                    input_tokens: Json::Unsigned(self.input_tokens),
                    output_tokens: Json::Unsigned(self.output_tokens),
                    total_tokens: Json::Unsigned(self.total_tokens),
                },
            ),
        }
    }

    /// Ends the call at the second `now`: closes the text, finishes the
    /// items and emits the terminal event. In any phase but the open one
    /// nothing happens.
    pub fn finish_at(&mut self, now: i64) -> (r: Vec<StreamEvent>)
        requires
            old(self).wf(),
        ensures
            final(self).wf(),
            final(self)@ == finish(old(self)@, now).state,
            event_views(r@) == finish(old(self)@, now).events,
    {
        let mut out = no_events();
        match self.phase {
            Phase::Open => {},
            _ => {
                return out;
            },
        }
        let ghost s0 = self@;
        proof {
            lemma_finish(s0, now);
            lemma_drain_len(s0.calls, 0, 0);
        }
        self.close_text(&mut out);
        let mut output: Vec<OutputItem> = Vec::new();
        assert(item_views(output@) =~= Seq::<OutputItemV>::empty());
        if !self.text.as_str().is_empty() || self.calls.len() == 0 {
            let item = OutputItem::Message {
                id: self.message_id.clone(),
                status: status_for(self.finish_reason.as_str()),
                text: Some(self.text.clone()),
            };
            self.sequence = self.sequence + 1;
            emit(
                &mut out,
                StreamEvent::ItemDone { seq: self.sequence, output_index: 0, item: item.deep_clone() },
            );
            output.push(item);
            assert(item_views(output@) =~= seq![final_message(s0)]);
        }
        let ghost n2 = self.sequence as int;
        proof {
            lemma_drain_len(s0.calls, 0, n2);
        }
        let n3 = drain_calls(&self.calls, self.sequence, &mut out, &mut output);
        assert(item_views(output@) == final_output(s0));
        self.sequence = n3 + 1;
        let response = self.closing_response(output, now);
        assert(response@ == final_response(s0, now));
        emit(&mut out, StreamEvent::Finished { seq: self.sequence, response });
        self.phase = Phase::Closed;
        assert(event_views(out@) =~= finish(s0, now).events);
        out
    }

    /// Ends the call at the time the system clock shows.
    pub fn finish(&mut self) -> (r: Vec<StreamEvent>)
        requires
            old(self).wf(),
        ensures
            final(self).wf(),
            exists|now: i64|
                final(self)@ == (#[trigger] finish(old(self)@, now)).state && event_views(r@)
                    == finish(old(self)@, now).events,
    {
        let now = now_epoch();
        self.finish_at(now)
    }
}

/// Takes the identifier and the name fragment of a delta into a call.
fn name_call(acc: &mut ToolCallAcc, tc: &Json)
    ensures
        final(acc)@ == named_call(old(acc)@, tc@),
{
    match tc.get_str("id") {
        Some(id) => {
            if !id.is_empty() {
                acc.id = id.to_owned();
            }
        },
        None => {},
    }
    match tc.get("function") {
        Some(f) => {
            match f.get_str("name") {
                Some(n) => {
                    acc.name.append(n);
                },
                None => {},
            }
        },
        None => {},
    }
}

/// The arguments fragment of a tool-call delta.
fn tool_arguments(tc: &Json) -> (r: Option<&str>)
    ensures
        match r {
            Some(a) => delta_arguments(tc@) == Some(a@),
            None => delta_arguments(tc@) is None,
        },
{
    match tc.get("function") {
        Some(f) => f.get_str("arguments"),
        None => None,
    }
}

/// Takes an arguments fragment into a call and emits its events, numbered
/// from `sequence + 1` on. Returns the last number used.
fn argue(sequence: u64, acc: &mut ToolCallAcc, a: &str, out: &mut Vec<StreamEvent>) -> (n: u64)
    requires
        sequence + 2 <= u64::MAX,
        old(acc).index < u64::MAX,
    ensures
        final(acc)@ == argued_call(old(acc)@, a@),
        n == sequence + argument_events(old(acc)@, a@, sequence as int).len(),
        event_views(final(out)@) == event_views(old(out)@) + argument_events(
            old(acc)@,
            a@,
            sequence as int,
        ),
{
    let ghost e0 = event_views(out@);
    let mut n = sequence;
    if !acc.announced && !acc.name.as_str().is_empty() {
        n = n + 1;
        emit(
            out,
            StreamEvent::ItemAdded { seq: n, output_index: acc.index + 1, item: acc.progress() },
        );
        acc.announced = true;
    }
    acc.arguments.append(a);
    n = n + 1;
    emit(
        out,
        StreamEvent::ArgumentsDelta {
            seq: n,
            item_id: acc.item_id.clone(),
            output_index: acc.index + 1,
            delta: a.to_owned(),
        },
    );
    assert(event_views(out@) =~= e0 + argument_events(old(acc)@, a@, sequence as int));
    n
}

/// Emits the events that end the tool calls, numbered from `sequence + 1`
/// on, and appends their finished items. Returns the last number used.
fn drain_calls(
    calls: &Vec<ToolCallAcc>,
    sequence: u64,
    out: &mut Vec<StreamEvent>,
    output: &mut Vec<OutputItem>,
) -> (n: u64)
    requires
        sorted(call_views(calls@)),
        sequence + 3 * calls@.len() <= u64::MAX,
    ensures
        n == sequence + drain_events(call_views(calls@), 0, sequence as int).len(),
        event_views(final(out)@) == event_views(old(out)@) + drain_events(
            call_views(calls@),
            0,
            sequence as int,
        ),
        item_views(final(output)@) == item_views(old(output)@) + drain_items(
            call_views(calls@),
            0,
        ),
{
    let ghost all = call_views(calls@);
    let ghost e0 = event_views(out@);
    let ghost o0 = item_views(output@);
    let ghost events = drain_events(all, 0, sequence as int);
    let ghost items = drain_items(all, 0);
    let mut n: u64 = sequence;
    let mut i: usize = 0;
    assert(e0 + events =~= event_views(out@) + events);
    assert(o0 + items =~= item_views(output@) + items);
    while i < calls.len()
        invariant
            i <= calls.len(),
            all == call_views(calls@),
            sorted(all),
            n + 3 * (calls@.len() - i) <= u64::MAX,
            n + drain_events(all, i as int, n as int).len() == sequence + events.len(),
            e0 + events == event_views(out@) + drain_events(all, i as int, n as int),
            o0 + items == item_views(output@) + drain_items(all, i as int),
        decreases calls.len() - i,
    {
        let ghost e = event_views(out@);
        let ghost o = item_views(output@);
        let ghost before = n as int;
        let acc = &calls[i];
        assert(acc@ == all[i as int]);
        assert(acc.index < u64::MAX);
        if !acc.announced {
            n = n + 1;
            emit(
                out,
                StreamEvent::ItemAdded { seq: n, output_index: acc.index + 1, item: acc.progress() },
            );
        }
        n = n + 1;
        emit(
            out,
            StreamEvent::ArgumentsDone {
                seq: n,
                item_id: acc.item_id.clone(),
                output_index: acc.index + 1,
                name: acc.name.clone(),
                arguments: acc.arguments.clone(),
            },
        );
        n = n + 1;
        let item = acc.done();
        emit(
            out,
            StreamEvent::ItemDone { seq: n, output_index: acc.index + 1, item: item.deep_clone() },
        );
        output.push(item);
        let ghost here = call_events(all[i as int], before);
        assert(event_views(out@) =~= e + here);
        assert(item_views(output@) =~= o + seq![done_item(all[i as int])]);
        assert(e + (here + drain_events(all, i + 1, before + here.len())) =~= event_views(out@)
            + drain_events(all, i + 1, n as int));
        assert(o + (seq![done_item(all[i as int])] + drain_items(all, i + 1)) =~= item_views(
            output@,
        ) + drain_items(all, i + 1));
        i += 1;
    }
    assert(event_views(out@) =~= e0 + events);
    assert(item_views(output@) =~= o0 + items);
    n
}

} // verus!
