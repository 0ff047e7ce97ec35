//! The non-stream response translator: from one complete Chat Completions
//! response to one complete response object.

use crate::ids::{id_text, next_counter, now_epoch, now_millis, IdMinter};
use crate::json::{lemma_array_view, views, Json, JsonV};
use crate::request::{TranslatedRequest, TranslatedRequestV};
use crate::shape::{
    item_views, new_entries, response_json, status_for, status_of, OutputItem, OutputItemV,
    ResponseObject, ResponseV, Status, Usage, UsageV,
};
use crate::text::lemma_empty_text;
use vstd::prelude::*;

verus! {

/// The counter after `n` identifiers were minted from `c`.
pub open spec fn bump(c: u64, n: nat) -> u64
    decreases n,
{
    if n == 0 {
        c
    } else {
        bump(next_counter(c), (n - 1) as nat)
    }
}

/// Minting `a` identifiers and then `b` more is minting `a + b`.
pub proof fn lemma_bump_add(c: u64, a: nat, b: nat)
    ensures
        bump(bump(c, a), b) == bump(c, a + b),
    decreases a,
{
    if a > 0 {
        lemma_bump_add(next_counter(c), (a - 1) as nat, b);
    }
}

/// Minting one more identifier advances the counter once more.
pub proof fn lemma_bump_step(c: u64, n: nat)
    ensures
        bump(c, n + 1) == next_counter(bump(c, n)),
{
    lemma_bump_add(c, n, 1);
    assert(bump(bump(c, n), 1) == next_counter(bump(c, n))) by {
        reveal_with_fuel(bump, 2);
    }
}

/// The output item for one tool call of the upstream message; its
/// arguments are the empty string where the call has none.
pub open spec fn call_item(tc: JsonV, id: Seq<char>) -> OutputItemV {
    let func = tc.get_or("function"@, JsonV::Object(Seq::empty()));
    OutputItemV::FunctionCall {
        id,
        status: Status::Completed,
        call_id: tc.get_or("id"@, JsonV::Null),
        name: func.get_or("name"@, JsonV::Null),
        arguments: func.get_or("arguments"@, JsonV::Str(Seq::empty())),
    }
}

/// The output items for the tool calls from position `i` on; their
/// identifiers carry the counters from `c` on.
pub open spec fn call_items(tcs: Seq<JsonV>, i: int, c: u64, stamp: nat) -> Seq<OutputItemV>
    decreases tcs.len() - i,
{
    if 0 <= i < tcs.len() {
        seq![call_item(tcs[i], id_text("fc"@, stamp, c as nat))] + call_items(
            tcs,
            i + 1,
            next_counter(c),
            stamp,
        )
    } else {
        Seq::empty()
    }
}

/// The tool calls of a choice's message.
pub open spec fn choice_calls(choice: JsonV) -> Seq<JsonV> {
    match choice.get("message"@) {
        Some(msg) => match msg.get("tool_calls"@) {
            Some(JsonV::Array(tcs)) => tcs,
            _ => Seq::empty(),
        },
        None => Seq::empty(),
    }
}

/// The text of a choice's message, where it has one that is not empty.
pub open spec fn choice_text(choice: JsonV) -> Option<Seq<char>> {
    match choice.get("message"@) {
        Some(msg) => match msg.get_str("content"@) {
            Some(t) => if t.len() > 0 {
                Some(t)
            } else {
                None
            },
            None => None,
        },
        None => None,
    }
}

/// The message item for a text.
pub open spec fn message_item(id: Seq<char>, status: Status, text: Seq<char>) -> OutputItemV {
    OutputItemV::Message { id, status, text: Some(text) }
}

/// The output items of one choice: its tool calls in order, then its text.
pub open spec fn choice_items(choice: JsonV, c: u64, stamp: nat) -> Seq<OutputItemV> {
    let calls = choice_calls(choice);
    call_items(calls, 0, c, stamp) + (match choice_text(choice) {
        Some(t) => seq![
            message_item(id_text("msg"@, stamp, bump(c, calls.len()) as nat), Status::Completed, t),
        ],
        None => Seq::empty(),
    })
}

/// The output items of the choices from position `i` on.
pub open spec fn items_from(choices: Seq<JsonV>, i: int, c: u64, stamp: nat) -> Seq<OutputItemV>
    decreases choices.len() - i,
{
    if 0 <= i < choices.len() {
        let here = choice_items(choices[i], c, stamp);
        here + items_from(choices, i + 1, bump(c, here.len()), stamp)
    } else {
        Seq::empty()
    }
}

/// The output of a response: the items of all choices, in order.
pub open spec fn output_of(cc: JsonV, c: u64, stamp: nat) -> Seq<OutputItemV> {
    match cc.get("choices"@) {
        Some(JsonV::Array(choices)) => items_from(choices, 0, c, stamp),
        _ => Seq::empty(),
    }
}

/// The usage of a response: the upstream counts under their new names,
/// zero for a count that upstream left out, nothing where upstream reports
/// no usage.
pub open spec fn usage_of(cc: JsonV) -> Option<UsageV> {
    match cc.get("usage"@) {
        Some(u) => Some(
            UsageV {
                input_tokens: u.get_or("prompt_tokens"@, JsonV::Int(0)),
                output_tokens: u.get_or("completion_tokens"@, JsonV::Int(0)),
                total_tokens: u.get_or("total_tokens"@, JsonV::Int(0)),
            },
        ),
        None => None,
    }
}

/// The finish reason of the first choice, `stop` where it gives none.
pub open spec fn finish_of(cc: JsonV) -> Seq<char> {
    match cc.get("choices"@) {
        Some(JsonV::Array(choices)) => if choices.len() > 0 {
            match choices[0].get_str("finish_reason"@) {
                Some(t) => t,
                None => "stop"@,
            }
        } else {
            "stop"@
        },
        _ => "stop"@,
    }
}

/// The response object for a complete upstream response, translated at
/// the second `now`, its item identifiers minted at `stamp` from the
/// counter `c` on.
pub open spec fn response_of(
    cc: JsonV,
    req: TranslatedRequestV,
    c: u64,
    stamp: nat,
    now: i64,
) -> ResponseV {
    ResponseV {
        id: req.resp_id,
        created_at: now,
        status: status_of(finish_of(cc)),
        completed_at: Some(now),
        instructions: req.instructions,
        with_limit: false,
        model: match cc.get_str("model"@) {
            Some(m) => m,
            None => req.model,
        },
        output: output_of(cc, c, stamp),
        parallel_tool_calls: req.parallel_tool_calls,
        temperature: req.temperature,
        tool_choice: req.tool_choice,
        tools: req.tools_echo,
        top_p: req.top_p,
        usage: usage_of(cc),
    }
}

/// As many items as tool calls.
pub proof fn lemma_call_items_len(tcs: Seq<JsonV>, i: int, c: u64, stamp: nat)
    requires
        0 <= i <= tcs.len(),
    ensures
        call_items(tcs, i, c, stamp).len() == tcs.len() - i,
    decreases tcs.len() - i,
{
    if i < tcs.len() {
        lemma_call_items_len(tcs, i + 1, next_counter(c), stamp);
    }
}

/// Appends the output items of the tool calls `tcs`.
fn push_call_items(out: &mut Vec<OutputItem>, tcs: &Vec<Json>, ids: &mut IdMinter, stamp: u128)
    ensures
        item_views(final(out)@) == item_views(old(out)@) + call_items(
            views(tcs@),
            0,
            old(ids).counter,
            stamp as nat,
        ),
        final(ids).counter == bump(old(ids).counter, tcs@.len()),
{
    let ghost all = views(tcs@);
    let ghost before = item_views(out@);
    let ghost c0 = ids.counter;
    let mut i: usize = 0;
    assert(before + call_items(all, 0, c0, stamp as nat) =~= item_views(out@) + call_items(
        all,
        0,
        c0,
        stamp as nat,
    ));
    while i < tcs.len()
        invariant
            i <= tcs.len(),
            all == views(tcs@),
            ids.counter == bump(c0, i as nat),
            before + call_items(all, 0, c0, stamp as nat) == item_views(out@) + call_items(
                all,
                i as int,
                ids.counter,
                stamp as nat,
            ),
        decreases tcs.len() - i,
    {
        proof {
            lemma_empty_text();
        }
        let ghost so_far = item_views(out@);
        let ghost c = ids.counter;
        let tc = &tcs[i];
        let id = ids.next_id_at("fc", stamp);
        let item = match tc.get("function") {
            Some(func) => OutputItem::FunctionCall {
                id,
                status: Status::Completed,
                call_id: tc.get_or("id", Json::Null),
                name: func.get_or("name", Json::Null),
                arguments: func.get_or("arguments", Json::string("")),
            },
            None => {
                let func = Json::object(new_entries());
                OutputItem::FunctionCall {
                    id,
                    status: Status::Completed,
                    call_id: tc.get_or("id", Json::Null),
                    name: func.get_or("name", Json::Null),
                    arguments: func.get_or("arguments", Json::string("")),
                }
            },
        };
        assert(item@ == call_item(all[i as int], id_text("fc"@, stamp as nat, c as nat)));
        out.push(item);
        assert(item_views(out@) =~= so_far + seq![item@]);
        assert(so_far + call_items(all, i as int, c, stamp as nat) =~= item_views(out@)
            + call_items(all, i + 1, ids.counter, stamp as nat));
        proof {
            lemma_bump_step(c0, i as nat);
        }
        i += 1;
    }
    assert(item_views(out@) =~= before + call_items(all, 0, c0, stamp as nat));
}

/// Appends the output items of one choice.
fn push_choice_items(out: &mut Vec<OutputItem>, choice: &Json, ids: &mut IdMinter, stamp: u128)
    ensures
        item_views(final(out)@) == item_views(old(out)@) + choice_items(
            choice@,
            old(ids).counter,
            stamp as nat,
        ),
        final(ids).counter == bump(
            old(ids).counter,
            choice_items(choice@, old(ids).counter, stamp as nat).len(),
        ),
{
    let ghost before = item_views(out@);
    let ghost c0 = ids.counter;
    let ghost calls = choice_calls(choice@);
    proof {
        lemma_call_items_len(calls, 0, c0, stamp as nat);
    }
    match choice.get("message") {
        Some(msg) => {
            match msg.get("tool_calls") {
                Some(Json::Array(tcs)) => {
                    proof {
                        lemma_array_view(*tcs);
                    }
                    push_call_items(out, tcs, ids, stamp);
                },
                _ => {
                    assert(item_views(out@) =~= before + call_items(calls, 0, c0, stamp as nat));
                },
            }
            let ghost middle = item_views(out@);
            match msg.get_str("content") {
                Some(t) => {
                    if !t.is_empty() {
                        let id = ids.next_id_at("msg", stamp);
                        let item = OutputItem::Message {
                            id,
                            status: Status::Completed,
                            text: Some(t.to_owned()),
                        };
                        out.push(item);
                        assert(item_views(out@) =~= middle + seq![item@]);
                        proof {
                            lemma_bump_step(c0, calls.len());
                        }
                    }
                },
                None => {},
            }
            assert(item_views(out@) =~= before + choice_items(choice@, c0, stamp as nat));
        },
        None => {
            assert(item_views(out@) =~= before + choice_items(choice@, c0, stamp as nat));
        },
    }
}

/// The output items of a complete upstream response.
fn build_output(cc: &Json, ids: &mut IdMinter, stamp: u128) -> (r: Vec<OutputItem>)
    ensures
        item_views(r@) == output_of(cc@, old(ids).counter, stamp as nat),
        final(ids).counter == bump(old(ids).counter, r@.len()),
{
    let mut out: Vec<OutputItem> = Vec::new();
    assert(item_views(out@) =~= Seq::<OutputItemV>::empty());
    let ghost c0 = ids.counter;
    match cc.get("choices") {
        Some(Json::Array(choices)) => {
            proof {
                lemma_array_view(*choices);
            }
            let ghost all = views(choices@);
            let mut i: usize = 0;
            assert(items_from(all, 0, c0, stamp as nat) =~= item_views(out@) + items_from(
                all,
                0,
                c0,
                stamp as nat,
            ));
            while i < choices.len()
                invariant
                    i <= choices.len(),
                    all == views(choices@),
                    ids.counter == bump(c0, out@.len()),
                    items_from(all, 0, c0, stamp as nat) == item_views(out@) + items_from(
                        all,
                        i as int,
                        ids.counter,
                        stamp as nat,
                    ),
                decreases choices.len() - i,
            {
                let ghost so_far = item_views(out@);
                let ghost c = ids.counter;
                let ghost here = choice_items(all[i as int], c, stamp as nat);
                push_choice_items(&mut out, &choices[i], ids, stamp);
                assert(item_views(out@).len() == so_far.len() + here.len());
                proof {
                    lemma_bump_add(c0, so_far.len(), here.len());
                }
                assert(so_far + items_from(all, i as int, c, stamp as nat) =~= item_views(out@)
                    + items_from(all, i + 1, ids.counter, stamp as nat));
                i += 1;
            }
            assert(item_views(out@) =~= items_from(all, 0, c0, stamp as nat));
        },
        _ => {},
    }
    out
}

/// The usage of a complete upstream response.
fn build_usage(cc: &Json) -> (r: Option<Usage>)
    ensures
        match r {
            Some(u) => usage_of(cc@) == Some(u@),
            None => usage_of(cc@) is None,
        },
{
    match cc.get("usage") {
        Some(u) => Some(
            Usage {
                input_tokens: u.get_or("prompt_tokens", Json::Unsigned(0)),
                output_tokens: u.get_or("completion_tokens", Json::Unsigned(0)),
                total_tokens: u.get_or("total_tokens", Json::Unsigned(0)),
            },
        ),
        None => None,
    }
}

/// The status that the first choice's finish reason gives the response.
fn build_status(cc: &Json) -> (r: Status)
    ensures
        r == status_of(finish_of(cc@)),
{
    match cc.get("choices") {
        Some(Json::Array(choices)) => {
            proof {
                lemma_array_view(*choices);
            }
            if choices.len() > 0 {
                match choices[0].get_str("finish_reason") {
                    Some(t) => status_for(t),
                    None => status_for("stop"),
                }
            } else {
                status_for("stop")
            }
        },
        _ => status_for("stop"),
    }
}

/// Builds the response object for a complete upstream response, at the
/// second `now` and with item identifiers minted at `stamp`.
pub fn build_response_at(
    cc_resp: &Json,
    req: &TranslatedRequest,
    ids: &mut IdMinter,
    stamp: u128,
    now: i64,
) -> (r: ResponseObject)
    ensures
        r@ == response_of(cc_resp@, req@, old(ids).counter, stamp as nat, now),
        final(ids).counter == bump(old(ids).counter, r@.output.len()),
{
    let output = build_output(cc_resp, ids, stamp);
    let model = match cc_resp.get_str("model") {
        Some(m) => m.to_owned(),
        None => req.model.clone(),
    };
    ResponseObject {
        id: req.resp_id.clone(),
        created_at: now,
        status: build_status(cc_resp),
        completed_at: Some(now),
        instructions: req.instructions.deep_clone(),
        with_limit: false,
        model,
        output,
        parallel_tool_calls: req.parallel_tool_calls.deep_clone(),
        temperature: req.temperature.deep_clone(),
        tool_choice: req.tool_choice.deep_clone(),
        tools: req.tools_echo.deep_clone(),
        top_p: req.top_p.deep_clone(),
        usage: build_usage(cc_resp),
    }
}

/// Translates a complete upstream response into the JSON of a response
/// object, at the second `now` and with item identifiers minted at `stamp`.
pub fn translate_response_at(
    cc_resp: &Json,
    req: &TranslatedRequest,
    ids: &mut IdMinter,
    stamp: u128,
    now: i64,
) -> (r: Json)
    ensures
        r@ == response_json(response_of(cc_resp@, req@, old(ids).counter, stamp as nat, now)),
        final(ids).counter == bump(
            old(ids).counter,
            output_of(cc_resp@, old(ids).counter, stamp as nat).len(),
        ),
{
    build_response_at(cc_resp, req, ids, stamp, now).to_json()
}

/// Translates a complete upstream response into the JSON of a response
/// object, at the time the system clock shows.
pub fn translate_response(cc_resp: &Json, req: &TranslatedRequest, ids: &mut IdMinter) -> (r: Json)
    ensures
        exists|stamp: nat, now: i64|
            r@ == response_json(
                #[trigger] response_of(cc_resp@, req@, old(ids).counter, stamp, now),
            ) && final(ids).counter == bump(
                old(ids).counter,
                output_of(cc_resp@, old(ids).counter, stamp).len(),
            ),
{
    let now = now_epoch();
    let stamp = now_millis();
    translate_response_at(cc_resp, req, ids, stamp, now)
}

} // verus!
