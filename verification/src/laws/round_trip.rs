//! The streamed response object held against the one built from a complete
//! upstream response.

use crate::json::JsonV;
use crate::laws::echo::echoes;
use crate::request::TranslatedRequestV;
use crate::response::response_of;
use crate::shape::{item_json, response_head, response_json, response_tail, OutputItemV, ResponseV};
use crate::transitions::{final_response, finish, StreamV, ToolCallV};
use vstd::prelude::*;

verus! {

/// The names of the members of an object, in the order in which they are
/// written.
pub open spec fn keys(v: JsonV) -> Seq<Seq<char>> {
    match v {
        JsonV::Object(entries) => Seq::new(entries.len(), |i: int| entries[i].0),
        _ => Seq::empty(),
    }
}

/// The names of the members of a response object without an output-token
/// limit.
pub open spec fn response_keys() -> Seq<Seq<char>> {
    seq![
        "id"@,
        "object"@,
        "created_at"@,
        "status"@,
        "completed_at"@,
        "error"@,
        "incomplete_details"@,
        "instructions"@,
        "model"@,
        "output"@,
        "parallel_tool_calls"@,
        "previous_response_id"@,
        "temperature"@,
        "text"@,
        "tool_choice"@,
        "tools"@,
        "top_p"@,
        "truncation"@,
        "usage"@,
        "metadata"@,
    ]
}

/// The names of the members of an output item of its kind.
pub open spec fn item_keys(item: OutputItemV) -> Seq<Seq<char>> {
    match item {
        OutputItemV::Message { .. } => seq!["id"@, "type"@, "role"@, "status"@, "content"@],
        OutputItemV::FunctionCall { .. } => seq![
            "id"@,
            "type"@,
            "status"@,
            "call_id"@,
            "name"@,
            "arguments"@,
        ],
    }
}

/// A response object without an output-token limit has the members of
/// `response_keys`, and every output item the members of its kind.
pub proof fn lemma_response_shape(r: ResponseV)
    requires
        !r.with_limit,
    ensures
        keys(response_json(r)) == response_keys(),
        forall|i: int|
            0 <= i < r.output.len() ==> keys(item_json(#[trigger] r.output[i])) == item_keys(
                r.output[i],
            ),
{
    assert(response_json(r)->Object_0 =~= response_head(r) + response_tail(r));
    assert(keys(response_json(r)) =~= response_keys());
    assert forall|i: int| 0 <= i < r.output.len() implies keys(item_json(#[trigger] r.output[i]))
        == item_keys(r.output[i]) by {
        assert(keys(item_json(r.output[i])) =~= item_keys(r.output[i]));
    }
}

/// Same shape: the response object that ends a streaming call and the
/// response object that the non-stream translator builds have the same
/// members in the same order, their output items have the members of their
/// kind, and for one request both echo the same values.
pub proof fn law_round_trip_shape(
    s: StreamV,
    ended: i64,
    cc: JsonV,
    req: TranslatedRequestV,
    c: u64,
    stamp: nat,
    now: i64,
)
    ensures
        ({
            let streamed = final_response(s, ended);
            let direct = response_of(cc, req, c, stamp, now);
            &&& keys(response_json(streamed)) == keys(response_json(direct))
            &&& keys(response_json(streamed)) == response_keys()
            &&& forall|i: int|
                0 <= i < streamed.output.len() ==> keys(item_json(#[trigger] streamed.output[i]))
                    == item_keys(streamed.output[i])
            &&& forall|i: int|
                0 <= i < direct.output.len() ==> keys(item_json(#[trigger] direct.output[i]))
                    == item_keys(direct.output[i])
            &&& s.request == req ==> echoes(streamed, req) && echoes(direct, req)
            &&& crate::response::finish_of(cc) == s.finish_reason ==> streamed.status
                == direct.status
        }),
{
    lemma_response_shape(final_response(s, ended));
    lemma_response_shape(response_of(cc, req, c, stamp, now));
}

/// The members of an object with two keys that differ are read by their
/// keys.
pub proof fn lemma_get2(k1: Seq<char>, v1: JsonV, k2: Seq<char>, v2: JsonV)
    requires
        k1 != k2,
    ensures
        JsonV::Object(seq![(k1, v1), (k2, v2)]).get(k1) == Some(v1),
        JsonV::Object(seq![(k1, v1), (k2, v2)]).get(k2) == Some(v2),
{
    let e = seq![(k1, v1), (k2, v2)];
    crate::json::lemma_last_entry_at(e, k1, 2, 0);
    crate::json::lemma_last_entry_at(e, k2, 2, 1);
}

/// The members of an object with three keys that differ are read by their
/// keys.
pub proof fn lemma_get3(
    k1: Seq<char>,
    v1: JsonV,
    k2: Seq<char>,
    v2: JsonV,
    k3: Seq<char>,
    v3: JsonV,
)
    requires
        k1 != k2,
        k1 != k3,
        k2 != k3,
    ensures
        JsonV::Object(seq![(k1, v1), (k2, v2), (k3, v3)]).get(k1) == Some(v1),
        JsonV::Object(seq![(k1, v1), (k2, v2), (k3, v3)]).get(k2) == Some(v2),
        JsonV::Object(seq![(k1, v1), (k2, v2), (k3, v3)]).get(k3) == Some(v3),
{
    let e = seq![(k1, v1), (k2, v2), (k3, v3)];
    crate::json::lemma_last_entry_at(e, k1, 3, 0);
    crate::json::lemma_last_entry_at(e, k2, 3, 1);
    crate::json::lemma_last_entry_at(e, k3, 3, 2);
}

/// The member names of an upstream response differ from one another.
pub proof fn lemma_upstream_keys()
    ensures
        "model"@ != "choices"@,
        "model"@ != "usage"@,
        "choices"@ != "usage"@,
        "finish_reason"@ != "message"@,
        "content"@ != "tool_calls"@,
        "id"@ != "function"@,
        "name"@ != "arguments"@,
        "prompt_tokens"@ != "completion_tokens"@,
        "prompt_tokens"@ != "total_tokens"@,
        "completion_tokens"@ != "total_tokens"@,
{
    reveal_strlit("model");
    reveal_strlit("choices");
    reveal_strlit("usage");
    reveal_strlit("finish_reason");
    reveal_strlit("message");
    reveal_strlit("content");
    reveal_strlit("tool_calls");
    reveal_strlit("id");
    reveal_strlit("function");
    reveal_strlit("name");
    reveal_strlit("arguments");
    reveal_strlit("prompt_tokens");
    reveal_strlit("completion_tokens");
    reveal_strlit("total_tokens");
    assert("model"@.len() != "choices"@.len());
    assert("model"@[0] != "usage"@[0]);
    assert("choices"@.len() != "usage"@.len());
    assert("finish_reason"@.len() != "message"@.len());
    assert("content"@.len() != "tool_calls"@.len());
    assert("id"@.len() != "function"@.len());
    assert("name"@.len() != "arguments"@.len());
    assert("prompt_tokens"@.len() != "completion_tokens"@.len());
    assert("prompt_tokens"@.len() != "total_tokens"@.len());
    assert("completion_tokens"@.len() != "total_tokens"@.len());
}

/// A tool call as a complete upstream response reports it.
pub open spec fn upstream_call(acc: ToolCallV) -> JsonV {
    JsonV::Object(
        seq![
            ("id"@, JsonV::Str(acc.call_id)),
            (
                "function"@,
                JsonV::Object(
                    seq![
                        ("name"@, JsonV::Str(acc.name)),
                        ("arguments"@, JsonV::Str(acc.arguments)),
                    ],
                ),
            ),
        ],
    )
}

/// The tool calls of a state as a complete upstream response reports them.
pub open spec fn upstream_calls(calls: Seq<ToolCallV>) -> Seq<JsonV> {
    Seq::new(calls.len(), |i: int| upstream_call(calls[i]))
}

/// The message of a complete upstream response with the content of a
/// state.
pub open spec fn upstream_message(s: StreamV) -> JsonV {
    JsonV::Object(
        seq![
            ("content"@, JsonV::Str(s.text)),
            ("tool_calls"@, JsonV::Array(upstream_calls(s.calls))),
        ],
    )
}

/// The one choice of a complete upstream response with the content of a
/// state.
pub open spec fn upstream_choice(s: StreamV) -> JsonV {
    JsonV::Object(
        seq![("finish_reason"@, JsonV::Str(s.finish_reason)), ("message"@, upstream_message(s))],
    )
}

/// The usage of a complete upstream response with the counts of a state.
pub open spec fn upstream_usage(s: StreamV) -> JsonV {
    JsonV::Object(
        seq![
            ("prompt_tokens"@, JsonV::Int(s.input_tokens as int)),
            ("completion_tokens"@, JsonV::Int(s.output_tokens as int)),
            ("total_tokens"@, JsonV::Int(s.total_tokens as int)),
        ],
    )
}

/// The complete upstream response that holds what a stream brought up to
/// the state `s`: its text, its tool calls, its finish reason and its
/// usage, for the model of the request.
pub open spec fn complete_of(s: StreamV) -> JsonV {
    JsonV::Object(
        seq![
            ("model"@, JsonV::Str(s.request.model)),
            ("choices"@, JsonV::Array(seq![upstream_choice(s)])),
            ("usage"@, upstream_usage(s)),
        ],
    )
}

/// The item that the non-stream translator makes of a tool call of a
/// state is its finished item under a new identifier.
pub proof fn lemma_upstream_call_item(acc: ToolCallV, id: Seq<char>)
    ensures
        crate::response::call_item(upstream_call(acc), id) == (OutputItemV::FunctionCall {
            id,
            status: crate::shape::Status::Completed,
            call_id: JsonV::Str(acc.call_id),
            name: JsonV::Str(acc.name),
            arguments: JsonV::Str(acc.arguments),
        }),
{
    lemma_upstream_keys();
    let func = JsonV::Object(
        seq![("name"@, JsonV::Str(acc.name)), ("arguments"@, JsonV::Str(acc.arguments))],
    );
    lemma_get2("id"@, JsonV::Str(acc.call_id), "function"@, func);
    lemma_get2("name"@, JsonV::Str(acc.name), "arguments"@, JsonV::Str(acc.arguments));
}

/// The items that the non-stream translator makes of the tool calls of a
/// state, from position `i` on.
pub proof fn lemma_upstream_call_items(calls: Seq<ToolCallV>, i: int, c: u64, stamp: nat)
    requires
        0 <= i <= calls.len(),
    ensures
        crate::response::call_items(upstream_calls(calls), i, c, stamp).len() == calls.len() - i,
        forall|j: int|
            0 <= j < calls.len() - i ==> #[trigger] crate::response::call_items(
                upstream_calls(calls),
                i,
                c,
                stamp,
            )[j] == (OutputItemV::FunctionCall {
                id: crate::ids::id_text("fc"@, stamp, crate::response::bump(c, j as nat) as nat),
                status: crate::shape::Status::Completed,
                call_id: JsonV::Str(calls[i + j].call_id),
                name: JsonV::Str(calls[i + j].name),
                arguments: JsonV::Str(calls[i + j].arguments),
            }),
    decreases calls.len() - i,
{
    let tcs = upstream_calls(calls);
    if i < calls.len() {
        let next = crate::ids::next_counter(c);
        lemma_upstream_call_items(calls, i + 1, next, stamp);
        lemma_upstream_call_item(calls[i], crate::ids::id_text("fc"@, stamp, c as nat));
        let all = crate::response::call_items(tcs, i, c, stamp);
        let rest = crate::response::call_items(tcs, i + 1, next, stamp);
        assert forall|j: int| 0 <= j < calls.len() - i implies #[trigger] all[j]
            == (OutputItemV::FunctionCall {
            id: crate::ids::id_text("fc"@, stamp, crate::response::bump(c, j as nat) as nat),
            status: crate::shape::Status::Completed,
            call_id: JsonV::Str(calls[i + j].call_id),
            name: JsonV::Str(calls[i + j].name),
            arguments: JsonV::Str(calls[i + j].arguments),
        }) by {
            if j > 0 {
                assert(all[j] == rest[j - 1]);
                assert(crate::response::bump(c, j as nat) == crate::response::bump(
                    next,
                    (j - 1) as nat,
                ));
            }
        }
    }
}

/// Round trip: the response object that ends a streaming call and the
/// response object that the non-stream translator builds, at the same
/// second, for the complete upstream response with the same content agree
/// in every member but the output; and the output of the second holds the
/// same tool calls in the same order, each with the call identifier, name
/// and arguments of the first under an identifier of its own, followed by
/// the message where there is text.
pub proof fn law_round_trip(s: StreamV, c: u64, stamp: nat, now: i64)
    ensures
        ({
            let streamed = final_response(s, now);
            let direct = response_of(complete_of(s), s.request, c, stamp, now);
            let text: int = if s.text.len() > 0 {
                1
            } else {
                0
            };
            &&& direct == (ResponseV { output: direct.output, ..streamed })
            &&& direct.output.len() == s.calls.len() + text
            &&& forall|i: int|
                0 <= i < s.calls.len() ==> #[trigger] direct.output[i]
                    == (OutputItemV::FunctionCall {
                    id: crate::ids::id_text("fc"@, stamp, crate::response::bump(c, i as nat) as nat),
                    status: crate::shape::Status::Completed,
                    call_id: JsonV::Str(s.calls[i].call_id),
                    name: JsonV::Str(s.calls[i].name),
                    arguments: JsonV::Str(s.calls[i].arguments),
                })
            &&& s.text.len() > 0 ==> direct.output[s.calls.len() as int]
                == crate::response::message_item(
                crate::ids::id_text(
                    "msg"@,
                    stamp,
                    crate::response::bump(c, s.calls.len()) as nat,
                ),
                crate::shape::Status::Completed,
                s.text,
            )
        }),
{
    lemma_upstream_keys();
    let cc = complete_of(s);
    let choice = upstream_choice(s);
    let msg = upstream_message(s);
    let usage = upstream_usage(s);
    let tcs = upstream_calls(s.calls);
    lemma_get3(
        "model"@,
        JsonV::Str(s.request.model),
        "choices"@,
        JsonV::Array(seq![choice]),
        "usage"@,
        usage,
    );
    lemma_get2("finish_reason"@, JsonV::Str(s.finish_reason), "message"@, msg);
    lemma_get2("content"@, JsonV::Str(s.text), "tool_calls"@, JsonV::Array(tcs));
    lemma_get3(
        "prompt_tokens"@,
        JsonV::Int(s.input_tokens as int),
        "completion_tokens"@,
        JsonV::Int(s.output_tokens as int),
        "total_tokens"@,
        JsonV::Int(s.total_tokens as int),
    );
    lemma_upstream_call_items(s.calls, 0, c, stamp);
    let choices = seq![choice];
    let here = crate::response::choice_items(choice, c, stamp);
    assert(crate::response::choice_calls(choice) == tcs);
    assert(crate::response::items_from(choices, 1, crate::response::bump(c, here.len()), stamp)
        =~= Seq::<OutputItemV>::empty());
    assert(crate::response::output_of(cc, c, stamp) =~= here);
    assert(crate::response::finish_of(cc) == s.finish_reason);
    assert(crate::response::usage_of(cc) == final_response(s, now).usage);
}

} // verus!
