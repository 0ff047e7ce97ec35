//! The values of the request that every response object echoes.

use crate::events::StreamEventV;
use crate::json::JsonV;
use crate::laws::{call_events_of, feed_all, Chunk};
use crate::laws::frame::{lemma_drain_plain, lemma_feed_all_quiet};
use crate::laws::members::law_response_members;
use crate::request::{translated, TranslatedRequestV};
use crate::response::response_of;
use crate::shape::{response_json, ResponseV};
use crate::transitions::{
    closing_events, drain_events, final_message, finish, initial, keeps_message, response_base,
    start, Phase,
};
use vstd::prelude::*;

verus! {

/// Whether a response object echoes the values of the request.
pub open spec fn echoes(r: ResponseV, req: TranslatedRequestV) -> bool {
    &&& r.id == req.resp_id
    &&& r.instructions == req.instructions
    &&& r.temperature == req.temperature
    &&& r.top_p == req.top_p
    &&& r.tool_choice == req.tool_choice
    &&& r.parallel_tool_calls == req.parallel_tool_calls
    &&& r.tools == req.tools_echo
}

/// Whether an event, where it carries a response object, echoes the values
/// of the request.
pub open spec fn event_echoes(e: StreamEventV, req: TranslatedRequestV) -> bool {
    match e {
        StreamEventV::Created { response, .. } => echoes(response, req),
        StreamEventV::InProgress { response, .. } => echoes(response, req),
        StreamEventV::Finished { response, .. } => echoes(response, req),
        _ => true,
    }
}

/// Echoed values: every response object of a call (in its opening events
/// and in its terminal event) carries the identifier of the response and
/// the instructions, temperature, top_p, tool choice, parallel tool calls
/// and tools of the translated request, unchanged.
pub proof fn law_echo(
    request: TranslatedRequestV,
    message_id: Seq<char>,
    c: u64,
    opened: i64,
    chunks: Seq<Chunk>,
    ended: i64,
)
    ensures
        forall|i: int|
            0 <= i < call_events_of(
                initial(request, message_id),
                c,
                opened,
                chunks,
                ended,
            ).len() ==> event_echoes(
                #[trigger] call_events_of(initial(request, message_id), c, opened, chunks, ended)[i],
                request,
            ),
{
    let s = initial(request, message_id);
    let a = start(s, opened);
    let b = feed_all(a.state, c, chunks, 0);
    let z = finish(b.state, ended);
    let h = call_events_of(s, c, opened, chunks, ended);
    lemma_feed_all_quiet(a.state, c, chunks, 0);
    assert forall|i: int| 0 <= i < h.len() implies event_echoes(#[trigger] h[i], request) by {
        if i < a.events.len() {
            assert(h[i] == a.events[i]);
        } else if i < a.events.len() + b.events.len() {
            assert(h[i] == b.events[i - a.events.len()]);
        } else {
            let j = i - a.events.len() - b.events.len();
            assert(h[i] == z.events[j]);
            if b.state.phase == Phase::Open {
                let end = b.state;
                let e1 = closing_events(end);
                let n1 = end.sequence + e1.len();
                let e2: Seq<StreamEventV> = if keeps_message(end) {
                    seq![
                        StreamEventV::ItemDone {
                            seq: n1 + 1,
                            output_index: 0,
                            item: final_message(end),
                        },
                    ]
                } else {
                    Seq::empty()
                };
                let n2 = n1 + e2.len();
                let e3 = drain_events(end.calls, 0, n2);
                lemma_drain_plain(end.calls, 0, n2);
                if j < e1.len() {
                    assert(z.events[j] == e1[j]);
                } else if j < e1.len() + e2.len() {
                    assert(z.events[j] == e2[j - e1.len()]);
                } else if j < e1.len() + e2.len() + e3.len() {
                    assert(z.events[j] == e3[j - e1.len() - e2.len()]);
                }
            }
        }
    }
}

/// Defaults: a request that names no temperature, no top_p, no tool choice
/// and no parallel tool calls is translated with the echoed values 1, 1,
/// `"auto"` and true; and the response object that the non-stream
/// translator builds for it carries these values, as every response object
/// of a streaming call does.
pub proof fn law_default_echo(
    body: JsonV,
    resp_id: Seq<char>,
    cc: JsonV,
    c: u64,
    stamp: nat,
    now: i64,
)
    requires
        body.get("temperature"@) is None,
        body.get("top_p"@) is None,
        body.get("tool_choice"@) is None,
        body.get("parallel_tool_calls"@) is None,
        translated(body, resp_id) is Some,
    ensures
        ({
            let t = translated(body, resp_id)->0;
            let r = response_of(cc, t, c, stamp, now);
            &&& t.temperature == JsonV::Int(1)
            &&& t.top_p == JsonV::Int(1)
            &&& t.tool_choice == JsonV::Str("auto"@)
            &&& t.parallel_tool_calls == JsonV::Bool(true)
            &&& echoes(r, t)
            &&& echoes(response_base(t, now), t)
        }),
{
}

/// Whether an object reads 1, 1, `"auto"` and true under `temperature`,
/// `top_p`, `tool_choice` and `parallel_tool_calls`.
pub open spec fn reads_defaults(v: JsonV) -> bool {
    &&& v.get("temperature"@) == Some(JsonV::Int(1))
    &&& v.get("top_p"@) == Some(JsonV::Int(1))
    &&& v.get("tool_choice"@) == Some(JsonV::Str("auto"@))
    &&& v.get("parallel_tool_calls"@) == Some(JsonV::Bool(true))
}

/// Defaults on the wire: for a request that names no temperature, no
/// top_p, no tool choice and no parallel tool calls, the response object
/// in every opening and terminal event of its streaming call, and the
/// response object that the non-stream translator builds for it, read 1,
/// 1, `"auto"` and true under these names.
pub proof fn law_default_members(
    body: JsonV,
    resp_id: Seq<char>,
    message_id: Seq<char>,
    c: u64,
    opened: i64,
    chunks: Seq<Chunk>,
    ended: i64,
    cc: JsonV,
    stamp: nat,
    now: i64,
)
    requires
        body.get("temperature"@) is None,
        body.get("top_p"@) is None,
        body.get("tool_choice"@) is None,
        body.get("parallel_tool_calls"@) is None,
        translated(body, resp_id) is Some,
    ensures
        ({
            let t = translated(body, resp_id)->0;
            let h = call_events_of(initial(t, message_id), c, opened, chunks, ended);
            &&& forall|i: int|
                0 <= i < h.len() ==> match #[trigger] h[i] {
                    StreamEventV::Created { response, .. } => reads_defaults(
                        response_json(response),
                    ),
                    StreamEventV::InProgress { response, .. } => reads_defaults(
                        response_json(response),
                    ),
                    StreamEventV::Finished { response, .. } => reads_defaults(
                        response_json(response),
                    ),
                    _ => true,
                }
            &&& reads_defaults(response_json(response_of(cc, t, c, stamp, now)))
        }),
{
    let t = translated(body, resp_id)->0;
    let h = call_events_of(initial(t, message_id), c, opened, chunks, ended);
    law_echo(t, message_id, c, opened, chunks, ended);
    law_response_members(response_of(cc, t, c, stamp, now));
    assert forall|i: int| 0 <= i < h.len() implies match #[trigger] h[i] {
        StreamEventV::Created { response, .. } => reads_defaults(response_json(response)),
        StreamEventV::InProgress { response, .. } => reads_defaults(response_json(response)),
        StreamEventV::Finished { response, .. } => reads_defaults(response_json(response)),
        _ => true,
    } by {
        assert(event_echoes(h[i], t));
        match h[i] {
            StreamEventV::Created { response, .. } => {
                law_response_members(response);
            },
            StreamEventV::InProgress { response, .. } => {
                law_response_members(response);
            },
            StreamEventV::Finished { response, .. } => {
                law_response_members(response);
            },
            _ => {},
        }
    }
}

} // verus!
