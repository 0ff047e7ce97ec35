//! The members of a response object and of an event's payload, read by
//! their names.

use crate::events::StreamEventV;
use crate::json::{last_entry, lemma_last_entry_at, JsonV};
use crate::shape::{
    incomplete_details, items_json, response_head, response_json, response_tail, status_text,
    time_json, usage_json, ResponseV,
};
use vstd::prelude::*;

verus! {

/// The names of the members of a response object differ from one another.
pub proof fn lemma_response_names()
    ensures
        "id"@ != "object"@,
        "id"@ != "created_at"@,
        "id"@ != "status"@,
        "id"@ != "completed_at"@,
        "id"@ != "error"@,
        "id"@ != "incomplete_details"@,
        "id"@ != "instructions"@,
        "id"@ != "max_output_tokens"@,
        "id"@ != "model"@,
        "id"@ != "output"@,
        "id"@ != "parallel_tool_calls"@,
        "id"@ != "previous_response_id"@,
        "id"@ != "temperature"@,
        "id"@ != "text"@,
        "id"@ != "tool_choice"@,
        "id"@ != "tools"@,
        "id"@ != "top_p"@,
        "id"@ != "truncation"@,
        "id"@ != "usage"@,
        "id"@ != "metadata"@,
        "object"@ != "created_at"@,
        "object"@ != "status"@,
        "object"@ != "completed_at"@,
        "object"@ != "error"@,
        "object"@ != "incomplete_details"@,
        "object"@ != "instructions"@,
        "object"@ != "max_output_tokens"@,
        "object"@ != "model"@,
        "object"@ != "output"@,
        "object"@ != "parallel_tool_calls"@,
        "object"@ != "previous_response_id"@,
        "object"@ != "temperature"@,
        "object"@ != "text"@,
        "object"@ != "tool_choice"@,
        "object"@ != "tools"@,
        "object"@ != "top_p"@,
        "object"@ != "truncation"@,
        "object"@ != "usage"@,
        "object"@ != "metadata"@,
        "created_at"@ != "status"@,
        "created_at"@ != "completed_at"@,
        "created_at"@ != "error"@,
        "created_at"@ != "incomplete_details"@,
        "created_at"@ != "instructions"@,
        "created_at"@ != "max_output_tokens"@,
        "created_at"@ != "model"@,
        "created_at"@ != "output"@,
        "created_at"@ != "parallel_tool_calls"@,
        "created_at"@ != "previous_response_id"@,
        "created_at"@ != "temperature"@,
        "created_at"@ != "text"@,
        "created_at"@ != "tool_choice"@,
        "created_at"@ != "tools"@,
        "created_at"@ != "top_p"@,
        "created_at"@ != "truncation"@,
        "created_at"@ != "usage"@,
        "created_at"@ != "metadata"@,
        "status"@ != "completed_at"@,
        "status"@ != "error"@,
        "status"@ != "incomplete_details"@,
        "status"@ != "instructions"@,
        "status"@ != "max_output_tokens"@,
        "status"@ != "model"@,
        "status"@ != "output"@,
        "status"@ != "parallel_tool_calls"@,
        "status"@ != "previous_response_id"@,
        "status"@ != "temperature"@,
        "status"@ != "text"@,
        "status"@ != "tool_choice"@,
        "status"@ != "tools"@,
        "status"@ != "top_p"@,
        "status"@ != "truncation"@,
        "status"@ != "usage"@,
        "status"@ != "metadata"@,
        "completed_at"@ != "error"@,
        "completed_at"@ != "incomplete_details"@,
        "completed_at"@ != "instructions"@,
        "completed_at"@ != "max_output_tokens"@,
        "completed_at"@ != "model"@,
        "completed_at"@ != "output"@,
        "completed_at"@ != "parallel_tool_calls"@,
        "completed_at"@ != "previous_response_id"@,
        "completed_at"@ != "temperature"@,
        "completed_at"@ != "text"@,
        "completed_at"@ != "tool_choice"@,
        "completed_at"@ != "tools"@,
        "completed_at"@ != "top_p"@,
        "completed_at"@ != "truncation"@,
        "completed_at"@ != "usage"@,
        "completed_at"@ != "metadata"@,
        "error"@ != "incomplete_details"@,
        "error"@ != "instructions"@,
        "error"@ != "max_output_tokens"@,
        "error"@ != "model"@,
        "error"@ != "output"@,
        "error"@ != "parallel_tool_calls"@,
        "error"@ != "previous_response_id"@,
        "error"@ != "temperature"@,
        "error"@ != "text"@,
        "error"@ != "tool_choice"@,
        "error"@ != "tools"@,
        "error"@ != "top_p"@,
        "error"@ != "truncation"@,
        "error"@ != "usage"@,
        "error"@ != "metadata"@,
        "incomplete_details"@ != "instructions"@,
        "incomplete_details"@ != "max_output_tokens"@,
        "incomplete_details"@ != "model"@,
        "incomplete_details"@ != "output"@,
        "incomplete_details"@ != "parallel_tool_calls"@,
        "incomplete_details"@ != "previous_response_id"@,
        "incomplete_details"@ != "temperature"@,
        "incomplete_details"@ != "text"@,
        "incomplete_details"@ != "tool_choice"@,
        "incomplete_details"@ != "tools"@,
        "incomplete_details"@ != "top_p"@,
        "incomplete_details"@ != "truncation"@,
        "incomplete_details"@ != "usage"@,
        "incomplete_details"@ != "metadata"@,
        "instructions"@ != "max_output_tokens"@,
        "instructions"@ != "model"@,
        "instructions"@ != "output"@,
        "instructions"@ != "parallel_tool_calls"@,
        "instructions"@ != "previous_response_id"@,
        "instructions"@ != "temperature"@,
        "instructions"@ != "text"@,
        "instructions"@ != "tool_choice"@,
        "instructions"@ != "tools"@,
        "instructions"@ != "top_p"@,
        "instructions"@ != "truncation"@,
        "instructions"@ != "usage"@,
        "instructions"@ != "metadata"@,
        "max_output_tokens"@ != "model"@,
        "max_output_tokens"@ != "output"@,
        "max_output_tokens"@ != "parallel_tool_calls"@,
        "max_output_tokens"@ != "previous_response_id"@,
        "max_output_tokens"@ != "temperature"@,
        "max_output_tokens"@ != "text"@,
        "max_output_tokens"@ != "tool_choice"@,
        "max_output_tokens"@ != "tools"@,
        "max_output_tokens"@ != "top_p"@,
        "max_output_tokens"@ != "truncation"@,
        "max_output_tokens"@ != "usage"@,
        "max_output_tokens"@ != "metadata"@,
        "model"@ != "output"@,
        "model"@ != "parallel_tool_calls"@,
        "model"@ != "previous_response_id"@,
        "model"@ != "temperature"@,
        "model"@ != "text"@,
        "model"@ != "tool_choice"@,
        "model"@ != "tools"@,
        "model"@ != "top_p"@,
        "model"@ != "truncation"@,
        "model"@ != "usage"@,
        "model"@ != "metadata"@,
        "output"@ != "parallel_tool_calls"@,
        "output"@ != "previous_response_id"@,
        "output"@ != "temperature"@,
        "output"@ != "text"@,
        "output"@ != "tool_choice"@,
        "output"@ != "tools"@,
        "output"@ != "top_p"@,
        "output"@ != "truncation"@,
        "output"@ != "usage"@,
        "output"@ != "metadata"@,
        "parallel_tool_calls"@ != "previous_response_id"@,
        "parallel_tool_calls"@ != "temperature"@,
        "parallel_tool_calls"@ != "text"@,
        "parallel_tool_calls"@ != "tool_choice"@,
        "parallel_tool_calls"@ != "tools"@,
        "parallel_tool_calls"@ != "top_p"@,
        "parallel_tool_calls"@ != "truncation"@,
        "parallel_tool_calls"@ != "usage"@,
        "parallel_tool_calls"@ != "metadata"@,
        "previous_response_id"@ != "temperature"@,
        "previous_response_id"@ != "text"@,
        "previous_response_id"@ != "tool_choice"@,
        "previous_response_id"@ != "tools"@,
        "previous_response_id"@ != "top_p"@,
        "previous_response_id"@ != "truncation"@,
        "previous_response_id"@ != "usage"@,
        "previous_response_id"@ != "metadata"@,
        "temperature"@ != "text"@,
        "temperature"@ != "tool_choice"@,
        "temperature"@ != "tools"@,
        "temperature"@ != "top_p"@,
        "temperature"@ != "truncation"@,
        "temperature"@ != "usage"@,
        "temperature"@ != "metadata"@,
        "text"@ != "tool_choice"@,
        "text"@ != "tools"@,
        "text"@ != "top_p"@,
        "text"@ != "truncation"@,
        "text"@ != "usage"@,
        "text"@ != "metadata"@,
        "tool_choice"@ != "tools"@,
        "tool_choice"@ != "top_p"@,
        "tool_choice"@ != "truncation"@,
        "tool_choice"@ != "usage"@,
        "tool_choice"@ != "metadata"@,
        "tools"@ != "top_p"@,
        "tools"@ != "truncation"@,
        "tools"@ != "usage"@,
        "tools"@ != "metadata"@,
        "top_p"@ != "truncation"@,
        "top_p"@ != "usage"@,
        "top_p"@ != "metadata"@,
        "truncation"@ != "usage"@,
        "truncation"@ != "metadata"@,
        "usage"@ != "metadata"@,
{
    reveal_strlit("id");
    reveal_strlit("object");
    reveal_strlit("created_at");
    reveal_strlit("status");
    reveal_strlit("completed_at");
    reveal_strlit("error");
    reveal_strlit("incomplete_details");
    reveal_strlit("instructions");
    reveal_strlit("max_output_tokens");
    reveal_strlit("model");
    reveal_strlit("output");
    reveal_strlit("parallel_tool_calls");
    reveal_strlit("previous_response_id");
    reveal_strlit("temperature");
    reveal_strlit("text");
    reveal_strlit("tool_choice");
    reveal_strlit("tools");
    reveal_strlit("top_p");
    reveal_strlit("truncation");
    reveal_strlit("usage");
    reveal_strlit("metadata");
    assert("id"@.len() != "object"@.len());
    assert("id"@.len() != "created_at"@.len());
    assert("id"@.len() != "status"@.len());
    assert("id"@.len() != "completed_at"@.len());
    assert("id"@.len() != "error"@.len());
    assert("id"@.len() != "incomplete_details"@.len());
    assert("id"@.len() != "instructions"@.len());
    assert("id"@.len() != "max_output_tokens"@.len());
    assert("id"@.len() != "model"@.len());
    assert("id"@.len() != "output"@.len());
    assert("id"@.len() != "parallel_tool_calls"@.len());
    assert("id"@.len() != "previous_response_id"@.len());
    assert("id"@.len() != "temperature"@.len());
    assert("id"@.len() != "text"@.len());
    assert("id"@.len() != "tool_choice"@.len());
    assert("id"@.len() != "tools"@.len());
    assert("id"@.len() != "top_p"@.len());
    assert("id"@.len() != "truncation"@.len());
    assert("id"@.len() != "usage"@.len());
    assert("id"@.len() != "metadata"@.len());
    assert("object"@.len() != "created_at"@.len());
    assert("object"@[0] != "status"@[0]);
    assert("object"@.len() != "completed_at"@.len());
    assert("object"@.len() != "error"@.len());
    assert("object"@.len() != "incomplete_details"@.len());
    assert("object"@.len() != "instructions"@.len());
    assert("object"@.len() != "max_output_tokens"@.len());
    assert("object"@.len() != "model"@.len());
    assert("object"@[1] != "output"@[1]);
    assert("object"@.len() != "parallel_tool_calls"@.len());
    assert("object"@.len() != "previous_response_id"@.len());
    assert("object"@.len() != "temperature"@.len());
    assert("object"@.len() != "text"@.len());
    assert("object"@.len() != "tool_choice"@.len());
    assert("object"@.len() != "tools"@.len());
    assert("object"@.len() != "top_p"@.len());
    assert("object"@.len() != "truncation"@.len());
    assert("object"@.len() != "usage"@.len());
    assert("object"@.len() != "metadata"@.len());
    assert("created_at"@.len() != "status"@.len());
    assert("created_at"@.len() != "completed_at"@.len());
    assert("created_at"@.len() != "error"@.len());
    assert("created_at"@.len() != "incomplete_details"@.len());
    assert("created_at"@.len() != "instructions"@.len());
    assert("created_at"@.len() != "max_output_tokens"@.len());
    assert("created_at"@.len() != "model"@.len());
    assert("created_at"@.len() != "output"@.len());
    assert("created_at"@.len() != "parallel_tool_calls"@.len());
    assert("created_at"@.len() != "previous_response_id"@.len());
    assert("created_at"@.len() != "temperature"@.len());
    assert("created_at"@.len() != "text"@.len());
    assert("created_at"@.len() != "tool_choice"@.len());
    assert("created_at"@.len() != "tools"@.len());
    assert("created_at"@.len() != "top_p"@.len());
    assert("created_at"@[0] != "truncation"@[0]);
    assert("created_at"@.len() != "usage"@.len());
    assert("created_at"@.len() != "metadata"@.len());
    assert("status"@.len() != "completed_at"@.len());
    assert("status"@.len() != "error"@.len());
    assert("status"@.len() != "incomplete_details"@.len());
    assert("status"@.len() != "instructions"@.len());
    assert("status"@.len() != "max_output_tokens"@.len());
    assert("status"@.len() != "model"@.len());
    assert("status"@[0] != "output"@[0]);
    assert("status"@.len() != "parallel_tool_calls"@.len());
    assert("status"@.len() != "previous_response_id"@.len());
    assert("status"@.len() != "temperature"@.len());
    assert("status"@.len() != "text"@.len());
    assert("status"@.len() != "tool_choice"@.len());
    assert("status"@.len() != "tools"@.len());
    assert("status"@.len() != "top_p"@.len());
    assert("status"@.len() != "truncation"@.len());
    assert("status"@.len() != "usage"@.len());
    assert("status"@.len() != "metadata"@.len());
    assert("completed_at"@.len() != "error"@.len());
    assert("completed_at"@.len() != "incomplete_details"@.len());
    assert("completed_at"@[0] != "instructions"@[0]);
    assert("completed_at"@.len() != "max_output_tokens"@.len());
    assert("completed_at"@.len() != "model"@.len());
    assert("completed_at"@.len() != "output"@.len());
    assert("completed_at"@.len() != "parallel_tool_calls"@.len());
    assert("completed_at"@.len() != "previous_response_id"@.len());
    assert("completed_at"@.len() != "temperature"@.len());
    assert("completed_at"@.len() != "text"@.len());
    assert("completed_at"@.len() != "tool_choice"@.len());
    assert("completed_at"@.len() != "tools"@.len());
    assert("completed_at"@.len() != "top_p"@.len());
    assert("completed_at"@.len() != "truncation"@.len());
    assert("completed_at"@.len() != "usage"@.len());
    assert("completed_at"@.len() != "metadata"@.len());
    assert("error"@.len() != "incomplete_details"@.len());
    assert("error"@.len() != "instructions"@.len());
    assert("error"@.len() != "max_output_tokens"@.len());
    assert("error"@[0] != "model"@[0]);
    assert("error"@.len() != "output"@.len());
    assert("error"@.len() != "parallel_tool_calls"@.len());
    assert("error"@.len() != "previous_response_id"@.len());
    assert("error"@.len() != "temperature"@.len());
    assert("error"@.len() != "text"@.len());
    assert("error"@.len() != "tool_choice"@.len());
    assert("error"@[0] != "tools"@[0]);
    assert("error"@[0] != "top_p"@[0]);
    assert("error"@.len() != "truncation"@.len());
    assert("error"@[0] != "usage"@[0]);
    assert("error"@.len() != "metadata"@.len());
    assert("incomplete_details"@.len() != "instructions"@.len());
    assert("incomplete_details"@.len() != "max_output_tokens"@.len());
    assert("incomplete_details"@.len() != "model"@.len());
    assert("incomplete_details"@.len() != "output"@.len());
    assert("incomplete_details"@.len() != "parallel_tool_calls"@.len());
    assert("incomplete_details"@.len() != "previous_response_id"@.len());
    assert("incomplete_details"@.len() != "temperature"@.len());
    assert("incomplete_details"@.len() != "text"@.len());
    assert("incomplete_details"@.len() != "tool_choice"@.len());
    assert("incomplete_details"@.len() != "tools"@.len());
    assert("incomplete_details"@.len() != "top_p"@.len());
    assert("incomplete_details"@.len() != "truncation"@.len());
    assert("incomplete_details"@.len() != "usage"@.len());
    assert("incomplete_details"@.len() != "metadata"@.len());
    assert("instructions"@.len() != "max_output_tokens"@.len());
    assert("instructions"@.len() != "model"@.len());
    assert("instructions"@.len() != "output"@.len());
    assert("instructions"@.len() != "parallel_tool_calls"@.len());
    assert("instructions"@.len() != "previous_response_id"@.len());
    assert("instructions"@.len() != "temperature"@.len());
    assert("instructions"@.len() != "text"@.len());
    assert("instructions"@.len() != "tool_choice"@.len());
    assert("instructions"@.len() != "tools"@.len());
    assert("instructions"@.len() != "top_p"@.len());
    assert("instructions"@.len() != "truncation"@.len());
    assert("instructions"@.len() != "usage"@.len());
    assert("instructions"@.len() != "metadata"@.len());
    assert("max_output_tokens"@.len() != "model"@.len());
    assert("max_output_tokens"@.len() != "output"@.len());
    assert("max_output_tokens"@.len() != "parallel_tool_calls"@.len());
    assert("max_output_tokens"@.len() != "previous_response_id"@.len());
    assert("max_output_tokens"@.len() != "temperature"@.len());
    assert("max_output_tokens"@.len() != "text"@.len());
    assert("max_output_tokens"@.len() != "tool_choice"@.len());
    assert("max_output_tokens"@.len() != "tools"@.len());
    assert("max_output_tokens"@.len() != "top_p"@.len());
    assert("max_output_tokens"@.len() != "truncation"@.len());
    assert("max_output_tokens"@.len() != "usage"@.len());
    assert("max_output_tokens"@.len() != "metadata"@.len());
    assert("model"@.len() != "output"@.len());
    assert("model"@.len() != "parallel_tool_calls"@.len());
    assert("model"@.len() != "previous_response_id"@.len());
    assert("model"@.len() != "temperature"@.len());
    assert("model"@.len() != "text"@.len());
    assert("model"@.len() != "tool_choice"@.len());
    assert("model"@[0] != "tools"@[0]);
    assert("model"@[0] != "top_p"@[0]);
    assert("model"@.len() != "truncation"@.len());
    assert("model"@[0] != "usage"@[0]);
    assert("model"@.len() != "metadata"@.len());
    assert("output"@.len() != "parallel_tool_calls"@.len());
    assert("output"@.len() != "previous_response_id"@.len());
    assert("output"@.len() != "temperature"@.len());
    assert("output"@.len() != "text"@.len());
    assert("output"@.len() != "tool_choice"@.len());
    assert("output"@.len() != "tools"@.len());
    assert("output"@.len() != "top_p"@.len());
    assert("output"@.len() != "truncation"@.len());
    assert("output"@.len() != "usage"@.len());
    assert("output"@.len() != "metadata"@.len());
    assert("parallel_tool_calls"@.len() != "previous_response_id"@.len());
    assert("parallel_tool_calls"@.len() != "temperature"@.len());
    assert("parallel_tool_calls"@.len() != "text"@.len());
    assert("parallel_tool_calls"@.len() != "tool_choice"@.len());
    assert("parallel_tool_calls"@.len() != "tools"@.len());
    assert("parallel_tool_calls"@.len() != "top_p"@.len());
    assert("parallel_tool_calls"@.len() != "truncation"@.len());
    assert("parallel_tool_calls"@.len() != "usage"@.len());
    assert("parallel_tool_calls"@.len() != "metadata"@.len());
    assert("previous_response_id"@.len() != "temperature"@.len());
    assert("previous_response_id"@.len() != "text"@.len());
    assert("previous_response_id"@.len() != "tool_choice"@.len());
    assert("previous_response_id"@.len() != "tools"@.len());
    assert("previous_response_id"@.len() != "top_p"@.len());
    assert("previous_response_id"@.len() != "truncation"@.len());
    assert("previous_response_id"@.len() != "usage"@.len());
    assert("previous_response_id"@.len() != "metadata"@.len());
    assert("temperature"@.len() != "text"@.len());
    assert("temperature"@[1] != "tool_choice"@[1]);
    assert("temperature"@.len() != "tools"@.len());
    assert("temperature"@.len() != "top_p"@.len());
    assert("temperature"@.len() != "truncation"@.len());
    assert("temperature"@.len() != "usage"@.len());
    assert("temperature"@.len() != "metadata"@.len());
    assert("text"@.len() != "tool_choice"@.len());
    assert("text"@.len() != "tools"@.len());
    assert("text"@.len() != "top_p"@.len());
    assert("text"@.len() != "truncation"@.len());
    assert("text"@.len() != "usage"@.len());
    assert("text"@.len() != "metadata"@.len());
    assert("tool_choice"@.len() != "tools"@.len());
    assert("tool_choice"@.len() != "top_p"@.len());
    assert("tool_choice"@.len() != "truncation"@.len());
    assert("tool_choice"@.len() != "usage"@.len());
    assert("tool_choice"@.len() != "metadata"@.len());
    assert("tools"@[2] != "top_p"@[2]);
    assert("tools"@.len() != "truncation"@.len());
    assert("tools"@[0] != "usage"@[0]);
    assert("tools"@.len() != "metadata"@.len());
    assert("top_p"@.len() != "truncation"@.len());
    assert("top_p"@[0] != "usage"@[0]);
    assert("top_p"@.len() != "metadata"@.len());
    assert("truncation"@.len() != "usage"@.len());
    assert("truncation"@.len() != "metadata"@.len());
    assert("usage"@.len() != "metadata"@.len());
}

/// The member of a response object that stands at a position is the one
/// that is read by its name.
pub proof fn lemma_member_at(r: ResponseV, key: Seq<char>, value: JsonV, p: int)
    requires
        0 <= p < response_json(r)->Object_0.len(),
        response_json(r)->Object_0[p] == (key, value),
        forall|j: int|
            p < j < response_json(r)->Object_0.len() ==> (#[trigger] response_json(
                r,
            )->Object_0[j]).0 != key,
    ensures
        response_json(r).get(key) == Some(value),
{
    let e = response_json(r)->Object_0;
    lemma_last_entry_at(e, key, e.len() as int, p);
}

/// Members of a response object: each member is read by its name, and
/// holds what the response object holds under that name. The output-token
/// limit is there, and null, only where the object carries it.
pub proof fn law_response_members(r: ResponseV)
    ensures
        response_json(r).get("id"@) == Some(JsonV::Str(r.id)),
        response_json(r).get("object"@) == Some(JsonV::Str("response"@)),
        response_json(r).get("created_at"@) == Some(JsonV::Int(r.created_at as int)),
        response_json(r).get("status"@) == Some(JsonV::Str(status_text(r.status))),
        response_json(r).get("completed_at"@) == Some(time_json(r.completed_at)),
        response_json(r).get("error"@) == Some(JsonV::Null),
        response_json(r).get("incomplete_details"@) == Some(incomplete_details(r.status)),
        response_json(r).get("instructions"@) == Some(r.instructions),
        response_json(r).get("model"@) == Some(JsonV::Str(r.model)),
        response_json(r).get("output"@) == Some(JsonV::Array(items_json(r.output))),
        response_json(r).get("parallel_tool_calls"@) == Some(r.parallel_tool_calls),
        response_json(r).get("previous_response_id"@) == Some(JsonV::Null),
        response_json(r).get("temperature"@) == Some(r.temperature),
        response_json(r).get("tool_choice"@) == Some(r.tool_choice),
        response_json(r).get("tools"@) == Some(r.tools),
        response_json(r).get("top_p"@) == Some(r.top_p),
        response_json(r).get("truncation"@) == Some(JsonV::Str("disabled"@)),
        response_json(r).get("usage"@) == Some(usage_json(r.usage)),
        response_json(r).get("metadata"@) == Some(JsonV::Object(Seq::empty())),
        response_json(r).get("max_output_tokens"@) == (if r.with_limit {
            Some(JsonV::Null)
        } else {
            None
        }),
{
    lemma_response_names();
    let e = response_json(r)->Object_0;
    let head = response_head(r);
    let tail = response_tail(r);
    assert(head.len() == 8 && tail.len() == 12);
    let mid: Seq<(Seq<char>, JsonV)> = if r.with_limit {
        seq![("max_output_tokens"@, JsonV::Null)]
    } else {
        Seq::empty()
    };
    assert(e == head + mid + tail);
    let n = e.len() as int;
    assert forall|j: int| 0 <= j < n implies #[trigger] e[j] == (if j < 8 {
        head[j]
    } else if j < 8 + mid.len() {
        mid[j - 8]
    } else {
        tail[j - 8 - mid.len()]
    }) by {}
    assert(e[0] == ("id"@, JsonV::Str(r.id)));
    lemma_member_at(r, "id"@, JsonV::Str(r.id), 0);
    assert(e[1] == ("object"@, JsonV::Str("response"@)));
    lemma_member_at(r, "object"@, JsonV::Str("response"@), 1);
    assert(e[2] == ("created_at"@, JsonV::Int(r.created_at as int)));
    lemma_member_at(r, "created_at"@, JsonV::Int(r.created_at as int), 2);
    assert(e[3] == ("status"@, JsonV::Str(status_text(r.status))));
    lemma_member_at(r, "status"@, JsonV::Str(status_text(r.status)), 3);
    assert(e[4] == ("completed_at"@, time_json(r.completed_at)));
    lemma_member_at(r, "completed_at"@, time_json(r.completed_at), 4);
    assert(e[5] == ("error"@, JsonV::Null));
    lemma_member_at(r, "error"@, JsonV::Null, 5);
    assert(e[6] == ("incomplete_details"@, incomplete_details(r.status)));
    lemma_member_at(r, "incomplete_details"@, incomplete_details(r.status), 6);
    assert(e[7] == ("instructions"@, r.instructions));
    lemma_member_at(r, "instructions"@, r.instructions, 7);
    assert(e[9 - 1 + mid.len()] == ("model"@, JsonV::Str(r.model)));
    lemma_member_at(r, "model"@, JsonV::Str(r.model), 9 - 1 + mid.len());
    assert(e[10 - 1 + mid.len()] == ("output"@, JsonV::Array(items_json(r.output))));
    lemma_member_at(r, "output"@, JsonV::Array(items_json(r.output)), 10 - 1 + mid.len());
    assert(e[11 - 1 + mid.len()] == ("parallel_tool_calls"@, r.parallel_tool_calls));
    lemma_member_at(r, "parallel_tool_calls"@, r.parallel_tool_calls, 11 - 1 + mid.len());
    assert(e[12 - 1 + mid.len()] == ("previous_response_id"@, JsonV::Null));
    lemma_member_at(r, "previous_response_id"@, JsonV::Null, 12 - 1 + mid.len());
    assert(e[13 - 1 + mid.len()] == ("temperature"@, r.temperature));
    lemma_member_at(r, "temperature"@, r.temperature, 13 - 1 + mid.len());
    assert(e[15 - 1 + mid.len()] == ("tool_choice"@, r.tool_choice));
    lemma_member_at(r, "tool_choice"@, r.tool_choice, 15 - 1 + mid.len());
    assert(e[16 - 1 + mid.len()] == ("tools"@, r.tools));
    lemma_member_at(r, "tools"@, r.tools, 16 - 1 + mid.len());
    assert(e[17 - 1 + mid.len()] == ("top_p"@, r.top_p));
    lemma_member_at(r, "top_p"@, r.top_p, 17 - 1 + mid.len());
    assert(e[18 - 1 + mid.len()] == ("truncation"@, JsonV::Str("disabled"@)));
    lemma_member_at(r, "truncation"@, JsonV::Str("disabled"@), 18 - 1 + mid.len());
    assert(e[19 - 1 + mid.len()] == ("usage"@, usage_json(r.usage)));
    lemma_member_at(r, "usage"@, usage_json(r.usage), 19 - 1 + mid.len());
    assert(e[20 - 1 + mid.len()] == ("metadata"@, JsonV::Object(Seq::empty())));
    lemma_member_at(r, "metadata"@, JsonV::Object(Seq::empty()), 20 - 1 + mid.len());
    if r.with_limit {
        lemma_member_at(r, "max_output_tokens"@, JsonV::Null, 8);
    } else {
        assert(last_entry(e, "max_output_tokens"@, n) < 0) by {
            crate::json::lemma_last_entry(e, "max_output_tokens"@, n);
        }
    }
}

/// The name `type` differs from the names of the other members of a
/// payload, and `response` from `sequence_number`.
pub proof fn lemma_payload_names()
    ensures
        "type"@ != "response"@,
        "type"@ != "output_index"@,
        "type"@ != "item"@,
        "type"@ != "item_id"@,
        "type"@ != "content_index"@,
        "type"@ != "part"@,
        "type"@ != "delta"@,
        "type"@ != "text"@,
        "type"@ != "name"@,
        "type"@ != "arguments"@,
        "type"@ != "sequence_number"@,
        "response"@ != "sequence_number"@,
{
    reveal_strlit("type");
    reveal_strlit("response");
    reveal_strlit("output_index");
    reveal_strlit("item");
    reveal_strlit("item_id");
    reveal_strlit("content_index");
    reveal_strlit("part");
    reveal_strlit("delta");
    reveal_strlit("text");
    reveal_strlit("name");
    reveal_strlit("arguments");
    reveal_strlit("sequence_number");
    assert("type"@.len() != "response"@.len());
    assert("type"@.len() != "output_index"@.len());
    assert("type"@[0] != "item"@[0]);
    assert("type"@.len() != "item_id"@.len());
    assert("type"@.len() != "content_index"@.len());
    assert("type"@[0] != "part"@[0]);
    assert("type"@.len() != "delta"@.len());
    assert("type"@[1] != "text"@[1]);
    assert("type"@[0] != "name"@[0]);
    assert("type"@.len() != "arguments"@.len());
    assert("type"@.len() != "sequence_number"@.len());
    assert("response"@.len() != "sequence_number"@.len());
}

/// Members of a payload: the payload of an event names its type under
/// `type` and its number under `sequence_number`; and the payload of an
/// opening or terminal event holds its response object under `response`.
pub proof fn law_payload_members(e: StreamEventV)
    ensures
        e.payload().get("type"@) == Some(JsonV::Str(e.name())),
        e.payload().get("sequence_number"@) == Some(JsonV::Int(e.seq())),
        match e {
            StreamEventV::Created { response, .. } => e.payload().get("response"@) == Some(
                response_json(response),
            ),
            StreamEventV::InProgress { response, .. } => e.payload().get("response"@) == Some(
                response_json(response),
            ),
            StreamEventV::Finished { response, .. } => e.payload().get("response"@) == Some(
                response_json(response),
            ),
            _ => true,
        },
{
    lemma_payload_names();
    let entries = e.payload()->Object_0;
    let body = e.body();
    let n = entries.len() as int;
    assert(n == body.len() + 2);
    assert(entries[0] == ("type"@, JsonV::Str(e.name())));
    assert(entries[n - 1] == ("sequence_number"@, JsonV::Int(e.seq())));
    assert forall|j: int| 0 < j < n - 1 implies #[trigger] entries[j] == body[j - 1] by {}
    assert forall|j: int| 0 <= j < body.len() implies (#[trigger] body[j]).0 != "type"@ by {}
    lemma_last_entry_at(entries, "sequence_number"@, n, n - 1);
    lemma_last_entry_at(entries, "type"@, n, 0);
    if e is Created || e is InProgress || e is Finished {
        assert(body.len() == 1);
        lemma_last_entry_at(entries, "response"@, n, 1);
    }
}

} // verus!
