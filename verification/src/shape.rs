//! The objects of the Responses protocol: output items, usage and the
//! response object, with the JSON layout of each.

use crate::json::{append, entry_views, put, views, Json, JsonV};
use vstd::prelude::*;

verus! {

/// The status of a response or of an output item.
#[derive(Clone, Copy, PartialEq, Eq, Structural, Debug)]
pub enum Status {
    InProgress,
    Completed,
    Incomplete,
}

/// The word that stands for a status on the wire.
pub open spec fn status_text(status: Status) -> Seq<char> {
    match status {
        Status::InProgress => "in_progress"@,
        Status::Completed => "completed"@,
        Status::Incomplete => "incomplete"@,
    }
}

/// The status that a finish reason gives a response: incomplete where the
/// upstream stopped for length, completed otherwise.
pub open spec fn status_of(finish_reason: Seq<char>) -> Status {
    if finish_reason == "length"@ {
        Status::Incomplete
    } else {
        Status::Completed
    }
}

/// Token counts, as mathematical values.
pub struct UsageV {
    pub input_tokens: JsonV,
    pub output_tokens: JsonV,
    pub total_tokens: JsonV,
}

/// Token counts of one response.
#[derive(Debug, PartialEq, Eq)]
pub struct Usage {
    pub input_tokens: Json,
    pub output_tokens: Json,
    pub total_tokens: Json,
}

/// One unit of a response's output, as a mathematical value.
pub enum OutputItemV {
    /// An assistant message. Without a text its content is empty; with one
    /// it holds a single text part.
    Message { id: Seq<char>, status: Status, text: Option<Seq<char>> },
    /// A call of a function.
    FunctionCall { id: Seq<char>, status: Status, call_id: JsonV, name: JsonV, arguments: JsonV },
}

/// One unit of a response's output.
#[derive(Debug, PartialEq, Eq)]
pub enum OutputItem {
    Message { id: String, status: Status, text: Option<String> },
    FunctionCall { id: String, status: Status, call_id: Json, name: Json, arguments: Json },
}

/// A response object, as a mathematical value.
pub struct ResponseV {
    pub id: Seq<char>,
    pub created_at: i64,
    pub status: Status,
    pub completed_at: Option<i64>,
    pub instructions: JsonV,
    /// Whether the object carries an (empty) output-token limit, as the
    /// objects of the opening events do.
    pub with_limit: bool,
    pub model: Seq<char>,
    pub output: Seq<OutputItemV>,
    pub parallel_tool_calls: JsonV,
    pub temperature: JsonV,
    pub tool_choice: JsonV,
    pub tools: JsonV,
    pub top_p: JsonV,
    pub usage: Option<UsageV>,
}

/// A response object.
#[derive(Debug, PartialEq, Eq)]
pub struct ResponseObject {
    pub id: String,
    pub created_at: i64,
    pub status: Status,
    pub completed_at: Option<i64>,
    pub instructions: Json,
    pub with_limit: bool,
    pub model: String,
    pub output: Vec<OutputItem>,
    pub parallel_tool_calls: Json,
    pub temperature: Json,
    pub tool_choice: Json,
    pub tools: Json,
    pub top_p: Json,
    pub usage: Option<Usage>,
}

/// The views of a run of output items.
pub open spec fn item_views(items: Seq<OutputItem>) -> Seq<OutputItemV> {
    Seq::new(items.len(), |i: int| items[i]@)
}

/// The text part of a message: `{"type":"output_text","text":..,"annotations":[]}`.
pub open spec fn text_part(text: Seq<char>) -> JsonV {
    JsonV::Object(
        seq![
            ("type"@, JsonV::Str("output_text"@)),
            ("text"@, JsonV::Str(text)),
            ("annotations"@, JsonV::Array(Seq::empty())),
        ],
    )
}

/// The JSON layout of an output item.
pub open spec fn item_json(item: OutputItemV) -> JsonV {
    match item {
        OutputItemV::Message { id, status, text } => JsonV::Object(
            seq![
                ("id"@, JsonV::Str(id)),
                ("type"@, JsonV::Str("message"@)),
                ("role"@, JsonV::Str("assistant"@)),
                ("status"@, JsonV::Str(status_text(status))),
                (
                    "content"@,
                    JsonV::Array(
                        match text {
                            Some(t) => seq![text_part(t)],
                            None => Seq::empty(),
                        },
                    ),
                ),
            ],
        ),
        OutputItemV::FunctionCall { id, status, call_id, name, arguments } => JsonV::Object(
            seq![
                ("id"@, JsonV::Str(id)),
                ("type"@, JsonV::Str("function_call"@)),
                ("status"@, JsonV::Str(status_text(status))),
                ("call_id"@, call_id),
                ("name"@, name),
                ("arguments"@, arguments),
            ],
        ),
    }
}

/// The JSON layouts of a run of output items.
pub open spec fn items_json(items: Seq<OutputItemV>) -> Seq<JsonV> {
    Seq::new(items.len(), |i: int| item_json(items[i]))
}

/// The JSON layout of the usage: null where there is none.
pub open spec fn usage_json(usage: Option<UsageV>) -> JsonV {
    match usage {
        Some(u) => JsonV::Object(
            seq![
                ("input_tokens"@, u.input_tokens),
                ("output_tokens"@, u.output_tokens),
                (
                    "output_tokens_details"@,
                    JsonV::Object(seq![("reasoning_tokens"@, JsonV::Int(0))]),
                ),
                ("total_tokens"@, u.total_tokens),
            ],
        ),
        None => JsonV::Null,
    }
}

/// The details of an incomplete response: the reason `max_output_tokens`;
/// null for any other status.
pub open spec fn incomplete_details(status: Status) -> JsonV {
    if status == Status::Incomplete {
        JsonV::Object(seq![("reason"@, JsonV::Str("max_output_tokens"@))])
    } else {
        JsonV::Null
    }
}

/// An optional time as JSON: null where there is none.
pub open spec fn time_json(t: Option<i64>) -> JsonV {
    match t {
        Some(n) => JsonV::Int(n as int),
        None => JsonV::Null,
    }
}

/// The first members of a response object, up to its instructions.
pub open spec fn response_head(r: ResponseV) -> Seq<(Seq<char>, JsonV)> {
    seq![
        ("id"@, JsonV::Str(r.id)),
        ("object"@, JsonV::Str("response"@)),
        ("created_at"@, JsonV::Int(r.created_at as int)),
        ("status"@, JsonV::Str(status_text(r.status))),
        ("completed_at"@, time_json(r.completed_at)),
        ("error"@, JsonV::Null),
        ("incomplete_details"@, incomplete_details(r.status)),
        ("instructions"@, r.instructions),
    ]
}

/// The members of a response object from its model on.
pub open spec fn response_tail(r: ResponseV) -> Seq<(Seq<char>, JsonV)> {
    seq![
        ("model"@, JsonV::Str(r.model)),
        ("output"@, JsonV::Array(items_json(r.output))),
        ("parallel_tool_calls"@, r.parallel_tool_calls),
        ("previous_response_id"@, JsonV::Null),
        ("temperature"@, r.temperature),
        (
            "text"@,
            JsonV::Object(seq![("format"@, JsonV::Object(seq![("type"@, JsonV::Str("text"@))]))]),
        ),
        ("tool_choice"@, r.tool_choice),
        ("tools"@, r.tools),
        ("top_p"@, r.top_p),
        ("truncation"@, JsonV::Str("disabled"@)),
        ("usage"@, usage_json(r.usage)),
        ("metadata"@, JsonV::Object(Seq::empty())),
    ]
}

/// The JSON layout of a response object. The member `max_output_tokens`,
/// always null, stands between the instructions and the model where the
/// object carries it.
pub open spec fn response_json(r: ResponseV) -> JsonV {
    JsonV::Object(
        response_head(r) + (if r.with_limit {
            seq![("max_output_tokens"@, JsonV::Null)]
        } else {
            Seq::empty()
        }) + response_tail(r),
    )
}

/// No entries yet.
pub fn new_entries() -> (r: Vec<(String, Json)>)
    ensures
        entry_views(r@) == Seq::<(Seq<char>, JsonV)>::empty(),
{
    let r: Vec<(String, Json)> = Vec::new();
    assert(entry_views(r@) =~= Seq::<(Seq<char>, JsonV)>::empty());
    r
}

/// No items yet.
pub fn new_items() -> (r: Vec<Json>)
    ensures
        views(r@) == Seq::<JsonV>::empty(),
{
    let r: Vec<Json> = Vec::new();
    assert(views(r@) =~= Seq::<JsonV>::empty());
    r
}

/// The status that a finish reason gives a response.
pub fn status_for(finish_reason: &str) -> (r: Status)
    ensures
        r == status_of(finish_reason@),
{
    if crate::text::same(finish_reason, "length") {
        Status::Incomplete
    } else {
        Status::Completed
    }
}

impl Status {
    /// The word that stands for the status on the wire.
    pub fn as_str(self) -> (r: &'static str)
        ensures
            r@ == status_text(self),
    {
        match self {
            Status::InProgress => "in_progress",
            Status::Completed => "completed",
            Status::Incomplete => "incomplete",
        }
    }

    /// The details of an incomplete response, null for another status.
    pub fn details(self) -> (r: Json)
        ensures
            r@ == incomplete_details(self),
    {
        match self {
            Status::Incomplete => {
                let mut e = new_entries();
                put(&mut e, "reason", Json::string("max_output_tokens"));
                Json::object(e)
            },
            _ => Json::Null,
        }
    }
}

impl Usage {
    /// The mathematical value.
    pub open spec fn view(&self) -> UsageV {
        UsageV {
            input_tokens: self.input_tokens@,
            output_tokens: self.output_tokens@,
            total_tokens: self.total_tokens@,
        }
    }

    /// A copy of the usage.
    pub fn deep_clone(&self) -> (r: Usage)
        ensures
            r@ == self@,
    {
        Usage {
            input_tokens: self.input_tokens.deep_clone(),
            output_tokens: self.output_tokens.deep_clone(),
            total_tokens: self.total_tokens.deep_clone(),
        }
    }
}

/// The JSON layout of the usage.
pub fn usage_to_json(usage: &Option<Usage>) -> (r: Json)
    ensures
        r@ == usage_json(
            match usage {
                Some(u) => Some(u@),
                None => None,
            },
        ),
{
    match usage {
        Some(u) => {
            let mut details = new_entries();
            put(&mut details, "reasoning_tokens", Json::Unsigned(0));
            let mut e = new_entries();
            put(&mut e, "input_tokens", u.input_tokens.deep_clone());
            put(&mut e, "output_tokens", u.output_tokens.deep_clone());
            put(&mut e, "output_tokens_details", Json::object(details));
            put(&mut e, "total_tokens", u.total_tokens.deep_clone());
            assert(entry_views(e@) =~= usage_json(Some(u@))->Object_0);
            Json::object(e)
        },
        None => Json::Null,
    }
}

/// The text part of a message.
pub fn text_part_json(text: &str) -> (r: Json)
    ensures
        r@ == text_part(text@),
{
    let mut e = new_entries();
    put(&mut e, "type", Json::string("output_text"));
    put(&mut e, "text", Json::string(text));
    put(&mut e, "annotations", Json::array(new_items()));
    assert(entry_views(e@) =~= text_part(text@)->Object_0);
    Json::object(e)
}

impl OutputItem {
    /// The mathematical value.
    pub open spec fn view(&self) -> OutputItemV {
        match self {
            OutputItem::Message { id, status, text } => OutputItemV::Message {
                id: id@,
                status: *status,
                text: match text {
                    Some(t) => Some(t@),
                    None => None,
                },
            },
            OutputItem::FunctionCall { id, status, call_id, name, arguments } => {
                OutputItemV::FunctionCall {
                    id: id@,
                    status: *status,
                    call_id: call_id@,
                    name: name@,
                    arguments: arguments@,
                }
            },
        }
    }

    /// A copy of the item.
    pub fn deep_clone(&self) -> (r: OutputItem)
        ensures
            r@ == self@,
    {
        match self {
            OutputItem::Message { id, status, text } => OutputItem::Message {
                id: id.clone(),
                status: *status,
                text: match text {
                    Some(t) => Some(t.clone()),
                    None => None,
                },
            },
            OutputItem::FunctionCall { id, status, call_id, name, arguments } => {
                OutputItem::FunctionCall {
                    id: id.clone(),
                    status: *status,
                    call_id: call_id.deep_clone(),
                    name: name.deep_clone(),
                    arguments: arguments.deep_clone(),
                }
            },
        }
    }

    /// The JSON layout of the item.
    pub fn to_json(&self) -> (r: Json)
        ensures
            r@ == item_json(self@),
    {
        match self {
            OutputItem::Message { id, status, text } => {
                let mut content = new_items();
                match text {
                    Some(t) => {
                        append(&mut content, text_part_json(t.as_str()));
                    },
                    None => {},
                }
                let mut e = new_entries();
                put(&mut e, "id", Json::string(id.as_str()));
                put(&mut e, "type", Json::string("message"));
                put(&mut e, "role", Json::string("assistant"));
                put(&mut e, "status", Json::string(status.as_str()));
                put(&mut e, "content", Json::array(content));
                assert(entry_views(e@) =~= item_json(self@)->Object_0);
                Json::object(e)
            },
            OutputItem::FunctionCall { id, status, call_id, name, arguments } => {
                let mut e = new_entries();
                put(&mut e, "id", Json::string(id.as_str()));
                put(&mut e, "type", Json::string("function_call"));
                put(&mut e, "status", Json::string(status.as_str()));
                put(&mut e, "call_id", call_id.deep_clone());
                put(&mut e, "name", name.deep_clone());
                put(&mut e, "arguments", arguments.deep_clone());
                assert(entry_views(e@) =~= item_json(self@)->Object_0);
                Json::object(e)
            },
        }
    }
}

/// A copy of a run of output items.
pub fn clone_items(items: &Vec<OutputItem>) -> (r: Vec<OutputItem>)
    ensures
        item_views(r@) == item_views(items@),
{
    let mut out: Vec<OutputItem> = Vec::new();
    let mut i: usize = 0;
    while i < items.len()
        invariant
            i <= items.len(),
            out@.len() == i,
            forall|k: int| 0 <= k < i ==> out@[k]@ == items@[k]@,
        decreases items.len() - i,
    {
        out.push(items[i].deep_clone());
        i += 1;
    }
    assert(item_views(out@) =~= item_views(items@));
    out
}

/// The JSON layouts of a run of output items.
pub fn items_to_json(items: &Vec<OutputItem>) -> (r: Vec<Json>)
    ensures
        views(r@) == items_json(item_views(items@)),
{
    let mut out: Vec<Json> = Vec::new();
    let mut i: usize = 0;
    while i < items.len()
        invariant
            i <= items.len(),
            out@.len() == i,
            forall|k: int| 0 <= k < i ==> out@[k]@ == item_json(items@[k]@),
        decreases items.len() - i,
    {
        out.push(items[i].to_json());
        i += 1;
    }
    assert(views(out@) =~= items_json(item_views(items@)));
    out
}

impl ResponseObject {
    /// The mathematical value.
    pub open spec fn view(&self) -> ResponseV {
        ResponseV {
            id: self.id@,
            created_at: self.created_at,
            status: self.status,
            completed_at: self.completed_at,
            instructions: self.instructions@,
            with_limit: self.with_limit,
            model: self.model@,
            output: item_views(self.output@),
            parallel_tool_calls: self.parallel_tool_calls@,
            temperature: self.temperature@,
            tool_choice: self.tool_choice@,
            tools: self.tools@,
            top_p: self.top_p@,
            usage: match self.usage {
                Some(u) => Some(u@),
                None => None,
            },
        }
    }

    /// A copy of the response object.
    pub fn deep_clone(&self) -> (r: ResponseObject)
        ensures
            r@ == self@,
    {
        ResponseObject {
            id: self.id.clone(),
            created_at: self.created_at,
            status: self.status,
            completed_at: self.completed_at,
            instructions: self.instructions.deep_clone(),
            with_limit: self.with_limit,
            model: self.model.clone(),
            output: clone_items(&self.output),
            parallel_tool_calls: self.parallel_tool_calls.deep_clone(),
            temperature: self.temperature.deep_clone(),
            tool_choice: self.tool_choice.deep_clone(),
            tools: self.tools.deep_clone(),
            top_p: self.top_p.deep_clone(),
            usage: match &self.usage {
                Some(u) => Some(u.deep_clone()),
                None => None,
            },
        }
    }

    /// The JSON layout of the response object.
    pub fn to_json(&self) -> (r: Json)
        ensures
            r@ == response_json(self@),
    {
        let mut kind = new_entries();
        put(&mut kind, "type", Json::string("text"));
        let mut format = new_entries();
        put(&mut format, "format", Json::object(kind));
        let mut e = new_entries();
        put(&mut e, "id", Json::string(self.id.as_str()));
        put(&mut e, "object", Json::string("response"));
        put(&mut e, "created_at", Json::integer(self.created_at));
        put(&mut e, "status", Json::string(self.status.as_str()));
        put(
            &mut e,
            "completed_at",
            match self.completed_at {
                Some(t) => Json::integer(t),
                None => Json::Null,
            },
        );
        put(&mut e, "error", Json::Null);
        put(&mut e, "incomplete_details", self.status.details());
        put(&mut e, "instructions", self.instructions.deep_clone());
        let ghost head = entry_views(e@);
        if self.with_limit {
            put(&mut e, "max_output_tokens", Json::Null);
        }
        let ghost middle = entry_views(e@);
        put(&mut e, "model", Json::string(self.model.as_str()));
        put(&mut e, "output", Json::array(items_to_json(&self.output)));
        put(&mut e, "parallel_tool_calls", self.parallel_tool_calls.deep_clone());
        put(&mut e, "previous_response_id", Json::Null);
        put(&mut e, "temperature", self.temperature.deep_clone());
        put(&mut e, "text", Json::object(format));
        put(&mut e, "tool_choice", self.tool_choice.deep_clone());
        put(&mut e, "tools", self.tools.deep_clone());
        put(&mut e, "top_p", self.top_p.deep_clone());
        put(&mut e, "truncation", Json::string("disabled"));
        put(&mut e, "usage", usage_to_json(&self.usage));
        put(&mut e, "metadata", Json::object(new_entries()));
        assert(head == response_head(self@));
        assert(entry_views(e@) =~= middle + response_tail(self@));
        assert(entry_views(e@) =~= response_json(self@)->Object_0);
        Json::object(e)
    }
}

} // verus!
