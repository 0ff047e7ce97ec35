//! The request translator: from a Responses request to the Chat
//! Completions request sent upstream, and the values echoed back later.

use crate::ids::{id_text, next_counter, now_millis, IdMinter};
use crate::json::{append, entry_views, put, views, Json, JsonV};
use crate::shape::{new_entries, new_items};
use crate::text::{lemma_empty_text, same};
use vstd::prelude::*;

verus! {

/// A translated request, as a mathematical value.
pub struct TranslatedRequestV {
    pub cc_body: JsonV,
    pub resp_id: Seq<char>,
    pub model: Seq<char>,
    pub tools_echo: JsonV,
    pub instructions: JsonV,
    pub temperature: JsonV,
    pub top_p: JsonV,
    pub tool_choice: JsonV,
    pub parallel_tool_calls: JsonV,
    pub is_stream: bool,
}

/// What one call needs of its request: the body to send upstream, the
/// identifier of the response, and the values that every event and the
/// final object echo.
#[derive(Debug, PartialEq, Eq)]
pub struct TranslatedRequest {
    pub cc_body: Json,
    pub resp_id: String,
    pub model: String,
    pub tools_echo: Json,
    pub instructions: Json,
    pub temperature: Json,
    pub top_p: Json,
    pub tool_choice: Json,
    pub parallel_tool_calls: Json,
    pub is_stream: bool,
}

/// One part of a message's content.
pub enum PartV {
    Text(JsonV),
    Image(Seq<char>),
}

/// One part of a message's content.
#[derive(Debug, PartialEq, Eq)]
pub enum Part {
    Text(Json),
    Image(String),
}

/// The role upstream: `developer` becomes `system`, any other stays.
pub open spec fn map_role(role: Seq<char>) -> Seq<char> {
    if role == "developer"@ {
        "system"@
    } else {
        role
    }
}

/// The message `{"role":..,"content":..}`.
pub open spec fn message(role: Seq<char>, content: JsonV) -> JsonV {
    JsonV::Object(seq![("role"@, JsonV::Str(role)), ("content"@, content)])
}

/// The text of the string member `key`, or `default`.
pub open spec fn str_or(v: JsonV, key: Seq<char>, default: Seq<char>) -> Seq<char> {
    match v.get_str(key) {
        Some(t) => t,
        None => default,
    }
}

/// The part that a content part of the request becomes, if any: an
/// `input_text` part a text, an `input_image` part with a URL an image, and
/// a part of another kind a text where it has a member `text`.
pub open spec fn part_of(part: JsonV) -> Option<PartV> {
    let kind = str_or(part, "type"@, Seq::empty());
    if kind == "input_text"@ {
        Some(PartV::Text(part.get_or("text"@, JsonV::Null)))
    } else if kind == "input_image"@ {
        match part.get_str("image_url"@) {
            Some(url) => Some(PartV::Image(url)),
            None => None,
        }
    } else {
        match part.get("text"@) {
            Some(t) => Some(PartV::Text(t)),
            None => None,
        }
    }
}

/// The parts that the content parts from position `i` on become.
pub open spec fn parts_from(parts: Seq<JsonV>, i: int) -> Seq<PartV>
    decreases parts.len() - i,
{
    if 0 <= i < parts.len() {
        (match part_of(parts[i]) {
            Some(p) => seq![p],
            None => Seq::empty(),
        }) + parts_from(parts, i + 1)
    } else {
        Seq::empty()
    }
}

/// The JSON layout of a part upstream.
pub open spec fn part_json(p: PartV) -> JsonV {
    match p {
        PartV::Text(t) => JsonV::Object(seq![("type"@, JsonV::Str("text"@)), ("text"@, t)]),
        PartV::Image(url) => JsonV::Object(
            seq![
                ("type"@, JsonV::Str("image_url"@)),
                ("image_url"@, JsonV::Object(seq![("url"@, JsonV::Str(url))])),
            ],
        ),
    }
}

/// The JSON layouts of a run of parts.
pub open spec fn parts_json(parts: Seq<PartV>) -> Seq<JsonV> {
    Seq::new(parts.len(), |i: int| part_json(parts[i]))
}

/// The content of a message made of `parts`: the bare text where there is
/// exactly one part and it is a text, the array of the parts otherwise.
pub open spec fn content_of(parts: Seq<PartV>) -> JsonV {
    if parts.len() == 1 && parts[0] is Text {
        parts[0]->Text_0
    } else {
        JsonV::Array(parts_json(parts))
    }
}

/// The message that an input item becomes, if any.
pub open spec fn item_message(item: JsonV) -> Option<JsonV> {
    let kind = str_or(item, "type"@, Seq::empty());
    if kind == "message"@ {
        let role = map_role(str_or(item, "role"@, "user"@));
        match item.get("content"@) {
            Some(JsonV::Array(parts)) => Some(message(role, content_of(parts_from(parts, 0)))),
            Some(JsonV::Str(t)) => Some(message(role, JsonV::Str(t))),
            _ => None,
        }
    } else if kind == "function_call_output"@ {
        Some(
            JsonV::Object(
                seq![
                    ("role"@, JsonV::Str("tool"@)),
                    ("tool_call_id"@, item.get_or("call_id"@, JsonV::Null)),
                    ("content"@, item.get_or("output"@, JsonV::Str(Seq::empty()))),
                ],
            ),
        )
    } else if kind.len() == 0 {
        match item.get_str("role"@) {
            Some(role) => Some(message(map_role(role), item.get_or("content"@, JsonV::Null))),
            None => None,
        }
    } else {
        None
    }
}

/// The messages that the input items from position `i` on become.
pub open spec fn messages_from(items: Seq<JsonV>, i: int) -> Seq<JsonV>
    decreases items.len() - i,
{
    if 0 <= i < items.len() {
        (match item_message(items[i]) {
            Some(m) => seq![m],
            None => Seq::empty(),
        }) + messages_from(items, i + 1)
    } else {
        Seq::empty()
    }
}

/// The messages sent upstream: one for the instructions where they are a
/// string, then those of the input.
pub open spec fn messages_of(body: JsonV) -> Seq<JsonV> {
    (match body.get_str("instructions"@) {
        Some(t) => seq![message("developer"@, JsonV::Str(t))],
        None => Seq::empty(),
    }) + (match body.get("input"@) {
        Some(JsonV::Str(t)) => seq![message("user"@, JsonV::Str(t))],
        Some(JsonV::Array(items)) => messages_from(items, 0),
        _ => Seq::empty(),
    })
}

/// The function of a declared tool: its name, description, parameters
/// (an empty object where it declares none) and strict flag.
pub open spec fn function_of(tool: JsonV) -> JsonV {
    JsonV::Object(
        seq![
            ("name"@, tool.get_or("name"@, JsonV::Null)),
            ("description"@, tool.get_or("description"@, JsonV::Null)),
            ("parameters"@, tool.get_or("parameters"@, JsonV::Object(Seq::empty()))),
            ("strict"@, tool.get_or("strict"@, JsonV::Null)),
        ],
    )
}

/// The function-tool descriptor for a declared tool of type `function`.
pub open spec fn tool_descriptor(tool: JsonV) -> Option<JsonV> {
    if str_or(tool, "type"@, Seq::empty()) == "function"@ {
        Some(
            JsonV::Object(
                seq![("type"@, JsonV::Str("function"@)), ("function"@, function_of(tool))],
            ),
        )
    } else {
        None
    }
}

/// The descriptors of the declared tools from position `i` on.
pub open spec fn tools_from(tools: Seq<JsonV>, i: int) -> Seq<JsonV>
    decreases tools.len() - i,
{
    if 0 <= i < tools.len() {
        (match tool_descriptor(tools[i]) {
            Some(t) => seq![t],
            None => Seq::empty(),
        }) + tools_from(tools, i + 1)
    } else {
        Seq::empty()
    }
}

/// The descriptors of all declared tools.
pub open spec fn tools_of(body: JsonV) -> Seq<JsonV> {
    match body.get("tools"@) {
        Some(JsonV::Array(tools)) => tools_from(tools, 0),
        _ => Seq::empty(),
    }
}

/// The tool choice upstream: a string as it is, an object of type
/// `function` narrowed to the function's name, anything else `"auto"`.
pub open spec fn tool_choice_of(v: JsonV) -> JsonV {
    match v {
        JsonV::Str(t) => JsonV::Str(t),
        JsonV::Object(_) => if str_or(v, "type"@, Seq::empty()) == "function"@ {
            JsonV::Object(
                seq![
                    ("type"@, JsonV::Str("function"@)),
                    (
                        "function"@,
                        JsonV::Object(seq![("name"@, v.get_or("name"@, JsonV::Null))]),
                    ),
                ],
            )
        } else {
            JsonV::Str("auto"@)
        },
        _ => JsonV::Str("auto"@),
    }
}

/// The schema of a `json_schema` format: its name (`response` where it has
/// none), its schema (an empty object where it has none) and its strict
/// flag (true where it has none).
pub open spec fn schema_of(format: JsonV) -> JsonV {
    JsonV::Object(
        seq![
            ("name"@, format.get_or("name"@, JsonV::Str("response"@))),
            ("schema"@, format.get_or("schema"@, JsonV::Object(Seq::empty()))),
            ("strict"@, format.get_or("strict"@, JsonV::Bool(true))),
        ],
    )
}

/// The response format upstream for the request's `text.format`, if it
/// asks for one.
pub open spec fn format_of(format: JsonV) -> Option<JsonV> {
    let kind = str_or(format, "type"@, "text"@);
    if kind == "json_object"@ {
        Some(JsonV::Object(seq![("type"@, JsonV::Str("json_object"@))]))
    } else if kind == "json_schema"@ {
        Some(
            JsonV::Object(
                seq![("type"@, JsonV::Str("json_schema"@)), ("json_schema"@, schema_of(format))],
            ),
        )
    } else {
        None
    }
}

/// The entry `to: v` where the body has a member `from` with value `v`.
pub open spec fn copied(body: JsonV, from: Seq<char>, to: Seq<char>) -> Seq<(Seq<char>, JsonV)> {
    match body.get(from) {
        Some(v) => seq![(to, v)],
        None => Seq::empty(),
    }
}

/// The entry for the tools, none where no function tool is declared.
pub open spec fn tools_entry(body: JsonV) -> Seq<(Seq<char>, JsonV)> {
    if tools_of(body).len() > 0 {
        seq![("tools"@, JsonV::Array(tools_of(body)))]
    } else {
        Seq::empty()
    }
}

/// The entry for the tool choice, none where the request names none.
pub open spec fn choice_entry(body: JsonV) -> Seq<(Seq<char>, JsonV)> {
    match body.get("tool_choice"@) {
        Some(v) => seq![("tool_choice"@, tool_choice_of(v))],
        None => Seq::empty(),
    }
}

/// The entry for the response format, none where the request asks for
/// plain text.
pub open spec fn format_entry(body: JsonV) -> Seq<(Seq<char>, JsonV)> {
    match body.get("text"@) {
        Some(text) => match text.get("format"@) {
            Some(format) => match format_of(format) {
                Some(f) => seq![("response_format"@, f)],
                None => Seq::empty(),
            },
            None => Seq::empty(),
        },
        None => Seq::empty(),
    }
}

/// Whether the request asks for a stream.
pub open spec fn wants_stream(body: JsonV) -> bool {
    match body.get("stream"@) {
        Some(JsonV::Bool(b)) => b,
        _ => false,
    }
}

/// The entry for the stream flag, none where the request asks for none.
pub open spec fn stream_entry(body: JsonV) -> Seq<(Seq<char>, JsonV)> {
    if wants_stream(body) {
        seq![("stream"@, JsonV::Bool(true))]
    } else {
        Seq::empty()
    }
}

/// The Chat Completions request for a Responses request and its model.
pub open spec fn chat_body(body: JsonV, model: Seq<char>) -> JsonV {
    JsonV::Object(
        seq![("model"@, JsonV::Str(model)), ("messages"@, JsonV::Array(messages_of(body)))]
            + tools_entry(body) + copied(body, "temperature"@, "temperature"@) + copied(
            body,
            "top_p"@,
            "top_p"@,
        ) + copied(body, "max_output_tokens"@, "max_tokens"@) + choice_entry(body) + copied(
            body,
            "parallel_tool_calls"@,
            "parallel_tool_calls"@,
        ) + format_entry(body) + stream_entry(body),
    )
}

/// The translation of a request whose response gets the identifier
/// `resp_id`: nothing where the request names no model as a string.
pub open spec fn translated(body: JsonV, resp_id: Seq<char>) -> Option<TranslatedRequestV> {
    match body.get_str("model"@) {
        Some(model) => Some(
            TranslatedRequestV {
                cc_body: chat_body(body, model),
                resp_id,
                model,
                tools_echo: body.get_or("tools"@, JsonV::Array(Seq::empty())),
                instructions: body.get_or("instructions"@, JsonV::Null),
                temperature: body.get_or("temperature"@, JsonV::Int(1)),
                top_p: body.get_or("top_p"@, JsonV::Int(1)),
                tool_choice: body.get_or("tool_choice"@, JsonV::Str("auto"@)),
                parallel_tool_calls: body.get_or("parallel_tool_calls"@, JsonV::Bool(true)),
                is_stream: wants_stream(body),
            },
        ),
        None => None,
    }
}

impl Part {
    /// The mathematical value.
    pub open spec fn view(&self) -> PartV {
        match self {
            Part::Text(t) => PartV::Text(t@),
            Part::Image(url) => PartV::Image(url@),
        }
    }

    /// The JSON layout of the part upstream.
    pub fn to_json(&self) -> (r: Json)
        ensures
            r@ == part_json(self@),
    {
        match self {
            Part::Text(t) => {
                let mut e = new_entries();
                put(&mut e, "type", Json::string("text"));
                put(&mut e, "text", t.deep_clone());
                assert(entry_views(e@) =~= part_json(self@)->Object_0);
                Json::object(e)
            },
            Part::Image(url) => {
                let mut inner = new_entries();
                put(&mut inner, "url", Json::string(url.as_str()));
                let mut e = new_entries();
                put(&mut e, "type", Json::string("image_url"));
                put(&mut e, "image_url", Json::object(inner));
                assert(entry_views(e@) =~= part_json(self@)->Object_0);
                Json::object(e)
            },
        }
    }
}

/// The views of a run of parts.
pub open spec fn part_views(parts: Seq<Part>) -> Seq<PartV> {
    Seq::new(parts.len(), |i: int| parts[i]@)
}

impl TranslatedRequest {
    /// The mathematical value.
    pub open spec fn view(&self) -> TranslatedRequestV {
        TranslatedRequestV {
            cc_body: self.cc_body@,
            resp_id: self.resp_id@,
            model: self.model@,
            tools_echo: self.tools_echo@,
            instructions: self.instructions@,
            temperature: self.temperature@,
            top_p: self.top_p@,
            tool_choice: self.tool_choice@,
            parallel_tool_calls: self.parallel_tool_calls@,
            is_stream: self.is_stream,
        }
    }
}

/// The text of the string member `key`, or `default`.
pub fn get_str_or<'a>(v: &'a Json, key: &str, default: &'a str) -> (r: &'a str)
    ensures
        r@ == str_or(v@, key@, default@),
{
    match v.get_str(key) {
        Some(t) => t,
        None => default,
    }
}

/// The role upstream for a role of the request.
pub fn cc_role<'a>(role: &'a str) -> (r: &'a str)
    ensures
        r@ == map_role(role@),
{
    if same(role, "developer") {
        "system"
    } else {
        role
    }
}

/// The message `{"role":..,"content":..}`.
pub fn make_message(role: &str, content: Json) -> (r: Json)
    ensures
        r@ == message(role@, content@),
{
    let mut e = new_entries();
    put(&mut e, "role", Json::string(role));
    put(&mut e, "content", content);
    assert(entry_views(e@) =~= message(role@, content@)->Object_0);
    Json::object(e)
}

/// The part that a content part of the request becomes, if any.
pub fn translate_part(part: &Json) -> (r: Option<Part>)
    ensures
        match r {
            Some(p) => part_of(part@) == Some(p@),
            None => part_of(part@) is None,
        },
{
    proof {
        lemma_empty_text();
    }
    let kind = get_str_or(part, "type", "");
    if same(kind, "input_text") {
        Some(Part::Text(part.get_or("text", Json::Null)))
    } else if same(kind, "input_image") {
        match part.get_str("image_url") {
            Some(url) => Some(Part::Image(url.to_owned())),
            None => None,
        }
    } else {
        match part.get("text") {
            Some(t) => Some(Part::Text(t.deep_clone())),
            None => None,
        }
    }
}

/// The content of a message made of the content parts `parts`.
pub fn translate_content(parts: &Vec<Json>) -> (r: Json)
    ensures
        r@ == content_of(parts_from(views(parts@), 0)),
{
    let ghost all = views(parts@);
    let mut out: Vec<Part> = Vec::new();
    let mut i: usize = 0;
    assert(part_views(out@) =~= Seq::<PartV>::empty());
    while i < parts.len()
        invariant
            i <= parts.len(),
            all == views(parts@),
            parts_from(all, 0) == part_views(out@) + parts_from(all, i as int),
        decreases parts.len() - i,
    {
        let ghost before = part_views(out@);
        match translate_part(&parts[i]) {
            Some(p) => {
                out.push(p);
                assert(part_views(out@) =~= before + seq![p@]);
            },
            None => {},
        }
        assert(before + parts_from(all, i as int) =~= part_views(out@) + parts_from(
            all,
            i + 1,
        ));
        i += 1;
    }
    assert(parts_from(all, 0) =~= part_views(out@));
    if out.len() == 1 {
        match &out[0] {
            Part::Text(t) => {
                return t.deep_clone();
            },
            _ => {},
        }
    }
    let mut items: Vec<Json> = Vec::new();
    let mut k: usize = 0;
    while k < out.len()
        invariant
            k <= out.len(),
            items@.len() == k,
            forall|j: int| 0 <= j < k ==> items@[j]@ == part_json(out@[j]@),
        decreases out.len() - k,
    {
        items.push(out[k].to_json());
        k += 1;
    }
    assert(views(items@) =~= parts_json(part_views(out@)));
    Json::array(items)
}

/// Translates one input item and appends the message it becomes, if any.
pub fn translate_input_item(item: &Json, messages: &mut Vec<Json>)
    ensures
        views(final(messages)@) == views(old(messages)@) + (match item_message(item@) {
            Some(m) => seq![m],
            None => Seq::empty(),
        }),
{
    proof {
        lemma_empty_text();
    }
    let ghost before = views(messages@);
    let kind = get_str_or(item, "type", "");
    if same(kind, "message") {
        let role = cc_role(get_str_or(item, "role", "user"));
        match item.get("content") {
            Some(Json::Array(parts)) => {
                proof {
                    crate::json::lemma_array_view(*parts);
                }
                append(messages, make_message(role, translate_content(parts)));
            },
            Some(Json::Str(t)) => {
                append(messages, make_message(role, Json::string(t.as_str())));
            },
            _ => {},
        }
    } else if same(kind, "function_call_output") {
        let mut e = new_entries();
        put(&mut e, "role", Json::string("tool"));
        put(&mut e, "tool_call_id", item.get_or("call_id", Json::Null));
        put(&mut e, "content", item.get_or("output", Json::string("")));
        assert(entry_views(e@) =~= item_message(item@)->0->Object_0);
        append(messages, Json::object(e));
    } else if kind.is_empty() {
        match item.get_str("role") {
            Some(role) => {
                append(messages, make_message(cc_role(role), item.get_or("content", Json::Null)));
            },
            None => {},
        }
    }
    assert(views(messages@) =~= before + (match item_message(item@) {
        Some(m) => seq![m],
        None => Seq::empty(),
    }));
}

/// The tool choice upstream.
pub fn translate_tool_choice(v: &Json) -> (r: Json)
    ensures
        r@ == tool_choice_of(v@),
{
    proof {
        lemma_empty_text();
    }
    match v {
        Json::Str(t) => Json::string(t.as_str()),
        Json::Object(_) => {
            if same(get_str_or(v, "type", ""), "function") {
                let mut inner = new_entries();
                put(&mut inner, "name", v.get_or("name", Json::Null));
                let mut e = new_entries();
                put(&mut e, "type", Json::string("function"));
                put(&mut e, "function", Json::object(inner));
                assert(entry_views(e@) =~= tool_choice_of(v@)->Object_0);
                Json::object(e)
            } else {
                Json::string("auto")
            }
        },
        _ => Json::string("auto"),
    }
}

/// The function-tool descriptor for a declared tool, if it is a function.
pub fn translate_tool(tool: &Json) -> (r: Option<Json>)
    ensures
        match r {
            Some(t) => tool_descriptor(tool@) == Some(t@),
            None => tool_descriptor(tool@) is None,
        },
{
    proof {
        lemma_empty_text();
    }
    if same(get_str_or(tool, "type", ""), "function") {
        let mut inner = new_entries();
        put(&mut inner, "name", tool.get_or("name", Json::Null));
        put(&mut inner, "description", tool.get_or("description", Json::Null));
        put(&mut inner, "parameters", tool.get_or("parameters", Json::object(new_entries())));
        put(&mut inner, "strict", tool.get_or("strict", Json::Null));
        assert(entry_views(inner@) =~= function_of(tool@)->Object_0);
        let mut e = new_entries();
        put(&mut e, "type", Json::string("function"));
        put(&mut e, "function", Json::object(inner));
        assert(entry_views(e@) =~= tool_descriptor(tool@)->0->Object_0);
        Some(Json::object(e))
    } else {
        None
    }
}

/// The response format upstream for the request's `text.format`.
pub fn translate_format(format: &Json) -> (r: Option<Json>)
    ensures
        match r {
            Some(f) => format_of(format@) == Some(f@),
            None => format_of(format@) is None,
        },
{
    let kind = get_str_or(format, "type", "text");
    if same(kind, "json_object") {
        let mut e = new_entries();
        put(&mut e, "type", Json::string("json_object"));
        assert(entry_views(e@) =~= format_of(format@)->0->Object_0);
        Some(Json::object(e))
    } else if same(kind, "json_schema") {
        let mut inner = new_entries();
        put(&mut inner, "name", format.get_or("name", Json::string("response")));
        put(&mut inner, "schema", format.get_or("schema", Json::object(new_entries())));
        put(&mut inner, "strict", format.get_or("strict", Json::Bool(true)));
        assert(entry_views(inner@) =~= schema_of(format@)->Object_0);
        let mut e = new_entries();
        put(&mut e, "type", Json::string("json_schema"));
        put(&mut e, "json_schema", Json::object(inner));
        assert(entry_views(e@) =~= format_of(format@)->0->Object_0);
        Some(Json::object(e))
    } else {
        None
    }
}

/// Appends the entry `to: v` where the body has a member `from`.
fn copy_member(e: &mut Vec<(String, Json)>, body: &Json, from: &str, to: &str)
    ensures
        entry_views(final(e)@) == entry_views(old(e)@) + copied(body@, from@, to@),
{
    let ghost before = entry_views(e@);
    match body.get(from) {
        Some(v) => {
            put(e, to, v.deep_clone());
        },
        None => {},
    }
    assert(entry_views(e@) =~= before + copied(body@, from@, to@));
}

/// The messages sent upstream.
fn build_messages(body: &Json) -> (r: Vec<Json>)
    ensures
        views(r@) == messages_of(body@),
{
    let mut messages = new_items();
    match body.get_str("instructions") {
        Some(t) => {
            append(&mut messages, make_message("developer", Json::string(t)));
        },
        None => {},
    }
    let ghost first = views(messages@);
    match body.get("input") {
        Some(Json::Str(t)) => {
            append(&mut messages, make_message("user", Json::string(t.as_str())));
        },
        Some(Json::Array(items)) => {
            proof {
                crate::json::lemma_array_view(*items);
            }
            let ghost all = views(items@);
            let mut i: usize = 0;
            while i < items.len()
                invariant
                    i <= items.len(),
                    all == views(items@),
                    first + messages_from(all, 0) == views(messages@) + messages_from(
                        all,
                        i as int,
                    ),
                decreases items.len() - i,
            {
                let ghost before = views(messages@);
                translate_input_item(&items[i], &mut messages);
                assert(before + messages_from(all, i as int) =~= views(messages@)
                    + messages_from(all, i + 1));
                i += 1;
            }
            assert(views(messages@) =~= first + messages_from(all, 0));
        },
        _ => {},
    }
    assert(views(messages@) =~= messages_of(body@));
    messages
}

/// The descriptors of the declared function tools.
fn build_tools(body: &Json) -> (r: Vec<Json>)
    ensures
        views(r@) == tools_of(body@),
{
    let mut out = new_items();
    match body.get("tools") {
        Some(Json::Array(tools)) => {
            proof {
                crate::json::lemma_array_view(*tools);
            }
            let ghost all = views(tools@);
            let mut i: usize = 0;
            while i < tools.len()
                invariant
                    i <= tools.len(),
                    all == views(tools@),
                    tools_from(all, 0) == views(out@) + tools_from(all, i as int),
                decreases tools.len() - i,
            {
                let ghost before = views(out@);
                match translate_tool(&tools[i]) {
                    Some(t) => {
                        append(&mut out, t);
                    },
                    None => {},
                }
                assert(before + tools_from(all, i as int) =~= views(out@) + tools_from(
                    all,
                    i + 1,
                ));
                i += 1;
            }
            assert(views(out@) =~= tools_from(all, 0));
        },
        _ => {},
    }
    out
}

/// Appends the entry for the tools where a function tool is declared.
fn put_tools(e: &mut Vec<(String, Json)>, body: &Json)
    ensures
        entry_views(final(e)@) == entry_views(old(e)@) + tools_entry(body@),
{
    let ghost before = entry_views(e@);
    let tools = build_tools(body);
    if tools.len() > 0 {
        put(e, "tools", Json::array(tools));
    }
    assert(entry_views(e@) =~= before + tools_entry(body@));
}

/// Appends the entry for the tool choice where the request names one.
fn put_choice(e: &mut Vec<(String, Json)>, body: &Json)
    ensures
        entry_views(final(e)@) == entry_views(old(e)@) + choice_entry(body@),
{
    let ghost before = entry_views(e@);
    match body.get("tool_choice") {
        Some(v) => {
            put(e, "tool_choice", translate_tool_choice(v));
        },
        None => {},
    }
    assert(entry_views(e@) =~= before + choice_entry(body@));
}

/// Appends the entry for the response format where the request asks for
/// one.
fn put_format(e: &mut Vec<(String, Json)>, body: &Json)
    ensures
        entry_views(final(e)@) == entry_views(old(e)@) + format_entry(body@),
{
    let ghost before = entry_views(e@);
    match body.get("text") {
        Some(text) => match text.get("format") {
            Some(format) => match translate_format(format) {
                Some(f) => {
                    put(e, "response_format", f);
                },
                None => {},
            },
            None => {},
        },
        None => {},
    }
    assert(entry_views(e@) =~= before + format_entry(body@));
}

/// Appends the entry for the stream flag where the request asks for a
/// stream.
fn put_stream(e: &mut Vec<(String, Json)>, body: &Json)
    ensures
        entry_views(final(e)@) == entry_views(old(e)@) + stream_entry(body@),
{
    let ghost before = entry_views(e@);
    if wants_streaming(body) {
        put(e, "stream", Json::Bool(true));
    }
    assert(entry_views(e@) =~= before + stream_entry(body@));
}

/// The Chat Completions request for a Responses request and its model.
fn build_chat_body(body: &Json, model: &str) -> (r: Json)
    ensures
        r@ == chat_body(body@, model@),
{
    let mut e = new_entries();
    put(&mut e, "model", Json::string(model));
    put(&mut e, "messages", Json::array(build_messages(body)));
    assert(entry_views(e@) == seq![
        ("model"@, JsonV::Str(model@)),
        ("messages"@, JsonV::Array(messages_of(body@))),
    ]);
    put_tools(&mut e, body);
    copy_member(&mut e, body, "temperature", "temperature");
    copy_member(&mut e, body, "top_p", "top_p");
    copy_member(&mut e, body, "max_output_tokens", "max_tokens");
    put_choice(&mut e, body);
    copy_member(&mut e, body, "parallel_tool_calls", "parallel_tool_calls");
    put_format(&mut e, body);
    put_stream(&mut e, body);
    Json::object(e)
}

/// Whether the request asks for a stream.
pub fn wants_streaming(body: &Json) -> (r: bool)
    ensures
        r == wants_stream(body@),
{
    match body.get("stream") {
        Some(Json::Bool(b)) => *b,
        _ => false,
    }
}

/// Translates a Responses request whose response gets an identifier minted
/// at the time `millis`. Fails, and mints nothing, where the request names
/// no model as a string.
pub fn translate_request_at(body: &Json, ids: &mut IdMinter, millis: u128) -> (r: Result<
    TranslatedRequest,
    String,
>)
    ensures
        match r {
            Ok(t) => translated(
                body@,
                id_text("resp"@, millis as nat, old(ids).counter as nat),
            ) == Some(t@) && final(ids).counter == next_counter(old(ids).counter),
            Err(e) => body@.get_str("model"@) is None && e@ == "missing `model`"@ && final(ids).counter == old(ids).counter,
        },
{
    let model = match body.get_str("model") {
        Some(m) => m,
        None => {
            return Err("missing `model`".to_owned());
        },
    };
    let cc_body = build_chat_body(body, model);
    let resp_id = ids.next_id_at("resp", millis);
    Ok(
        TranslatedRequest {
            cc_body,
            resp_id,
            model: model.to_owned(),
            tools_echo: body.get_or("tools", Json::array(new_items())),
            instructions: body.get_or("instructions", Json::Null),
            temperature: body.get_or("temperature", Json::Unsigned(1)),
            top_p: body.get_or("top_p", Json::Unsigned(1)),
            tool_choice: body.get_or("tool_choice", Json::string("auto")),
            parallel_tool_calls: body.get_or("parallel_tool_calls", Json::Bool(true)),
            is_stream: wants_streaming(body),
        },
    )
}

/// Translates a Responses request; the identifier of its response is
/// minted at the time the system clock shows.
pub fn translate_request(body: &Json, ids: &mut IdMinter) -> (r: Result<TranslatedRequest, String>)
    ensures
        match r {
            Ok(t) => (exists|millis: nat|
                translated(body@, #[trigger] id_text("resp"@, millis, old(ids).counter as nat))
                    == Some(t@)) && final(ids).counter == next_counter(old(ids).counter),
            Err(e) => body@.get_str("model"@) is None && e@ == "missing `model`"@ && final(ids).counter == old(ids).counter,
        },
{
    let millis = now_millis();
    translate_request_at(body, ids, millis)
}

/// Translates a Responses request for the model `model_id`, to which the
/// entry point resolved the model it names: the identifier takes the place
/// of the request's member `model`.
pub fn translate_for_model_at(body: Json, model_id: &str, ids: &mut IdMinter, millis: u128) -> (r:
    TranslatedRequest)
    requires
        body@ is Object || body@ is Null,
    ensures
        translated(
            body@.with_member("model"@, JsonV::Str(model_id@)),
            id_text("resp"@, millis as nat, old(ids).counter as nat),
        ) == Some(r@),
        r@.model == model_id@,
        final(ids).counter == next_counter(old(ids).counter),
{
    proof {
        crate::json::lemma_with_member(body@, "model"@, JsonV::Str(model_id@));
    }
    let named = body.with_member("model", Json::string(model_id));
    match translate_request_at(&named, ids, millis) {
        Ok(t) => t,
        Err(_) => vstd::pervasive::unreached(),
    }
}

} // verus!
