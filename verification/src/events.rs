//! The lifecycle events of a streamed response: their fields, their JSON
//! layout and the frame that carries each on the wire.

use crate::codec::{json_text, render};
use crate::json::{entry_views, put, Json, JsonV};
use crate::shape::{
    item_json, new_entries, response_json, text_part, text_part_json, OutputItem, OutputItemV,
    ResponseObject, ResponseV, Status,
};
use vstd::prelude::*;
use vstd::string::StringExecFns;

verus! {

/// One lifecycle event, as a mathematical value. `seq` is its sequence
/// number.
pub enum StreamEventV {
    /// `response.created`
    Created { seq: int, response: ResponseV },
    /// `response.in_progress`
    InProgress { seq: int, response: ResponseV },
    /// `response.output_item.added`
    ItemAdded { seq: int, output_index: int, item: OutputItemV },
    /// `response.content_part.added`, for the empty text part of the message
    PartAdded { seq: int, item_id: Seq<char> },
    /// `response.output_text.delta`
    TextDelta { seq: int, item_id: Seq<char>, delta: Seq<char> },
    /// `response.function_call_arguments.delta`
    ArgumentsDelta { seq: int, item_id: Seq<char>, output_index: int, delta: Seq<char> },
    /// `response.output_text.done`
    TextDone { seq: int, item_id: Seq<char>, text: Seq<char> },
    /// `response.content_part.done`
    PartDone { seq: int, item_id: Seq<char>, text: Seq<char> },
    /// `response.function_call_arguments.done`
    ArgumentsDone {
        seq: int,
        item_id: Seq<char>,
        output_index: int,
        name: Seq<char>,
        arguments: Seq<char>,
    },
    /// `response.output_item.done`
    ItemDone { seq: int, output_index: int, item: OutputItemV },
    /// `response.completed`, or `response.incomplete` for an incomplete
    /// response
    Finished { seq: int, response: ResponseV },
}

/// One lifecycle event.
#[derive(Debug, PartialEq, Eq)]
pub enum StreamEvent {
    Created { seq: u64, response: ResponseObject },
    InProgress { seq: u64, response: ResponseObject },
    ItemAdded { seq: u64, output_index: u64, item: OutputItem },
    PartAdded { seq: u64, item_id: String },
    TextDelta { seq: u64, item_id: String, delta: String },
    ArgumentsDelta { seq: u64, item_id: String, output_index: u64, delta: String },
    TextDone { seq: u64, item_id: String, text: String },
    PartDone { seq: u64, item_id: String, text: String },
    ArgumentsDone { seq: u64, item_id: String, output_index: u64, name: String, arguments: String },
    ItemDone { seq: u64, output_index: u64, item: OutputItem },
    Finished { seq: u64, response: ResponseObject },
}

impl StreamEventV {
    /// The sequence number of the event.
    pub open spec fn seq(self) -> int {
        match self {
            StreamEventV::Created { seq, .. } => seq,
            StreamEventV::InProgress { seq, .. } => seq,
            StreamEventV::ItemAdded { seq, .. } => seq,
            StreamEventV::PartAdded { seq, .. } => seq,
            StreamEventV::TextDelta { seq, .. } => seq,
            StreamEventV::ArgumentsDelta { seq, .. } => seq,
            StreamEventV::TextDone { seq, .. } => seq,
            StreamEventV::PartDone { seq, .. } => seq,
            StreamEventV::ArgumentsDone { seq, .. } => seq,
            StreamEventV::ItemDone { seq, .. } => seq,
            StreamEventV::Finished { seq, .. } => seq,
        }
    }

    /// The type of the event.
    pub open spec fn name(self) -> Seq<char> {
        match self {
            StreamEventV::Created { .. } => "response.created"@,
            StreamEventV::InProgress { .. } => "response.in_progress"@,
            StreamEventV::ItemAdded { .. } => "response.output_item.added"@,
            StreamEventV::PartAdded { .. } => "response.content_part.added"@,
            StreamEventV::TextDelta { .. } => "response.output_text.delta"@,
            StreamEventV::ArgumentsDelta { .. } => "response.function_call_arguments.delta"@,
            StreamEventV::TextDone { .. } => "response.output_text.done"@,
            StreamEventV::PartDone { .. } => "response.content_part.done"@,
            StreamEventV::ArgumentsDone { .. } => "response.function_call_arguments.done"@,
            StreamEventV::ItemDone { .. } => "response.output_item.done"@,
            StreamEventV::Finished { response, .. } => if response.status == Status::Incomplete {
                "response.incomplete"@
            } else {
                "response.completed"@
            },
        }
    }

    /// The members of the event's payload between its type and its
    /// sequence number.
    pub open spec fn body(self) -> Seq<(Seq<char>, JsonV)> {
        match self {
            StreamEventV::Created { response, .. } => seq![("response"@, response_json(response))],
            StreamEventV::InProgress { response, .. } => seq![
                ("response"@, response_json(response)),
            ],
            StreamEventV::ItemAdded { output_index, item, .. } => seq![
                ("output_index"@, JsonV::Int(output_index)),
                ("item"@, item_json(item)),
            ],
            StreamEventV::PartAdded { item_id, .. } => seq![
                ("item_id"@, JsonV::Str(item_id)),
                ("output_index"@, JsonV::Int(0)),
                ("content_index"@, JsonV::Int(0)),
                ("part"@, text_part(Seq::empty())),
            ],
            StreamEventV::TextDelta { item_id, delta, .. } => seq![
                ("item_id"@, JsonV::Str(item_id)),
                ("output_index"@, JsonV::Int(0)),
                ("content_index"@, JsonV::Int(0)),
                ("delta"@, JsonV::Str(delta)),
            ],
            StreamEventV::ArgumentsDelta { item_id, output_index, delta, .. } => seq![
                ("item_id"@, JsonV::Str(item_id)),
                ("output_index"@, JsonV::Int(output_index)),
                ("delta"@, JsonV::Str(delta)),
            ],
            StreamEventV::TextDone { item_id, text, .. } => seq![
                ("item_id"@, JsonV::Str(item_id)),
                ("output_index"@, JsonV::Int(0)),
                ("content_index"@, JsonV::Int(0)),
                ("text"@, JsonV::Str(text)),
            ],
            StreamEventV::PartDone { item_id, text, .. } => seq![
                ("item_id"@, JsonV::Str(item_id)),
                ("output_index"@, JsonV::Int(0)),
                ("content_index"@, JsonV::Int(0)),
                ("part"@, text_part(text)),
            ],
            StreamEventV::ArgumentsDone { item_id, output_index, name, arguments, .. } => seq![
                ("item_id"@, JsonV::Str(item_id)),
                ("output_index"@, JsonV::Int(output_index)),
                ("name"@, JsonV::Str(name)),
                ("arguments"@, JsonV::Str(arguments)),
            ],
            StreamEventV::ItemDone { output_index, item, .. } => seq![
                ("output_index"@, JsonV::Int(output_index)),
                ("item"@, item_json(item)),
            ],
            StreamEventV::Finished { response, .. } => seq![("response"@, response_json(response))],
        }
    }

    /// The payload of the event: its type, its own members, and its
    /// sequence number last.
    pub open spec fn payload(self) -> JsonV {
        JsonV::Object(
            seq![("type"@, JsonV::Str(self.name()))] + self.body() + seq![
                ("sequence_number"@, JsonV::Int(self.seq())),
            ],
        )
    }

    /// The frame that carries the event: a line with its type, a line with
    /// its payload as JSON, and an empty line.
    pub open spec fn frame(self) -> Seq<char> {
        "event: "@ + self.name() + "\ndata: "@ + json_text(self.payload()) + "\n\n"@
    }
}

/// The views of a run of events.
pub open spec fn event_views(events: Seq<StreamEvent>) -> Seq<StreamEventV> {
    Seq::new(events.len(), |i: int| events[i]@)
}

/// Appends an event to a run of events.
pub fn emit(out: &mut Vec<StreamEvent>, event: StreamEvent)
    ensures
        event_views(final(out)@) == event_views(old(out)@).push(event@),
        event_views(final(out)@) == event_views(old(out)@) + seq![event@],
{
    out.push(event);
    assert(event_views(out@) =~= event_views(old(out)@).push(event@));
    assert(event_views(out@) =~= event_views(old(out)@) + seq![event@]);
}

/// No events yet.
pub fn no_events() -> (r: Vec<StreamEvent>)
    ensures
        event_views(r@) == Seq::<StreamEventV>::empty(),
{
    let r: Vec<StreamEvent> = Vec::new();
    assert(event_views(r@) =~= Seq::<StreamEventV>::empty());
    r
}

impl StreamEvent {
    /// The mathematical value.
    pub open spec fn view(&self) -> StreamEventV {
        match self {
            StreamEvent::Created { seq, response } => StreamEventV::Created {
                seq: *seq as int,
                response: response@,
            },
            StreamEvent::InProgress { seq, response } => StreamEventV::InProgress {
                seq: *seq as int,
                response: response@,
            },
            StreamEvent::ItemAdded { seq, output_index, item } => StreamEventV::ItemAdded {
                seq: *seq as int,
                output_index: *output_index as int,
                item: item@,
            },
            StreamEvent::PartAdded { seq, item_id } => StreamEventV::PartAdded {
                seq: *seq as int,
                item_id: item_id@,
            },
            StreamEvent::TextDelta { seq, item_id, delta } => StreamEventV::TextDelta {
                seq: *seq as int,
                item_id: item_id@,
                delta: delta@,
            },
            StreamEvent::ArgumentsDelta { seq, item_id, output_index, delta } => {
                StreamEventV::ArgumentsDelta {
                    seq: *seq as int,
                    item_id: item_id@,
                    output_index: *output_index as int,
                    delta: delta@,
                }
            },
            StreamEvent::TextDone { seq, item_id, text } => StreamEventV::TextDone {
                seq: *seq as int,
                item_id: item_id@,
                text: text@,
            },
            StreamEvent::PartDone { seq, item_id, text } => StreamEventV::PartDone {
                seq: *seq as int,
                item_id: item_id@,
                text: text@,
            },
            StreamEvent::ArgumentsDone { seq, item_id, output_index, name, arguments } => {
                StreamEventV::ArgumentsDone {
                    seq: *seq as int,
                    item_id: item_id@,
                    output_index: *output_index as int,
                    name: name@,
                    arguments: arguments@,
                }
            },
            StreamEvent::ItemDone { seq, output_index, item } => StreamEventV::ItemDone {
                seq: *seq as int,
                output_index: *output_index as int,
                item: item@,
            },
            StreamEvent::Finished { seq, response } => StreamEventV::Finished {
                seq: *seq as int,
                response: response@,
            },
        }
    }

    /// The sequence number of the event.
    pub fn sequence_number(&self) -> (r: u64)
        ensures
            r as int == self@.seq(),
    {
        match self {
            StreamEvent::Created { seq, .. } => *seq,
            StreamEvent::InProgress { seq, .. } => *seq,
            StreamEvent::ItemAdded { seq, .. } => *seq,
            StreamEvent::PartAdded { seq, .. } => *seq,
            StreamEvent::TextDelta { seq, .. } => *seq,
            StreamEvent::ArgumentsDelta { seq, .. } => *seq,
            StreamEvent::TextDone { seq, .. } => *seq,
            StreamEvent::PartDone { seq, .. } => *seq,
            StreamEvent::ArgumentsDone { seq, .. } => *seq,
            StreamEvent::ItemDone { seq, .. } => *seq,
            StreamEvent::Finished { seq, .. } => *seq,
        }
    }

    /// The type of the event.
    pub fn name(&self) -> (r: &'static str)
        ensures
            r@ == self@.name(),
    {
        match self {
            StreamEvent::Created { .. } => "response.created",
            StreamEvent::InProgress { .. } => "response.in_progress",
            StreamEvent::ItemAdded { .. } => "response.output_item.added",
            StreamEvent::PartAdded { .. } => "response.content_part.added",
            StreamEvent::TextDelta { .. } => "response.output_text.delta",
            StreamEvent::ArgumentsDelta { .. } => "response.function_call_arguments.delta",
            StreamEvent::TextDone { .. } => "response.output_text.done",
            StreamEvent::PartDone { .. } => "response.content_part.done",
            StreamEvent::ArgumentsDone { .. } => "response.function_call_arguments.done",
            StreamEvent::ItemDone { .. } => "response.output_item.done",
            StreamEvent::Finished { response, .. } => match response.status {
                Status::Incomplete => "response.incomplete",
                _ => "response.completed",
            },
        }
    }

    /// Appends the event's own members to a payload under construction.
    fn put_body(&self, e: &mut Vec<(String, Json)>)
        ensures
            entry_views(final(e)@) == entry_views(old(e)@) + self@.body(),
    {
        let ghost before = entry_views(e@);
        match self {
            StreamEvent::Created { response, .. } => {
                put(e, "response", response.to_json());
            },
            StreamEvent::InProgress { response, .. } => {
                put(e, "response", response.to_json());
            },
            StreamEvent::ItemAdded { output_index, item, .. } => {
                put(e, "output_index", Json::Unsigned(*output_index));
                put(e, "item", item.to_json());
            },
            StreamEvent::PartAdded { item_id, .. } => {
                proof {
                    crate::text::lemma_empty_text();
                }
                put(e, "item_id", Json::string(item_id.as_str()));
                put(e, "output_index", Json::Unsigned(0));
                put(e, "content_index", Json::Unsigned(0));
                put(e, "part", text_part_json(""));
            },
            StreamEvent::TextDelta { item_id, delta, .. } => {
                put(e, "item_id", Json::string(item_id.as_str()));
                put(e, "output_index", Json::Unsigned(0));
                put(e, "content_index", Json::Unsigned(0));
                put(e, "delta", Json::string(delta.as_str()));
            },
            StreamEvent::ArgumentsDelta { item_id, output_index, delta, .. } => {
                put(e, "item_id", Json::string(item_id.as_str()));
                put(e, "output_index", Json::Unsigned(*output_index));
                put(e, "delta", Json::string(delta.as_str()));
            },
            StreamEvent::TextDone { item_id, text, .. } => {
                put(e, "item_id", Json::string(item_id.as_str()));
                put(e, "output_index", Json::Unsigned(0));
                put(e, "content_index", Json::Unsigned(0));
                put(e, "text", Json::string(text.as_str()));
            },
            StreamEvent::PartDone { item_id, text, .. } => {
                put(e, "item_id", Json::string(item_id.as_str()));
                put(e, "output_index", Json::Unsigned(0));
                put(e, "content_index", Json::Unsigned(0));
                put(e, "part", text_part_json(text.as_str()));
            },
            StreamEvent::ArgumentsDone { item_id, output_index, name, arguments, .. } => {
                put(e, "item_id", Json::string(item_id.as_str()));
                put(e, "output_index", Json::Unsigned(*output_index));
                put(e, "name", Json::string(name.as_str()));
                put(e, "arguments", Json::string(arguments.as_str()));
            },
            StreamEvent::ItemDone { output_index, item, .. } => {
                put(e, "output_index", Json::Unsigned(*output_index));
                put(e, "item", item.to_json());
            },
            StreamEvent::Finished { response, .. } => {
                put(e, "response", response.to_json());
            },
        }
        assert(entry_views(e@) =~= before + self@.body());
    }

    /// The payload of the event.
    pub fn to_json(&self) -> (r: Json)
        ensures
            r@ == self@.payload(),
    {
        let mut e = new_entries();
        put(&mut e, "type", Json::string(self.name()));
        assert(entry_views(e@) =~= seq![("type"@, JsonV::Str(self@.name()))]);
        self.put_body(&mut e);
        let ghost middle = entry_views(e@);
        put(&mut e, "sequence_number", Json::Unsigned(self.sequence_number()));
        assert(entry_views(e@) =~= middle + seq![("sequence_number"@, JsonV::Int(self@.seq()))]);
        Json::object(e)
    }

    /// The frame that carries the event on the wire.
    pub fn to_frame(&self) -> (r: String)
        ensures
            r@ == self@.frame(),
    {
        let mut out = "event: ".to_owned();
        out.append(self.name());
        out.append("\ndata: ");
        let payload = self.to_json();
        let text = render(&payload);
        out.append(text.as_str());
        out.append("\n\n");
        out
    }
}

} // verus!
