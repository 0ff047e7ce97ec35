use openrouter_api::codec::{parse, render};
use openrouter_api::events::StreamEvent;
use openrouter_api::ids::IdMinter;
use openrouter_api::json::Json;
use openrouter_api::request::translate_request_at;
use openrouter_api::response::translate_response_at;
use openrouter_api::shape::{OutputItem, ResponseObject, Status};
use openrouter_api::stream::StreamState;
use openrouter_api::transitions::Phase;

fn open_call(ids: &mut IdMinter) -> StreamState {
    let req = translate_request_at(&parse(r#"{"model":"m","input":"hi","stream":true}"#).unwrap(), ids, 1).unwrap();
    let mut state = StreamState::new_at(req, ids, 5);
    state.start_at(100);
    state
}

fn frame(payload: &str) -> Vec<u8> {
    format!("data: {}\n\n", payload).into_bytes()
}

fn names(events: &[StreamEvent]) -> Vec<&'static str> {
    events.iter().map(|e| e.name()).collect()
}

fn last_response(events: &[StreamEvent]) -> &ResponseObject {
    match events.last() {
        Some(StreamEvent::Finished { response, .. }) => response,
        other => panic!("no terminal event: {:?}", other),
    }
}

fn keys(value: &Json) -> Vec<String> {
    match value {
        Json::Object(entries) => entries.iter().map(|e| e.0.clone()).collect(),
        other => panic!("no object: {:?}", other),
    }
}

#[test]
fn opening_emits_four_events_in_order() {
    let mut ids = IdMinter::new();
    let req = translate_request_at(&parse(r#"{"model":"m","input":"hi","stream":true}"#).unwrap(), &mut ids, 1).unwrap();
    let mut state = StreamState::new_at(req, &mut ids, 5);
    assert_eq!(state.phase(), Phase::Starting);
    assert_eq!(state.sequence(), 0);
    let events = state.start_at(100);
    assert_eq!(
        names(&events),
        vec!["response.created", "response.in_progress", "response.output_item.added", "response.content_part.added"]
    );
    assert_eq!(events.iter().map(|e| e.sequence_number()).collect::<Vec<u64>>(), vec![1, 2, 3, 4]);
    assert_eq!(state.phase(), Phase::Open);
    assert_eq!(state.sequence(), 4);
    match &events[0] {
        StreamEvent::Created { response, .. } => {
            assert_eq!(response.id, "resp_10001");
            assert_eq!(response.status, Status::InProgress);
            assert_eq!(response.created_at, 100);
            assert_eq!(response.completed_at, None);
            assert!(response.with_limit);
            assert!(response.output.is_empty());
            assert_eq!(response.usage, None);
            assert_eq!(response.model, "m");
        }
        other => panic!("unexpected event {:?}", other),
    }
    assert_eq!(
        events[2],
        StreamEvent::ItemAdded {
            seq: 3,
            output_index: 0,
            item: OutputItem::Message { id: "msg_50002".to_string(), status: Status::InProgress, text: None },
        }
    );
    assert_eq!(events[3], StreamEvent::PartAdded { seq: 4, item_id: "msg_50002".to_string() });
}

#[test]
fn opening_events_have_their_wire_layout() {
    let mut ids = IdMinter::new();
    let req = translate_request_at(&parse(r#"{"model":"m","input":"hi","stream":true}"#).unwrap(), &mut ids, 1).unwrap();
    let mut state = StreamState::new_at(req, &mut ids, 5);
    let events = state.start_at(100);
    assert_eq!(
        events[0].to_frame(),
        [
            "event: response.created\ndata: ",
            r#"{"response":{"completed_at":null,"created_at":100,"error":null,"id":"resp_10001","incomplete_details":null,"#,
            r#""instructions":null,"max_output_tokens":null,"metadata":{},"model":"m","object":"response","output":[],"#,
            r#""parallel_tool_calls":true,"previous_response_id":null,"status":"in_progress","temperature":1,"#,
            r#""text":{"format":{"type":"text"}},"tool_choice":"auto","tools":[],"top_p":1,"truncation":"disabled","usage":null},"#,
            r#""sequence_number":1,"type":"response.created"}"#,
            "\n\n",
        ]
        .concat()
    );
    assert_eq!(
        events[2].to_frame(),
        [
            "event: response.output_item.added\ndata: ",
            r#"{"item":{"content":[],"id":"msg_50002","role":"assistant","status":"in_progress","type":"message"},"output_index":0,"sequence_number":3,"type":"response.output_item.added"}"#,
            "\n\n",
        ]
        .concat()
    );
    assert_eq!(
        render(&events[3].to_json()),
        r#"{"content_index":0,"item_id":"msg_50002","output_index":0,"part":{"annotations":[],"text":"","type":"output_text"},"sequence_number":4,"type":"response.content_part.added"}"#
    );
    assert_eq!(keys(&events[3].to_json()).first().map(|k| k.as_str()), Some("type"));
    assert_eq!(keys(&events[3].to_json()).last().map(|k| k.as_str()), Some("sequence_number"));
}

#[test]
fn text_fragments_stream_at_once_and_close_at_the_end() {
    let mut ids = IdMinter::new();
    let mut state = open_call(&mut ids);
    let first = state.feed_at(&frame(r#"{"choices":[{"delta":{"content":"Hel"}}]}"#), &mut ids, 6);
    assert_eq!(first, vec![StreamEvent::TextDelta { seq: 5, item_id: "msg_50002".to_string(), delta: "Hel".to_string() }]);
    let second = state.feed_at(&frame(r#"{"choices":[{"delta":{"content":""}},{"delta":{"content":"lo"},"finish_reason":"stop"}]}"#), &mut ids, 6);
    assert_eq!(second, vec![StreamEvent::TextDelta { seq: 6, item_id: "msg_50002".to_string(), delta: "lo".to_string() }]);
    assert_eq!(state.text(), "Hello");
    assert_eq!(
        render(&second[0].to_json()),
        r#"{"content_index":0,"delta":"lo","item_id":"msg_50002","output_index":0,"sequence_number":6,"type":"response.output_text.delta"}"#
    );
    let end = state.finish_at(200);
    assert_eq!(
        names(&end),
        vec!["response.output_text.done", "response.content_part.done", "response.output_item.done", "response.completed"]
    );
    assert_eq!(end[0], StreamEvent::TextDone { seq: 7, item_id: "msg_50002".to_string(), text: "Hello".to_string() });
    assert_eq!(end[1], StreamEvent::PartDone { seq: 8, item_id: "msg_50002".to_string(), text: "Hello".to_string() });
    let message = OutputItem::Message { id: "msg_50002".to_string(), status: Status::Completed, text: Some("Hello".to_string()) };
    assert_eq!(end[2], StreamEvent::ItemDone { seq: 9, output_index: 0, item: message.deep_clone() });
    let response = last_response(&end);
    assert_eq!(response.output, vec![message]);
    assert_eq!(response.status, Status::Completed);
    assert_eq!(response.created_at, 200);
    assert_eq!(response.completed_at, Some(200));
    assert!(!response.with_limit);
    assert_eq!(end[3].sequence_number(), 10);
    assert_eq!(state.phase(), Phase::Closed);
    assert_eq!(ids.counter, 3);
}

#[test]
fn tool_call_in_three_fragments_is_announced_once() {
    let mut ids = IdMinter::new();
    let mut state = open_call(&mut ids);
    let mut events = Vec::new();
    events.extend(state.feed_at(
        &frame(r#"{"choices":[{"delta":{"tool_calls":[{"index":0,"id":"call_1","function":{"name":"f","arguments":"{\"a\""}}]}}]}"#),
        &mut ids,
        6,
    ));
    events.extend(state.feed_at(&frame(r#"{"choices":[{"delta":{"tool_calls":[{"index":0,"function":{"arguments":":1"}}]}}]}"#), &mut ids, 7));
    events.extend(state.feed_at(&frame(r#"{"choices":[{"delta":{"tool_calls":[{"index":0,"function":{"arguments":"}"}}]}}]}"#), &mut ids, 8));
    assert_eq!(
        names(&events),
        vec![
            "response.output_item.added",
            "response.function_call_arguments.delta",
            "response.function_call_arguments.delta",
            "response.function_call_arguments.delta"
        ]
    );
    assert_eq!(
        events[0],
        StreamEvent::ItemAdded {
            seq: 5,
            output_index: 1,
            item: OutputItem::FunctionCall {
                id: "fc_60003".to_string(),
                status: Status::InProgress,
                call_id: Json::Str("call_1".to_string()),
                name: Json::Str("f".to_string()),
                arguments: Json::Str(String::new()),
            },
        }
    );
    let mut joined = String::new();
    for e in &events {
        if let StreamEvent::ArgumentsDelta { item_id, output_index, delta, .. } = e {
            assert_eq!(item_id, "fc_60003");
            assert_eq!(*output_index, 1);
            joined.push_str(delta);
        }
    }
    assert_eq!(joined, r#"{"a":1}"#);
    let end = state.finish_at(200);
    assert_eq!(
        names(&end),
        vec![
            "response.content_part.done",
            "response.function_call_arguments.done",
            "response.output_item.done",
            "response.completed"
        ]
    );
    assert_eq!(
        end[1],
        StreamEvent::ArgumentsDone {
            seq: 10,
            item_id: "fc_60003".to_string(),
            output_index: 1,
            name: "f".to_string(),
            arguments: r#"{"a":1}"#.to_string(),
        }
    );
    let done = OutputItem::FunctionCall {
        id: "fc_60003".to_string(),
        status: Status::Completed,
        call_id: Json::Str("call_1".to_string()),
        name: Json::Str("f".to_string()),
        arguments: Json::Str(r#"{"a":1}"#.to_string()),
    };
    assert_eq!(end[2], StreamEvent::ItemDone { seq: 11, output_index: 1, item: done.deep_clone() });
    assert_eq!(last_response(&end).output, vec![done]);
    let added = events.iter().chain(end.iter()).filter(|e| matches!(e, StreamEvent::ItemAdded { output_index: 1, .. })).count();
    assert_eq!(added, 1);
}

#[test]
fn empty_turn_with_one_tool_call_has_no_message_item() {
    let mut ids = IdMinter::new();
    let mut state = open_call(&mut ids);
    state.feed_at(
        &frame(r#"{"choices":[{"delta":{"tool_calls":[{"index":0,"id":"c","function":{"name":"f","arguments":"{}"}}]},"finish_reason":"tool_calls"}]}"#),
        &mut ids,
        6,
    );
    let end = state.finish_at(200);
    assert!(!names(&end).contains(&"response.output_text.done"));
    assert_eq!(end[0], StreamEvent::PartDone { seq: 7, item_id: "msg_50002".to_string(), text: String::new() });
    assert_eq!(
        render(&end[0].to_json()),
        r#"{"content_index":0,"item_id":"msg_50002","output_index":0,"part":{"annotations":[],"text":"","type":"output_text"},"sequence_number":7,"type":"response.content_part.done"}"#
    );
    let output = &last_response(&end).output;
    assert_eq!(output.len(), 1);
    assert!(matches!(output[0], OutputItem::FunctionCall { .. }));
    assert!(!end.iter().any(|e| matches!(e, StreamEvent::ItemDone { output_index: 0, .. })));
}

#[test]
fn empty_turn_without_tool_calls_still_finishes_the_message() {
    let mut ids = IdMinter::new();
    let mut state = open_call(&mut ids);
    let end = state.finish_at(200);
    assert_eq!(names(&end), vec!["response.output_item.done", "response.completed"]);
    let message = OutputItem::Message { id: "msg_50002".to_string(), status: Status::Completed, text: Some(String::new()) };
    assert_eq!(end[0], StreamEvent::ItemDone { seq: 5, output_index: 0, item: message.deep_clone() });
    assert_eq!(last_response(&end).output, vec![message]);
    assert_eq!(end[1].sequence_number(), 6);
}

#[test]
fn length_makes_the_response_incomplete() {
    let mut ids = IdMinter::new();
    let mut state = open_call(&mut ids);
    state.feed_at(&frame(r#"{"choices":[{"delta":{"content":"cut"},"finish_reason":"length"}]}"#), &mut ids, 6);
    assert_eq!(state.finish_reason(), "length");
    let end = state.finish_at(200);
    assert_eq!(end.last().unwrap().name(), "response.incomplete");
    let response = last_response(&end);
    assert_eq!(response.status, Status::Incomplete);
    assert!(matches!(response.output[0], OutputItem::Message { status: Status::Incomplete, .. }));
    let json = response.to_json();
    assert_eq!(json.get_str("status"), Some("incomplete"));
    assert_eq!(render(json.get("incomplete_details").unwrap()), r#"{"reason":"max_output_tokens"}"#);
    assert!(end.last().unwrap().to_frame().starts_with("event: response.incomplete\ndata: {"));
}

#[test]
fn last_finish_reason_wins() {
    let mut ids = IdMinter::new();
    let mut state = open_call(&mut ids);
    assert_eq!(state.finish_reason(), "stop");
    state.feed_at(&frame(r#"{"choices":[{"finish_reason":"length"},{"finish_reason":null},{"finish_reason":"stop"}]}"#), &mut ids, 6);
    assert_eq!(state.finish_reason(), "stop");
    let end = state.finish_at(1);
    assert_eq!(end.last().unwrap().name(), "response.completed");
}

#[test]
fn usage_is_the_last_one_reported() {
    let mut ids = IdMinter::new();
    let mut state = open_call(&mut ids);
    state.feed_at(&frame(r#"{"usage":{"prompt_tokens":3,"completion_tokens":4,"total_tokens":7}}"#), &mut ids, 6);
    state.feed_at(&frame(r#"{"choices":[],"usage":{"prompt_tokens":5,"completion_tokens":"x"}}"#), &mut ids, 6);
    state.feed_at(&frame(r#"{"choices":[],"usage":null}"#), &mut ids, 6);
    let end = state.finish_at(1);
    assert_eq!(
        render(last_response(&end).to_json().get("usage").unwrap()),
        r#"{"input_tokens":5,"output_tokens":4,"output_tokens_details":{"reasoning_tokens":0},"total_tokens":7}"#
    );
}

#[test]
fn usage_is_zero_where_upstream_reports_none() {
    let mut ids = IdMinter::new();
    let mut state = open_call(&mut ids);
    let end = state.finish_at(1);
    assert_eq!(
        render(last_response(&end).to_json().get("usage").unwrap()),
        r#"{"input_tokens":0,"output_tokens":0,"output_tokens_details":{"reasoning_tokens":0},"total_tokens":0}"#
    );
}

#[test]
fn frames_may_be_cut_anywhere() {
    let mut ids = IdMinter::new();
    let mut state = open_call(&mut ids);
    let whole = frame(r#"{"choices":[{"delta":{"content":"héllo"}}]}"#);
    let mut events = Vec::new();
    for cut in whole.chunks(7) {
        if std::str::from_utf8(cut).is_ok() {
            events.extend(state.feed_at(cut, &mut ids, 6));
        } else {
            events.extend(state.feed_text_at(&String::from_utf8_lossy(cut), &mut ids, 6));
        }
    }
    assert_eq!(events.len(), 1);
    let mut other_ids = IdMinter::new();
    let mut other = open_call(&mut other_ids);
    let mut seen = Vec::new();
    let text = "data: {\"choices\":[{\"delta\":{\"content\":\"héllo\"}}]}\n\n";
    for c in text.chars() {
        seen.extend(other.feed_text_at(&c.to_string(), &mut other_ids, 6));
    }
    assert_eq!(seen, vec![StreamEvent::TextDelta { seq: 5, item_id: "msg_50002".to_string(), delta: "héllo".to_string() }]);
}

#[test]
fn several_frames_may_come_in_one_chunk() {
    let mut ids = IdMinter::new();
    let mut state = open_call(&mut ids);
    let chunk = "event: x\ndata: {\"choices\":[{\"delta\":{\"content\":\"a\"}}]}\n\n: ping\n\ndata: not json\n\ndata: [DONE]\n\n  data: {\"choices\":[{\"delta\":{\"content\":\"b\"}}]}  \ndata: {\"choices\":[{\"delta\":{\"content\":\"c\"}}]}\n\ndata: {\"choi";
    let events = state.feed_at(chunk.as_bytes(), &mut ids, 6);
    let deltas: Vec<String> = events
        .iter()
        .map(|e| match e {
            StreamEvent::TextDelta { delta, .. } => delta.clone(),
            other => panic!("unexpected event {:?}", other),
        })
        .collect();
    assert_eq!(deltas, vec!["a", "b", "c"]);
    assert_eq!(state.text(), "abc");
    let more = state.feed_at(b"ces\":[{\"delta\":{\"content\":\"d\"}}]}\n\n", &mut ids, 6);
    assert_eq!(more.len(), 1);
    assert_eq!(state.text(), "abcd");
}

#[test]
fn bytes_that_are_no_text_are_replaced() {
    let mut ids = IdMinter::new();
    let mut state = open_call(&mut ids);
    let mut chunk = b"data: {\"choices\":[{\"delta\":{\"content\":\"a".to_vec();
    chunk.push(0xff);
    chunk.extend_from_slice(b"b\"}}]}\n\n");
    let events = state.feed_at(&chunk, &mut ids, 6);
    assert_eq!(events, vec![StreamEvent::TextDelta { seq: 5, item_id: "msg_50002".to_string(), delta: "a\u{fffd}b".to_string() }]);
}

#[test]
fn tool_calls_end_in_ascending_order_of_their_index() {
    let mut ids = IdMinter::new();
    let mut state = open_call(&mut ids);
    let events = state.feed_at(
        &frame(r#"{"choices":[{"delta":{"tool_calls":[{"index":2,"id":"c2","function":{"name":"two","arguments":"2"}},{"index":0,"id":"c0","function":{"name":"zero","arguments":"0"}},{"index":2,"function":{"arguments":"2"}},{"id":"c0b","function":{"arguments":"0"}}]}}]}"#),
        &mut ids,
        6,
    );
    assert_eq!(events.len(), 6);
    let calls = state.tool_calls();
    assert_eq!(calls.iter().map(|c| c.index).collect::<Vec<u64>>(), vec![0, 2]);
    assert_eq!(calls[0].id, "c0b");
    assert_eq!(calls[0].arguments, "00");
    assert_eq!(calls[0].item_id, "fc_60004");
    assert_eq!(calls[1].arguments, "22");
    assert_eq!(calls[1].item_id, "fc_60003");
    let end = state.finish_at(1);
    let done: Vec<u64> = end
        .iter()
        .filter_map(|e| match e {
            StreamEvent::ItemDone { output_index, .. } => Some(*output_index),
            _ => None,
        })
        .collect();
    assert_eq!(done, vec![1, 3]);
    let output = &last_response(&end).output;
    assert_eq!(output.len(), 2);
    match (&output[0], &output[1]) {
        (OutputItem::FunctionCall { name: a, .. }, OutputItem::FunctionCall { name: b, .. }) => {
            assert_eq!(a, &Json::Str("zero".to_string()));
            assert_eq!(b, &Json::Str("two".to_string()));
        }
        other => panic!("unexpected output {:?}", other),
    }
}

#[test]
fn announcement_waits_for_a_name() {
    let mut ids = IdMinter::new();
    let mut state = open_call(&mut ids);
    let first = state.feed_at(&frame(r#"{"choices":[{"delta":{"tool_calls":[{"index":0,"id":"","function":{"arguments":"{"}}]}}]}"#), &mut ids, 6);
    assert_eq!(names(&first), vec!["response.function_call_arguments.delta"]);
    let second = state.feed_at(&frame(r#"{"choices":[{"delta":{"tool_calls":[{"index":0,"id":"c","function":{"name":"f"}}]}}]}"#), &mut ids, 6);
    assert!(second.is_empty());
    let third = state.feed_at(&frame(r#"{"choices":[{"delta":{"tool_calls":[{"index":0,"id":"","function":{"name":"g","arguments":""}}]}}]}"#), &mut ids, 6);
    assert_eq!(names(&third), vec!["response.output_item.added", "response.function_call_arguments.delta"]);
    match &third[0] {
        StreamEvent::ItemAdded { item: OutputItem::FunctionCall { call_id, name, .. }, .. } => {
            assert_eq!(call_id, &Json::Str("c".to_string()));
            assert_eq!(name, &Json::Str("fg".to_string()));
        }
        other => panic!("unexpected event {:?}", other),
    }
    assert_eq!(third[1], StreamEvent::ArgumentsDelta { seq: 7, item_id: "fc_60003".to_string(), output_index: 1, delta: String::new() });
}

#[test]
fn call_that_was_never_announced_is_announced_at_the_end() {
    let mut ids = IdMinter::new();
    let mut state = open_call(&mut ids);
    let events = state.feed_at(&frame(r#"{"choices":[{"delta":{"tool_calls":[{"index":3,"id":"c","function":{"name":"f"}}]}}]}"#), &mut ids, 6);
    assert!(events.is_empty());
    let end = state.finish_at(1);
    assert_eq!(
        names(&end),
        vec![
            "response.content_part.done",
            "response.output_item.added",
            "response.function_call_arguments.done",
            "response.output_item.done",
            "response.completed"
        ]
    );
    assert_eq!(end.iter().map(|e| e.sequence_number()).collect::<Vec<u64>>(), vec![5, 6, 7, 8, 9]);
    assert!(matches!(end[1], StreamEvent::ItemAdded { output_index: 4, .. }));
    assert_eq!(
        render(&end[2].to_json()),
        r#"{"arguments":"","item_id":"fc_60003","name":"f","output_index":4,"sequence_number":7,"type":"response.function_call_arguments.done"}"#
    );
}

#[test]
fn delta_with_the_largest_index_is_left_out() {
    let mut ids = IdMinter::new();
    let mut state = open_call(&mut ids);
    let events = state.feed_at(&frame(r#"{"choices":[{"delta":{"tool_calls":[{"index":18446744073709551615,"id":"c","function":{"name":"f","arguments":"x"}}]}}]}"#), &mut ids, 6);
    assert!(events.is_empty());
    assert!(state.tool_calls().is_empty());
    assert_eq!(ids.counter, 3);
}

#[test]
fn sequence_numbers_count_up_from_one() {
    let mut ids = IdMinter::new();
    let req = translate_request_at(&parse(r#"{"model":"m","stream":true}"#).unwrap(), &mut ids, 1).unwrap();
    let mut state = StreamState::new_at(req, &mut ids, 5);
    let mut all = state.start_at(1);
    all.extend(state.feed_at(
        &frame(r#"{"choices":[{"delta":{"content":"a","tool_calls":[{"index":1,"function":{"name":"f","arguments":"1"}},{"index":0,"function":{"name":"g","arguments":"2"}}]}},{"delta":{"content":"b"}}]}"#),
        &mut ids,
        6,
    ));
    all.extend(state.feed_at(&frame(r#"{"choices":[{"delta":{"tool_calls":[{"index":1,"function":{"arguments":"3"}},{"index":5,"function":{"name":"h"}}]}}]}"#), &mut ids, 6));
    all.extend(state.finish_at(2));
    let numbers: Vec<u64> = all.iter().map(|e| e.sequence_number()).collect();
    let expected: Vec<u64> = (1..=all.len() as u64).collect();
    assert_eq!(numbers, expected);
    assert_eq!(all.len(), 4 + 6 + 1 + 3 + 2 + 2 + 3 + 1);
    assert_eq!(state.sequence(), all.len() as u64);
    for e in &all {
        assert_eq!(e.to_json().get("sequence_number"), Some(&Json::Unsigned(e.sequence_number())));
        assert_eq!(e.to_json().get_str("type"), Some(e.name()));
        assert_eq!(e.to_frame(), format!("event: {}\ndata: {}\n\n", e.name(), render(&e.to_json())));
    }
}

#[test]
fn fragments_join_to_the_final_arguments_however_they_are_cut() {
    let whole = r#"{"city":"Zürich","n":[1,2,3]}"#;
    let chars: Vec<char> = whole.chars().collect();
    for size in [1usize, 2, 5, 50] {
        let mut ids = IdMinter::new();
        let mut state = open_call(&mut ids);
        let mut events = Vec::new();
        let mut first = true;
        for piece in chars.chunks(size) {
            let fragment: String = piece.iter().collect();
            let function = if first {
                Json::Object(vec![("name".to_string(), Json::string("f")), ("arguments".to_string(), Json::string(&fragment))])
            } else {
                Json::Object(vec![("arguments".to_string(), Json::string(&fragment))])
            };
            first = false;
            let tc = Json::Object(vec![("index".to_string(), Json::Unsigned(0)), ("function".to_string(), function)]);
            let delta = Json::Object(vec![("tool_calls".to_string(), Json::Array(vec![tc]))]);
            let payload = Json::Object(vec![("choices".to_string(), Json::Array(vec![Json::Object(vec![("delta".to_string(), delta)])]))]);
            events.extend(state.on_payload(&payload, &mut ids, 6));
        }
        let mut joined = String::new();
        for e in &events {
            if let StreamEvent::ArgumentsDelta { delta, .. } = e {
                joined.push_str(delta);
            }
        }
        assert_eq!(joined, whole);
        let end = state.finish_at(1);
        let done: Vec<&String> = end
            .iter()
            .filter_map(|e| match e {
                StreamEvent::ArgumentsDone { arguments, .. } => Some(arguments),
                _ => None,
            })
            .collect();
        assert_eq!(done, vec![whole]);
        match &last_response(&end).output[0] {
            OutputItem::FunctionCall { arguments, .. } => assert_eq!(arguments, &Json::Str(whole.to_string())),
            other => panic!("unexpected item {:?}", other),
        }
    }
}

#[test]
fn steps_outside_their_phase_do_nothing() {
    let mut ids = IdMinter::new();
    let req = translate_request_at(&parse(r#"{"model":"m"}"#).unwrap(), &mut ids, 1).unwrap();
    let mut state = StreamState::new_at(req, &mut ids, 5);
    assert!(state.feed_at(&frame(r#"{"choices":[{"delta":{"content":"a"}}]}"#), &mut ids, 6).is_empty());
    assert!(state.finish_at(1).is_empty());
    assert!(state.on_payload(&parse(r#"{"choices":[{"delta":{"content":"a"}}]}"#).unwrap(), &mut ids, 6).is_empty());
    assert_eq!(state.phase(), Phase::Starting);
    assert_eq!(state.start_at(1).len(), 4);
    assert!(state.start_at(1).is_empty());
    assert_eq!(state.finish_at(1).len(), 2);
    assert!(state.finish_at(1).is_empty());
    assert!(state.start_at(1).is_empty());
    assert!(state.feed_at(&frame(r#"{"choices":[{"delta":{"content":"a"}}]}"#), &mut ids, 6).is_empty());
    assert_eq!(state.sequence(), 6);
    assert_eq!(state.text(), "");
}

#[test]
fn abandoned_call_emits_no_terminal_event() {
    let mut ids = IdMinter::new();
    let mut state = open_call(&mut ids);
    state.feed_at(&frame(r#"{"choices":[{"delta":{"content":"a"}}]}"#), &mut ids, 6);
    state.abandon();
    assert_eq!(state.phase(), Phase::Closed);
    assert!(state.finish_at(1).is_empty());
    assert_eq!(state.sequence(), 5);
}

#[test]
fn payload_without_choices_changes_only_the_usage() {
    let mut ids = IdMinter::new();
    let mut state = open_call(&mut ids);
    for payload in [r#"{}"#, r#"{"choices":5}"#, r#"{"choices":[5,{"delta":5},{"delta":{"content":5,"tool_calls":{}}}]}"#, "[]", "7"] {
        assert!(state.on_payload(&parse(payload).unwrap(), &mut ids, 6).is_empty());
    }
    assert_eq!(state.sequence(), 4);
    assert!(state.tool_calls().is_empty());
}

#[test]
fn every_response_object_echoes_the_request() {
    let mut ids = IdMinter::new();
    let req = translate_request_at(
        &parse(r#"{"model":"m","stream":true,"instructions":"i","temperature":0.5,"tools":[{"type":"function","name":"f"}]}"#).unwrap(),
        &mut ids,
        1,
    )
    .unwrap();
    let mut state = StreamState::new_at(req, &mut ids, 5);
    let mut all = state.start_at(1);
    all.extend(state.feed_at(&frame(r#"{"choices":[{"delta":{"content":"a"}}]}"#), &mut ids, 6));
    all.extend(state.finish_at(2));
    let mut seen = 0;
    for e in &all {
        match e {
            StreamEvent::Created { response, .. } | StreamEvent::InProgress { response, .. } | StreamEvent::Finished { response, .. } => {
                seen += 1;
                assert_eq!(response.id, state.request().resp_id);
                assert_eq!(response.instructions, Json::Str("i".to_string()));
                assert_eq!(response.temperature, Json::Real("0.5".to_string()));
                assert_eq!(response.top_p, Json::Unsigned(1));
                assert_eq!(response.tool_choice, Json::Str("auto".to_string()));
                assert_eq!(response.parallel_tool_calls, Json::Bool(true));
                assert_eq!(render(&response.tools), r#"[{"name":"f","type":"function"}]"#);
            }
            _ => {}
        }
    }
    assert_eq!(seen, 3);
}

#[test]
fn streamed_and_direct_responses_have_the_same_members() {
    let mut ids = IdMinter::new();
    let req = translate_request_at(&parse(r#"{"model":"m","stream":true}"#).unwrap(), &mut ids, 1).unwrap();
    let direct = translate_response_at(
        &parse(r#"{"choices":[{"message":{"content":"hi","tool_calls":[{"id":"c","function":{"name":"f","arguments":"{}"}}]},"finish_reason":"stop"}],"usage":{"prompt_tokens":1,"completion_tokens":2,"total_tokens":3}}"#).unwrap(),
        &req,
        &mut ids,
        2,
        3,
    );
    let mut state = StreamState::new_at(req, &mut ids, 5);
    state.start_at(1);
    state.feed_at(
        &frame(r#"{"choices":[{"delta":{"content":"hi","tool_calls":[{"index":0,"id":"c","function":{"name":"f","arguments":"{}"}}]},"finish_reason":"stop"}],"usage":{"prompt_tokens":1,"completion_tokens":2,"total_tokens":3}}"#),
        &mut ids,
        6,
    );
    let end = state.finish_at(3);
    let streamed = last_response(&end).to_json();
    assert_eq!(keys(&streamed), keys(&direct));
    assert_eq!(keys(streamed.get("usage").unwrap()), keys(direct.get("usage").unwrap()));
    assert_eq!(streamed.get("usage"), direct.get("usage"));
    let s_items = streamed.get_array("output").unwrap();
    let d_items = direct.get_array("output").unwrap();
    assert_eq!(s_items.len(), 2);
    assert_eq!(d_items.len(), 2);
    assert_eq!(keys(&s_items[0]), keys(&d_items[1]));
    assert_eq!(keys(&s_items[1]), keys(&d_items[0]));
    assert_eq!(s_items[1].get("arguments"), d_items[0].get("arguments"));
    assert_eq!(s_items[0].get("content"), d_items[1].get("content"));
    for key in ["object", "status", "error", "incomplete_details", "instructions", "model", "parallel_tool_calls", "previous_response_id", "temperature", "text", "tool_choice", "tools", "top_p", "truncation", "metadata", "created_at", "completed_at"] {
        assert_eq!(streamed.get(key), direct.get(key));
    }
}

#[test]
fn steps_by_the_clock_behave_like_the_others() {
    let mut ids = IdMinter::new();
    let req = translate_request_at(&parse(r#"{"model":"m","stream":true}"#).unwrap(), &mut ids, 1).unwrap();
    let mut state = StreamState::new(req, &mut ids);
    assert_eq!(ids.counter, 3);
    let opened = state.start();
    assert_eq!(opened.len(), 4);
    let events = state.feed(&frame(r#"{"choices":[{"delta":{"content":"a","tool_calls":[{"function":{"name":"f","arguments":"1"}}]}}]}"#), &mut ids);
    assert_eq!(names(&events), vec!["response.output_text.delta", "response.output_item.added", "response.function_call_arguments.delta"]);
    assert_eq!(ids.counter, 4);
    let end = state.finish();
    assert_eq!(end.last().unwrap().name(), "response.completed");
    let response = last_response(&end);
    assert!(response.created_at > 1_600_000_000);
    assert_eq!(Some(response.created_at), response.completed_at);
    match &response.output[1] {
        OutputItem::FunctionCall { id, .. } => {
            assert!(id.starts_with("fc_"));
            assert!(id.ends_with("0003"));
        }
        other => panic!("unexpected item {:?}", other),
    }
}

#[test]
fn terminal_event_is_the_last_and_the_only_one() {
    let mut ids = IdMinter::new();
    let req = translate_request_at(&parse(r#"{"model":"m","stream":true}"#).unwrap(), &mut ids, 1).unwrap();
    let mut state = StreamState::new_at(req, &mut ids, 5);
    let mut all = state.start_at(1);
    all.extend(state.feed_at(&frame(r#"{"choices":[{"delta":{"content":"a","tool_calls":[{"index":0,"function":{"name":"f","arguments":"1"}}]}}]}"#), &mut ids, 6));
    all.extend(state.finish_at(2));
    let terminal: Vec<usize> = all
        .iter()
        .enumerate()
        .filter(|(_, e)| matches!(e, StreamEvent::Finished { .. }))
        .map(|(i, _)| i)
        .collect();
    assert_eq!(terminal, vec![all.len() - 1]);
    let opening = all
        .iter()
        .skip(4)
        .filter(|e| matches!(e, StreamEvent::Created { .. } | StreamEvent::InProgress { .. } | StreamEvent::PartAdded { .. }))
        .count();
    assert_eq!(opening, 0);
}

#[test]
fn text_deltas_join_to_the_text_of_the_message() {
    let mut ids = IdMinter::new();
    let mut state = open_call(&mut ids);
    let mut events = Vec::new();
    for piece in ["Gr", "", "üß", " ", "dich"] {
        let payload = Json::Object(vec![(
            "choices".to_string(),
            Json::Array(vec![Json::Object(vec![(
                "delta".to_string(),
                Json::Object(vec![("content".to_string(), Json::string(piece))]),
            )])]),
        )]);
        events.extend(state.on_payload(&payload, &mut ids, 6));
    }
    let mut joined = String::new();
    for e in &events {
        match e {
            StreamEvent::TextDelta { item_id, delta, .. } => {
                assert_eq!(item_id, "msg_50002");
                assert!(!delta.is_empty());
                joined.push_str(delta);
            }
            other => panic!("unexpected event {:?}", other),
        }
    }
    assert_eq!(events.len(), 4);
    assert_eq!(joined, "Grüß dich");
    assert_eq!(state.text(), "Grüß dich");
    let end = state.finish_at(1);
    assert_eq!(end[0], StreamEvent::TextDone { seq: 9, item_id: "msg_50002".to_string(), text: joined });
}

#[test]
fn events_of_a_tool_call_carry_its_identifier_and_its_output_index() {
    let mut ids = IdMinter::new();
    let mut state = open_call(&mut ids);
    let mut all = state.feed_at(
        &frame(r#"{"choices":[{"delta":{"tool_calls":[{"index":4,"function":{"name":"f","arguments":"a"}},{"index":1,"function":{"name":"g","arguments":"b"}},{"index":4,"function":{"arguments":"c"}}]}}]}"#),
        &mut ids,
        6,
    );
    all.extend(state.finish_at(1));
    let calls = state.tool_calls();
    assert_eq!(calls.len(), 2);
    let id_of = |output_index: u64| -> String {
        calls.iter().find(|c| c.index + 1 == output_index).map(|c| c.item_id.clone()).unwrap()
    };
    let mut seen = 0;
    for e in &all {
        match e {
            StreamEvent::ItemAdded { output_index, item: OutputItem::FunctionCall { id, .. }, .. }
            | StreamEvent::ItemDone { output_index, item: OutputItem::FunctionCall { id, .. }, .. } => {
                assert_eq!(id, &id_of(*output_index));
                seen += 1;
            }
            StreamEvent::ArgumentsDelta { item_id, output_index, .. }
            | StreamEvent::ArgumentsDone { item_id, output_index, .. } => {
                assert_eq!(item_id, &id_of(*output_index));
                seen += 1;
            }
            _ => {}
        }
    }
    assert_eq!(seen, 2 + 3 + 2 + 2);
}
