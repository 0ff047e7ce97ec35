use openrouter_api::codec::{parse, render};
use openrouter_api::ids::IdMinter;
use openrouter_api::json::Json;
use openrouter_api::request::{translate_request_at, TranslatedRequest};
use openrouter_api::response::{build_response_at, translate_response, translate_response_at};
use openrouter_api::shape::{status_for, OutputItem, Status};

fn request(body: &str, ids: &mut IdMinter) -> TranslatedRequest {
    translate_request_at(&parse(body).unwrap(), ids, 1).unwrap()
}

fn respond(cc: &str) -> Json {
    let mut ids = IdMinter::new();
    let req = request(r#"{"model":"m","input":"hi"}"#, &mut ids);
    translate_response_at(&parse(cc).unwrap(), &req, &mut ids, 2, 1700000000)
}

#[test]
fn plain_text_response_is_completed_with_one_message() {
    let out = respond(r#"{"choices":[{"message":{"content":"hello"},"finish_reason":"stop"}]}"#);
    assert_eq!(out.get_str("status"), Some("completed"));
    let output = out.get_array("output").unwrap();
    assert_eq!(output.len(), 1);
    assert_eq!(output[0].get_str("type"), Some("message"));
    assert_eq!(output[0].get_str("role"), Some("assistant"));
    assert_eq!(output[0].get_str("status"), Some("completed"));
    let content = output[0].get_array("content").unwrap();
    assert_eq!(content.len(), 1);
    assert_eq!(content[0].get_str("type"), Some("output_text"));
    assert_eq!(content[0].get_str("text"), Some("hello"));
    assert_eq!(content[0].get("annotations"), Some(&Json::Array(vec![])));
}

#[test]
fn plain_text_response_has_the_whole_layout() {
    let out = respond(r#"{"choices":[{"message":{"content":"hello"},"finish_reason":"stop"}]}"#);
    assert_eq!(
        render(&out),
        concat_parts(&[
            r#"{"completed_at":1700000000,"created_at":1700000000,"error":null,"id":"resp_10001","#,
            r#""incomplete_details":null,"instructions":null,"metadata":{},"model":"m","object":"response","#,
            r#""output":[{"content":[{"annotations":[],"text":"hello","type":"output_text"}],"id":"msg_20002","role":"assistant","status":"completed","type":"message"}],"#,
            r#""parallel_tool_calls":true,"previous_response_id":null,"status":"completed","temperature":1,"#,
            r#""text":{"format":{"type":"text"}},"tool_choice":"auto","tools":[],"top_p":1,"truncation":"disabled","usage":null}"#,
        ])
    );
}

fn concat_parts(parts: &[&str]) -> String {
    let mut out = String::new();
    for p in parts {
        out.push_str(p);
    }
    out
}

#[test]
fn truncated_response_is_incomplete() {
    let out = respond(r#"{"choices":[{"message":{"content":"hel"},"finish_reason":"length"}]}"#);
    assert_eq!(out.get_str("status"), Some("incomplete"));
    assert_eq!(render(out.get("incomplete_details").unwrap()), r#"{"reason":"max_output_tokens"}"#);
    let output = out.get_array("output").unwrap();
    assert_eq!(output[0].get_str("status"), Some("completed"));
}

#[test]
fn only_the_first_choice_decides_the_status() {
    let out = respond(r#"{"choices":[{"message":{"content":"a"},"finish_reason":"stop"},{"message":{"content":"b"},"finish_reason":"length"}]}"#);
    assert_eq!(out.get_str("status"), Some("completed"));
    assert_eq!(out.get("incomplete_details"), Some(&Json::Null));
    let out = respond(r#"{"choices":[{"message":{"content":"a"}}]}"#);
    assert_eq!(out.get_str("status"), Some("completed"));
    let out = respond(r#"{"choices":[{"message":{"content":"a"},"finish_reason":7}]}"#);
    assert_eq!(out.get_str("status"), Some("completed"));
    let out = respond(r#"{}"#);
    assert_eq!(out.get_str("status"), Some("completed"));
    assert_eq!(out.get("output"), Some(&Json::Array(vec![])));
}

#[test]
fn status_follows_the_finish_reason() {
    assert_eq!(status_for("length"), Status::Incomplete);
    assert_eq!(status_for("stop"), Status::Completed);
    assert_eq!(status_for("tool_calls"), Status::Completed);
    assert_eq!(status_for(""), Status::Completed);
    assert_eq!(Status::InProgress.as_str(), "in_progress");
    assert_eq!(Status::Completed.as_str(), "completed");
    assert_eq!(Status::Incomplete.as_str(), "incomplete");
    assert_eq!(render(&Status::Incomplete.details()), r#"{"reason":"max_output_tokens"}"#);
    assert_eq!(Status::Completed.details(), Json::Null);
}

#[test]
fn tool_calls_come_before_the_text_of_their_choice() {
    let out = respond(
        r#"{"choices":[{"message":{"content":"see","tool_calls":[{"id":"call_1","function":{"name":"f","arguments":"{\"a\":1}"}},{"id":"call_2","function":{"name":"g"}},{}]},"finish_reason":"tool_calls"}]}"#,
    );
    assert_eq!(
        render(out.get("output").unwrap()),
        concat_parts(&[
            r#"[{"arguments":"{\"a\":1}","call_id":"call_1","id":"fc_20002","name":"f","status":"completed","type":"function_call"},"#,
            r#"{"arguments":"","call_id":"call_2","id":"fc_20003","name":"g","status":"completed","type":"function_call"},"#,
            r#"{"arguments":"","call_id":null,"id":"fc_20004","name":null,"status":"completed","type":"function_call"},"#,
            r#"{"content":[{"annotations":[],"text":"see","type":"output_text"}],"id":"msg_20005","role":"assistant","status":"completed","type":"message"}]"#,
        ])
    );
}

#[test]
fn all_choices_are_flattened_in_order() {
    let out = respond(
        r#"{"choices":[{"message":{"content":"a"}},{"no_message":true},{"message":{"content":""}},{"message":{"content":null,"tool_calls":[{"id":"c"}]}},{"message":{"content":"b"}}]}"#,
    );
    let output = out.get_array("output").unwrap();
    assert_eq!(output.len(), 3);
    assert_eq!(output[0].get_str("id"), Some("msg_20002"));
    assert_eq!(output[1].get_str("id"), Some("fc_20003"));
    assert_eq!(output[1].get("call_id"), Some(&Json::Str("c".to_string())));
    assert_eq!(output[2].get_str("id"), Some("msg_20004"));
}

#[test]
fn usage_is_renamed_and_counts_default_to_zero() {
    let out = respond(r#"{"choices":[],"usage":{"prompt_tokens":3,"completion_tokens":4,"total_tokens":7}}"#);
    assert_eq!(
        render(out.get("usage").unwrap()),
        r#"{"input_tokens":3,"output_tokens":4,"output_tokens_details":{"reasoning_tokens":0},"total_tokens":7}"#
    );
    let out = respond(r#"{"usage":{"prompt_tokens":3}}"#);
    assert_eq!(
        render(out.get("usage").unwrap()),
        r#"{"input_tokens":3,"output_tokens":0,"output_tokens_details":{"reasoning_tokens":0},"total_tokens":0}"#
    );
    let out = respond(r#"{"choices":[]}"#);
    assert_eq!(out.get("usage"), Some(&Json::Null));
}

#[test]
fn model_is_the_one_upstream_names() {
    let out = respond(r#"{"model":"vendor/real","choices":[]}"#);
    assert_eq!(out.get_str("model"), Some("vendor/real"));
    let out = respond(r#"{"model":5,"choices":[]}"#);
    assert_eq!(out.get_str("model"), Some("m"));
}

#[test]
fn echoed_values_come_from_the_request() {
    let mut ids = IdMinter::new();
    let req = request(
        r#"{"model":"m","instructions":"be brief","temperature":0.2,"top_p":0.9,"tool_choice":"required","parallel_tool_calls":false,"tools":[{"type":"function","name":"f"}]}"#,
        &mut ids,
    );
    let out = translate_response_at(&parse(r#"{"choices":[]}"#).unwrap(), &req, &mut ids, 2, 5);
    assert_eq!(out.get_str("id"), Some("resp_10001"));
    assert_eq!(out.get("instructions"), Some(&Json::Str("be brief".to_string())));
    assert_eq!(out.get("temperature"), Some(&Json::Real("0.2".to_string())));
    assert_eq!(out.get("top_p"), Some(&Json::Real("0.9".to_string())));
    assert_eq!(out.get("tool_choice"), Some(&Json::Str("required".to_string())));
    assert_eq!(out.get("parallel_tool_calls"), Some(&Json::Bool(false)));
    assert_eq!(render(out.get("tools").unwrap()), r#"[{"name":"f","type":"function"}]"#);
    assert_eq!(out.get("created_at"), Some(&Json::Unsigned(5)));
    assert_eq!(out.get("completed_at"), Some(&Json::Unsigned(5)));
    assert_eq!(out.get("max_output_tokens"), None);
}

#[test]
fn every_item_mints_one_identifier() {
    let mut ids = IdMinter::new();
    let req = request(r#"{"model":"m"}"#, &mut ids);
    assert_eq!(ids.counter, 2);
    let cc = parse(r#"{"choices":[{"message":{"content":"a","tool_calls":[{},{}]}},{"message":{"content":"b"}}]}"#).unwrap();
    let built = build_response_at(&cc, &req, &mut ids, 9, -3);
    assert_eq!(ids.counter, 6);
    assert_eq!(built.output.len(), 4);
    assert_eq!(built.created_at, -3);
    assert_eq!(built.completed_at, Some(-3));
    assert!(!built.with_limit);
    match &built.output[3] {
        OutputItem::Message { id, status, text } => {
            assert_eq!(id, "msg_90005");
            assert_eq!(*status, Status::Completed);
            assert_eq!(text, &Some("b".to_string()));
        }
        other => panic!("unexpected item {:?}", other),
    }
    assert_eq!(built.to_json().get("created_at"), Some(&Json::Signed(-3)));
}

#[test]
fn response_by_the_clock_has_the_same_layout() {
    let mut ids = IdMinter::new();
    let req = request(r#"{"model":"m","input":"hi"}"#, &mut ids);
    let cc = parse(r#"{"choices":[{"message":{"content":"hello"},"finish_reason":"stop"}]}"#).unwrap();
    let out = translate_response(&cc, &req, &mut ids);
    assert_eq!(ids.counter, 3);
    assert_eq!(out.get_str("status"), Some("completed"));
    assert_eq!(out.get("created_at"), out.get("completed_at"));
    assert!(out.get("created_at").unwrap().as_u64().unwrap() > 1_600_000_000);
    let output = out.get_array("output").unwrap();
    assert!(output[0].get_str("id").unwrap().starts_with("msg_"));
    assert!(output[0].get_str("id").unwrap().ends_with("0002"));
}
