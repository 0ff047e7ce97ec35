use openrouter_api::codec::{parse, render};
use openrouter_api::ids::IdMinter;
use openrouter_api::json::Json;
use openrouter_api::request::{
    translate_for_model_at, translate_input_item, translate_request, translate_request_at,
    translate_tool_choice, TranslatedRequest,
};

fn translate(body: &str) -> TranslatedRequest {
    let mut ids = IdMinter::new();
    translate_request_at(&parse(body).unwrap(), &mut ids, 1).unwrap()
}

fn body_of(body: &str) -> String {
    render(&translate(body).cc_body)
}

fn messages_of(items: &str) -> String {
    let body = format!(r#"{{"model":"m","input":{}}}"#, items);
    render(translate(&body).cc_body.get("messages").unwrap())
}

#[test]
fn plain_text_input_becomes_one_user_message() {
    let t = translate(r#"{"model":"m","input":"hi"}"#);
    assert_eq!(render(&t.cc_body), r#"{"messages":[{"content":"hi","role":"user"}],"model":"m"}"#);
    assert_eq!(t.resp_id, "resp_10001");
    assert_eq!(t.model, "m");
    assert!(!t.is_stream);
}

#[test]
fn missing_values_are_echoed_with_their_defaults() {
    let t = translate(r#"{"model":"m","input":"hi"}"#);
    assert_eq!(t.temperature, Json::Unsigned(1));
    assert_eq!(t.top_p, Json::Unsigned(1));
    assert_eq!(t.tool_choice, Json::Str("auto".to_string()));
    assert_eq!(t.parallel_tool_calls, Json::Bool(true));
    assert_eq!(t.instructions, Json::Null);
    assert_eq!(t.tools_echo, Json::Array(vec![]));
}

#[test]
fn given_values_are_echoed_as_they_are() {
    let t = translate(
        r#"{"model":"m","instructions":"be brief","temperature":0.2,"top_p":0.9,"tool_choice":{"type":"function","name":"f"},"parallel_tool_calls":false,"tools":[{"type":"web_search"}]}"#,
    );
    assert_eq!(t.temperature, Json::Real("0.2".to_string()));
    assert_eq!(t.top_p, Json::Real("0.9".to_string()));
    assert_eq!(render(&t.tool_choice), r#"{"name":"f","type":"function"}"#);
    assert_eq!(t.parallel_tool_calls, Json::Bool(false));
    assert_eq!(t.instructions, Json::Str("be brief".to_string()));
    assert_eq!(render(&t.tools_echo), r#"[{"type":"web_search"}]"#);
}

#[test]
fn request_without_a_model_fails_and_mints_nothing() {
    let mut ids = IdMinter::starting_at(7);
    let err = translate_request_at(&parse(r#"{"input":"hi"}"#).unwrap(), &mut ids, 1);
    assert_eq!(err, Err("missing `model`".to_string()));
    assert_eq!(ids.counter, 7);
    let err = translate_request_at(&parse(r#"{"model":5}"#).unwrap(), &mut ids, 1);
    assert_eq!(err, Err("missing `model`".to_string()));
    let err = translate_request_at(&parse(r#"[1]"#).unwrap(), &mut ids, 1);
    assert_eq!(err, Err("missing `model`".to_string()));
    assert_eq!(ids.counter, 7);
    let err = translate_request(&parse(r#"{"model":null}"#).unwrap(), &mut ids);
    assert_eq!(err, Err("missing `model`".to_string()));
    assert_eq!(ids.counter, 7);
}

#[test]
fn request_by_the_clock_mints_one_identifier() {
    let mut ids = IdMinter::starting_at(7);
    let t = translate_request(&parse(r#"{"model":"m","input":"hi"}"#).unwrap(), &mut ids).unwrap();
    assert!(t.resp_id.starts_with("resp_"));
    assert!(t.resp_id.ends_with("0007"));
    assert_eq!(ids.counter, 8);
    assert_eq!(render(&t.cc_body), r#"{"messages":[{"content":"hi","role":"user"}],"model":"m"}"#);
}

#[test]
fn instructions_come_first_as_a_developer_message() {
    assert_eq!(
        body_of(r#"{"model":"m","instructions":"be brief","input":"hi"}"#),
        r#"{"messages":[{"content":"be brief","role":"developer"},{"content":"hi","role":"user"}],"model":"m"}"#
    );
    assert_eq!(
        body_of(r#"{"model":"m","instructions":7,"input":5}"#),
        r#"{"messages":[],"model":"m"}"#
    );
}

#[test]
fn message_items_keep_their_role_but_developer() {
    assert_eq!(
        messages_of(r#"[{"type":"message","role":"developer","content":"a"},{"type":"message","role":"assistant","content":"b"},{"type":"message","content":"c"}]"#),
        r#"[{"content":"a","role":"system"},{"content":"b","role":"assistant"},{"content":"c","role":"user"}]"#
    );
}

#[test]
fn message_without_usable_content_is_left_out() {
    assert_eq!(messages_of(r#"[{"type":"message","role":"user"},{"type":"message","role":"user","content":5}]"#), "[]");
}

#[test]
fn single_text_part_collapses_to_a_string() {
    assert_eq!(
        messages_of(r#"[{"type":"message","role":"user","content":[{"type":"input_text","text":"hello"}]}]"#),
        r#"[{"content":"hello","role":"user"}]"#
    );
    assert_eq!(
        messages_of(r#"[{"type":"message","role":"user","content":[{"type":"output_text","text":"old"}]}]"#),
        r#"[{"content":"old","role":"user"}]"#
    );
    assert_eq!(
        messages_of(r#"[{"type":"message","role":"user","content":[{"type":"input_text"}]}]"#),
        r#"[{"content":null,"role":"user"}]"#
    );
}

#[test]
fn several_parts_stay_an_array() {
    assert_eq!(
        messages_of(
            r#"[{"type":"message","role":"user","content":[{"type":"input_text","text":"look"},{"type":"input_image","image_url":"http://x/y.png"},{"type":"input_image"},{"type":"input_file","file_id":"f"},{"type":"refusal","text":"no"}]}]"#
        ),
        r#"[{"content":[{"text":"look","type":"text"},{"image_url":{"url":"http://x/y.png"},"type":"image_url"},{"text":"no","type":"text"}],"role":"user"}]"#
    );
}

#[test]
fn single_image_part_stays_an_array() {
    assert_eq!(
        messages_of(r#"[{"type":"message","role":"user","content":[{"type":"input_image","image_url":"u"}]}]"#),
        r#"[{"content":[{"image_url":{"url":"u"},"type":"image_url"}],"role":"user"}]"#
    );
    assert_eq!(
        messages_of(r#"[{"type":"message","role":"user","content":[]}]"#),
        r#"[{"content":[],"role":"user"}]"#
    );
}

#[test]
fn function_call_output_becomes_a_tool_message() {
    assert_eq!(
        messages_of(r#"[{"type":"function_call_output","call_id":"c1","output":"42"},{"type":"function_call_output"}]"#),
        r#"[{"content":"42","role":"tool","tool_call_id":"c1"},{"content":"","role":"tool","tool_call_id":null}]"#
    );
}

#[test]
fn item_without_a_type_passes_by_its_role() {
    assert_eq!(
        messages_of(r#"[{"role":"developer","content":"a"},{"role":"user","content":[{"type":"input_text","text":"raw"}]},{"role":"user"},{"content":"no role"},{"type":"","role":"assistant","content":"b"}]"#),
        r#"[{"content":"a","role":"system"},{"content":[{"text":"raw","type":"input_text"}],"role":"user"},{"content":null,"role":"user"},{"content":"b","role":"assistant"}]"#
    );
}

#[test]
fn item_of_another_type_is_ignored() {
    assert_eq!(messages_of(r#"[{"type":"reasoning","role":"user","content":"x"},{"type":"function_call","name":"f"},5,"text"]"#), "[]");
}

#[test]
fn translate_input_item_appends_to_the_messages() {
    let mut messages = vec![Json::Null];
    translate_input_item(&parse(r#"{"type":"message","role":"user","content":"x"}"#).unwrap(), &mut messages);
    translate_input_item(&parse(r#"{"type":"other"}"#).unwrap(), &mut messages);
    assert_eq!(render(&Json::Array(messages)), r#"[null,{"content":"x","role":"user"}]"#);
}

#[test]
fn function_tools_are_described_and_others_dropped() {
    assert_eq!(
        body_of(
            r#"{"model":"m","tools":[{"type":"web_search"},{"type":"function","name":"f","description":"d","parameters":{"type":"object"},"strict":true},{"type":"function","name":"g"},{"name":"h"}]}"#
        ),
        r#"{"messages":[],"model":"m","tools":[{"function":{"description":"d","name":"f","parameters":{"type":"object"},"strict":true},"type":"function"},{"function":{"description":null,"name":"g","parameters":{},"strict":null},"type":"function"}]}"#
    );
}

#[test]
fn tools_are_left_out_where_none_is_a_function() {
    assert_eq!(body_of(r#"{"model":"m","tools":[{"type":"web_search"}]}"#), r#"{"messages":[],"model":"m"}"#);
    assert_eq!(body_of(r#"{"model":"m","tools":[]}"#), r#"{"messages":[],"model":"m"}"#);
    assert_eq!(body_of(r#"{"model":"m","tools":"none"}"#), r#"{"messages":[],"model":"m"}"#);
}

#[test]
fn scalar_settings_pass_through() {
    assert_eq!(
        body_of(r#"{"model":"m","temperature":0.5,"top_p":0.25,"max_output_tokens":64,"parallel_tool_calls":false}"#),
        r#"{"max_tokens":64,"messages":[],"model":"m","parallel_tool_calls":false,"temperature":0.5,"top_p":0.25}"#
    );
    assert_eq!(
        body_of(r#"{"model":"m","temperature":null,"max_tokens":9}"#),
        r#"{"messages":[],"model":"m","temperature":null}"#
    );
}

#[test]
fn tool_choice_is_passed_narrowed_or_replaced() {
    let choice = |text: &str| render(&translate_tool_choice(&parse(text).unwrap()));
    assert_eq!(choice(r#""required""#), r#""required""#);
    assert_eq!(choice(r#""anything""#), r#""anything""#);
    assert_eq!(choice(r#"{"type":"function","name":"f","extra":1}"#), r#"{"function":{"name":"f"},"type":"function"}"#);
    assert_eq!(choice(r#"{"type":"function"}"#), r#"{"function":{"name":null},"type":"function"}"#);
    assert_eq!(choice(r#"{"type":"allowed_tools"}"#), r#""auto""#);
    assert_eq!(choice(r#"{}"#), r#""auto""#);
    assert_eq!(choice("5"), r#""auto""#);
    assert_eq!(choice("null"), r#""auto""#);
    assert_eq!(
        body_of(r#"{"model":"m","tool_choice":"none"}"#),
        r#"{"messages":[],"model":"m","tool_choice":"none"}"#
    );
}

#[test]
fn text_format_becomes_the_response_format() {
    assert_eq!(
        body_of(r#"{"model":"m","text":{"format":{"type":"json_object"}}}"#),
        r#"{"messages":[],"model":"m","response_format":{"type":"json_object"}}"#
    );
    assert_eq!(
        body_of(r#"{"model":"m","text":{"format":{"type":"json_schema"}}}"#),
        r#"{"messages":[],"model":"m","response_format":{"json_schema":{"name":"response","schema":{},"strict":true},"type":"json_schema"}}"#
    );
    assert_eq!(
        body_of(r#"{"model":"m","text":{"format":{"type":"json_schema","name":"n","schema":{"a":1},"strict":false}}}"#),
        r#"{"messages":[],"model":"m","response_format":{"json_schema":{"name":"n","schema":{"a":1},"strict":false},"type":"json_schema"}}"#
    );
    for body in [
        r#"{"model":"m","text":{"format":{"type":"text"}}}"#,
        r#"{"model":"m","text":{"format":{}}}"#,
        r#"{"model":"m","text":{}}"#,
        r#"{"model":"m","text":"plain"}"#,
        r#"{"model":"m","text":{"format":{"type":"xml"}}}"#,
    ] {
        assert_eq!(body_of(body), r#"{"messages":[],"model":"m"}"#);
    }
}

#[test]
fn stream_flag_is_set_only_where_it_is_true() {
    let t = translate(r#"{"model":"m","stream":true}"#);
    assert!(t.is_stream);
    assert_eq!(render(&t.cc_body), r#"{"messages":[],"model":"m","stream":true}"#);
    for body in [r#"{"model":"m","stream":false}"#, r#"{"model":"m","stream":"true"}"#, r#"{"model":"m","stream":1}"#] {
        let t = translate(body);
        assert!(!t.is_stream);
        assert_eq!(render(&t.cc_body), r#"{"messages":[],"model":"m"}"#);
    }
}

#[test]
fn resolved_model_takes_the_place_of_the_named_one() {
    let mut ids = IdMinter::new();
    let t = translate_for_model_at(parse(r#"{"model":"short","input":"hi"}"#).unwrap(), "vendor/long:free", &mut ids, 1);
    assert_eq!(t.model, "vendor/long:free");
    assert_eq!(render(&t.cc_body), r#"{"messages":[{"content":"hi","role":"user"}],"model":"vendor/long:free"}"#);
    let t = translate_for_model_at(Json::Null, "m", &mut ids, 1);
    assert_eq!(render(&t.cc_body), r#"{"messages":[],"model":"m"}"#);
    assert_eq!(t.resp_id, "resp_10002");
}
