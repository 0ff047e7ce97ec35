use openrouter_api::sse::{blank_at, payload_of_line, push_block_payloads, take_payloads};

fn chars(text: &str) -> Vec<char> {
    text.chars().collect()
}

fn text(chars: &Vec<char>) -> String {
    chars.iter().collect()
}

#[test]
fn payload_is_what_follows_the_data_prefix() {
    assert_eq!(payload_of_line(&chars("data: {\"a\":1}")), Some("{\"a\":1}".to_string()));
    assert_eq!(payload_of_line(&chars("  data: x  \r")), Some("x".to_string()));
    assert_eq!(payload_of_line(&chars("data: ")), None);
    assert_eq!(payload_of_line(&chars("data:x")), None);
    assert_eq!(payload_of_line(&chars("event: message")), None);
    assert_eq!(payload_of_line(&chars("")), None);
    assert_eq!(payload_of_line(&chars(": comment")), None);
}

#[test]
fn terminator_carries_no_payload() {
    assert_eq!(payload_of_line(&chars("data: [DONE]")), None);
    assert_eq!(payload_of_line(&chars(" data: [DONE] ")), None);
    assert_eq!(payload_of_line(&chars("data: [DONE]x")), Some("[DONE]x".to_string()));
}

#[test]
fn block_gives_the_payloads_of_its_lines() {
    let mut out = vec!["before".to_string()];
    push_block_payloads(&chars("event: x\ndata: 1\r\nid: 7\ndata: 2"), &mut out);
    assert_eq!(out, vec!["before".to_string(), "1".to_string(), "2".to_string()]);
    let mut none = Vec::new();
    push_block_payloads(&chars(""), &mut none);
    assert_eq!(none, Vec::<String>::new());
}

#[test]
fn blank_line_is_two_line_feeds_side_by_side() {
    assert_eq!(blank_at(&chars("ab\n\ncd"), 0), 2);
    assert_eq!(blank_at(&chars("ab\n\ncd\n\n"), 3), 6);
    assert_eq!(blank_at(&chars("ab\ncd\n"), 0), 6);
    assert_eq!(blank_at(&chars("a\r\n\r\nb"), 0), 6);
    assert_eq!(blank_at(&chars(""), 0), 0);
    assert_eq!(blank_at(&chars("\n"), 0), 1);
    assert_eq!(blank_at(&chars("\n\n"), 0), 0);
}

#[test]
fn complete_blocks_leave_and_the_rest_stays() {
    let mut buffer = chars("data: {\"a\":1}\n\ndata: [DONE]\n\ndata: {\"b\"");
    let payloads = take_payloads(&mut buffer);
    assert_eq!(payloads, vec!["{\"a\":1}".to_string()]);
    assert_eq!(text(&buffer), "data: {\"b\"");
    buffer.extend(chars(":2}\n\n"));
    let payloads = take_payloads(&mut buffer);
    assert_eq!(payloads, vec!["{\"b\":2}".to_string()]);
    assert_eq!(text(&buffer), "");
}

#[test]
fn buffer_without_a_blank_line_is_kept_whole() {
    let mut buffer = chars("data: 1\ndata: 2\n");
    assert_eq!(take_payloads(&mut buffer), Vec::<String>::new());
    assert_eq!(text(&buffer), "data: 1\ndata: 2\n");
    let mut empty = chars("");
    assert_eq!(take_payloads(&mut empty), Vec::<String>::new());
    assert_eq!(text(&empty), "");
}

#[test]
fn three_line_feeds_end_one_block_and_begin_the_next() {
    let mut buffer = chars("data: 1\n\n\ndata: 2\n\n");
    assert_eq!(take_payloads(&mut buffer), vec!["1".to_string(), "2".to_string()]);
    assert_eq!(text(&buffer), "");
}
