use openrouter_api::codec::{parse, render};
use openrouter_api::json::Json;

fn obj(entries: Vec<(&str, Json)>) -> Json {
    Json::Object(entries.into_iter().map(|(k, v)| (k.to_string(), v)).collect())
}

#[test]
fn parse_reads_every_kind_of_value() {
    let parsed = parse(r#"{"a":1,"b":[true,null,"x",-2,1.5]}"#).unwrap();
    let expected = obj(vec![
        ("a", Json::Unsigned(1)),
        (
            "b",
            Json::Array(vec![
                Json::Bool(true),
                Json::Null,
                Json::Str("x".to_string()),
                Json::Signed(-2),
                Json::Real("1.5".to_string()),
            ]),
        ),
    ]);
    assert_eq!(parsed, expected);
}

#[test]
fn parse_rejects_what_is_no_document() {
    assert_eq!(parse(""), None);
    assert_eq!(parse("{"), None);
    assert_eq!(parse("1 2"), None);
    assert_eq!(parse("[DONE]"), None);
    assert_eq!(parse("{\"a\":}"), None);
}

#[test]
fn parse_keeps_large_and_negative_integers() {
    assert_eq!(parse("18446744073709551615"), Some(Json::Unsigned(u64::MAX)));
    assert_eq!(parse("-9223372036854775808"), Some(Json::Signed(i64::MIN)));
    assert_eq!(parse("0"), Some(Json::Unsigned(0)));
}

#[test]
fn render_writes_compact_text_with_sorted_keys() {
    let value = obj(vec![
        ("b", Json::Array(vec![Json::Unsigned(1), Json::Signed(-1), Json::Bool(false)])),
        ("a", Json::Str("x\"y".to_string())),
        ("c", Json::Null),
    ]);
    assert_eq!(render(&value), r#"{"a":"x\"y","b":[1,-1,false],"c":null}"#);
}

#[test]
fn render_round_trips_real_numbers() {
    for text in ["0.7", "1.0", "-0.25", "1e+30", "0.30000000000000004", "-0.0", "1e-7"] {
        let parsed = parse(text).unwrap();
        assert_eq!(parsed, Json::Real(text.to_string()));
        assert_eq!(render(&parsed), text);
    }
    assert_eq!(parse("1e30"), Some(Json::Real("1e+30".to_string())));
    assert_eq!(parse("1.50"), Some(Json::Real("1.5".to_string())));
    assert_eq!(parse("18446744073709551616"), Some(Json::Real("1.8446744073709552e+19".to_string())));
}

#[test]
fn render_writes_null_for_a_real_that_is_no_number() {
    assert_eq!(render(&Json::Real("abc".to_string())), "null");
    assert_eq!(render(&Json::Real("NaN".to_string())), "null");
}

#[test]
fn parse_and_render_round_trip() {
    let text = r#"{"choices":[{"delta":{"content":"hi","tool_calls":[{"index":0}]}}],"usage":{"total_tokens":7}}"#;
    assert_eq!(render(&parse(text).unwrap()), text);
}

#[test]
fn get_reads_the_member_written_last() {
    let value = obj(vec![("a", Json::Unsigned(1)), ("b", Json::Unsigned(2)), ("a", Json::Unsigned(3))]);
    assert_eq!(value.get("a"), Some(&Json::Unsigned(3)));
    assert_eq!(value.get("b"), Some(&Json::Unsigned(2)));
    assert_eq!(value.get("c"), None);
    assert_eq!(render(&value), r#"{"a":3,"b":2}"#);
}

#[test]
fn get_gives_nothing_for_what_is_no_object() {
    assert_eq!(Json::Null.get("a"), None);
    assert_eq!(Json::Array(vec![Json::Null]).get("0"), None);
    assert_eq!(Json::Str("a".to_string()).get("a"), None);
}

#[test]
fn readers_tell_the_kinds_apart() {
    assert_eq!(Json::Str("t".to_string()).as_str(), Some("t"));
    assert_eq!(Json::Unsigned(1).as_str(), None);
    assert_eq!(Json::Bool(true).as_bool(), Some(true));
    assert_eq!(Json::Null.as_bool(), None);
    assert_eq!(Json::Unsigned(7).as_u64(), Some(7));
    assert_eq!(Json::Signed(7).as_u64(), Some(7));
    assert_eq!(Json::Signed(-7).as_u64(), None);
    assert_eq!(Json::Real("7.0".to_string()).as_u64(), None);
    assert_eq!(Json::Array(vec![Json::Null]).as_array(), Some(&vec![Json::Null]));
    assert_eq!(Json::Null.as_array(), None);
}

#[test]
fn member_readers_follow_the_key() {
    let value = parse(r#"{"s":"x","n":5,"a":[1],"neg":-1}"#).unwrap();
    assert_eq!(value.get_str("s"), Some("x"));
    assert_eq!(value.get_str("n"), None);
    assert_eq!(value.get_str("missing"), None);
    assert_eq!(value.get_u64("n"), Some(5));
    assert_eq!(value.get_u64("neg"), None);
    assert_eq!(value.get_array("a"), Some(&vec![Json::Unsigned(1)]));
    assert_eq!(value.get_or("n", Json::Null), Json::Unsigned(5));
    assert_eq!(value.get_or("missing", Json::Bool(true)), Json::Bool(true));
}

#[test]
fn integer_keeps_what_is_not_negative_unsigned() {
    assert_eq!(Json::integer(5), Json::Unsigned(5));
    assert_eq!(Json::integer(0), Json::Unsigned(0));
    assert_eq!(Json::integer(-5), Json::Signed(-5));
}

#[test]
fn with_member_replaces_or_appends() {
    let value = parse(r#"{"model":"short","input":"hi"}"#).unwrap();
    let named = value.with_member("model", Json::string("vendor/long"));
    assert_eq!(named.get_str("model"), Some("vendor/long"));
    assert_eq!(named.get_str("input"), Some("hi"));
    assert_eq!(render(&named), r#"{"input":"hi","model":"vendor/long"}"#);
    let added = parse(r#"{"input":"hi"}"#).unwrap().with_member("model", Json::string("m"));
    assert_eq!(render(&added), r#"{"input":"hi","model":"m"}"#);
    let from_null = Json::Null.with_member("model", Json::string("m"));
    assert_eq!(render(&from_null), r#"{"model":"m"}"#);
}

#[test]
fn deep_clone_copies_the_whole_document() {
    let value = parse(r#"{"a":[{"b":[1,2,{"c":"d"}]}],"e":1.5}"#).unwrap();
    assert_eq!(value.deep_clone(), value);
}

#[test]
fn documents_are_written_as_the_json_library_writes_them() {
    let texts = [
        r#"{"b":1,"a":{"d":[1,2.5,-3,1e100,1.0e-5,0.1,123456789012345678901234567890],"c":"\u00e9\n\t\"\\ \ud83d\ude00"},"":null}"#,
        r#"[[],{},[{}],"",0,-0,0.0,-0.0,true,false,null]"#,
        r#"  {"k" : [ 1 , 2 ] }  "#,
        r#"{"a":1,"a":2}"#,
        r#"9007199254740993"#,
        r#"-9223372036854775809"#,
        r#"0.1e1"#,
        r#"5e-324"#,
        r#"1.7976931348623157e308"#,
        r#""\u0000\u001f\u007f""#,
    ];
    for text in texts {
        let ours = render(&parse(text).unwrap());
        let theirs = serde_json::from_str::<serde_json::Value>(text).unwrap().to_string();
        assert_eq!(ours, theirs);
        assert_eq!(render(&parse(&ours).unwrap()), ours);
    }
}

#[test]
fn texts_are_documents_where_the_json_library_says_so() {
    let texts = [
        "", " ", "nul", "tru", "01", "1.", ".5", "+1", "1e", "1e999", "-", "[1,]", "{\"a\":1,}",
        "{a:1}", "'a'", "\"a", "[", "]", "{}{}", "\"\\x\"", "\"\u{1}\"", "NaN", "Infinity", "0x10",
        "null", "true", "1", "\"a\"", "[ ]", "{ }", "\n1\n", "1e5", "-1E+5", "[[[[[[[[[[1]]]]]]]]]]",
    ];
    for text in texts {
        let theirs = serde_json::from_str::<serde_json::Value>(text).ok();
        assert_eq!(parse(text).is_some(), theirs.is_some());
    }
    let deep = "[".repeat(200) + &"]".repeat(200);
    assert_eq!(parse(&deep).is_some(), serde_json::from_str::<serde_json::Value>(&deep).is_ok());
}

#[test]
fn members_are_read_as_the_json_library_reads_them() {
    let text = r#"{"a":1,"b":{"c":[true,"x"]},"a":"last","n":-5,"u":18446744073709551615,"f":2.0}"#;
    let ours = parse(text).unwrap();
    let theirs = serde_json::from_str::<serde_json::Value>(text).unwrap();
    for key in ["a", "b", "n", "u", "f", "missing", ""] {
        assert_eq!(ours.get(key).map(render), theirs.get(key).map(|v| v.to_string()));
        assert_eq!(ours.get_str(key), theirs.get(key).and_then(|v| v.as_str()));
        assert_eq!(ours.get_u64(key), theirs.get(key).and_then(|v| v.as_u64()));
        assert_eq!(ours.get(key).and_then(|v| v.as_bool()), theirs.get(key).and_then(|v| v.as_bool()));
        assert_eq!(
            ours.get_array(key).map(|a| a.len()),
            theirs.get(key).and_then(|v| v.as_array()).map(|a| a.len())
        );
    }
}
