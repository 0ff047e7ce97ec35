use openrouter_api::codec::{parse, render};
use openrouter_api::gateway::{
    error_body, log_excerpt, Failure, Forward, ModelCache, ModelFilter, Proxy, Rejection,
    ResponsesPlan, Tier,
};
use openrouter_api::json::Json;
use openrouter_api::model::{Architecture, Model};

fn model(id: &str, params: &[&str], modality: Option<&str>) -> Model {
    Model {
        id: id.to_string(),
        name: "Plain".to_string(),
        created: 0,
        description: None,
        context_length: None,
        pricing: None,
        architecture: modality.map(|m| Architecture { modality: Some(m.to_string()), tokenizer: None, instruct_type: None }),
        top_provider: None,
        supported_parameters: Some(params.iter().map(|s| s.to_string()).collect()),
    }
}

fn filter(list: &str) -> ModelFilter {
    ModelFilter::new(Some(list.to_string()))
}

#[test]
fn tier_offers_its_own_models() {
    let cache = ModelCache {
        free_models: vec![model("a/free-one", &[], None)],
        stealth_models: vec![model("b/one", &[], None), model("b/two", &[], None)],
        last_refreshed: 7,
    };
    assert_eq!(Tier::Free.models(&cache), &cache.free_models);
    assert_eq!(Tier::Stealth.models(&cache).len(), 2);
}

#[test]
fn filter_without_a_list_passes_every_model() {
    let m = model("a", &[], None);
    assert!(ModelFilter::new(None).matches(&m));
    assert!(ModelFilter::default().matches(&m));
    assert!(filter("").matches(&m));
    assert!(filter(" , ,").matches(&m));
    assert!(filter("unknown,other").matches(&m));
}

#[test]
fn filter_asks_for_every_named_capability() {
    let m = model("a", &["tools", "stream", "response_format"], Some("text+image->text"));
    assert!(filter("tools").matches(&m));
    assert!(filter("tools,streaming,json_mode,vision").matches(&m));
    assert!(filter(" tools , vision ").matches(&m));
    assert!(!filter("tools,tool_choice").matches(&m));
    assert!(!filter("tool_choice,tools").matches(&m));
    assert!(!filter("tools,,tool_choice,").matches(&m));
    assert!(filter("stream,response_format,Tools").matches(&model("b", &[], None)));
    assert!(!filter("vision").matches(&model("b", &["tools"], Some("text->text"))));
    assert!(!filter("json_mode").matches(&model("b", &["json_mode"], None)));
}

#[test]
fn status_names_the_type_of_error() {
    assert_eq!(Proxy::error_type(401), "authentication_error");
    assert_eq!(Proxy::error_type(403), "permission_error");
    assert_eq!(Proxy::error_type(429), "rate_limit_error");
    assert_eq!(Proxy::error_type(400), "invalid_request_error");
    assert_eq!(Proxy::error_type(404), "invalid_request_error");
    assert_eq!(Proxy::error_type(499), "invalid_request_error");
    assert_eq!(Proxy::error_type(500), "server_error");
    assert_eq!(Proxy::error_type(502), "server_error");
    assert_eq!(Proxy::error_type(399), "server_error");
    assert_eq!(Proxy::error_type(200), "server_error");
}

#[test]
fn error_body_has_the_agreed_layout() {
    assert_eq!(
        render(&Proxy::error_body(404, "The model 'x' does not exist", Some("model_not_found"))),
        r#"{"error":{"code":"model_not_found","message":"The model 'x' does not exist","param":null,"type":"invalid_request_error"}}"#
    );
    assert_eq!(
        render(&Proxy::error_body(502, "upstream error", None)),
        r#"{"error":{"code":null,"message":"upstream error","param":null,"type":"server_error"}}"#
    );
    assert_eq!(
        render(&error_body("m", "t", Json::Unsigned(5))),
        r#"{"error":{"code":5,"message":"m","param":null,"type":"t"}}"#
    );
}

#[test]
fn failures_are_reported_by_their_kind() {
    let cases = [
        (Failure::MalformedBody, 400, "invalid_request_error"),
        (Failure::MissingModel, 400, "invalid_request_error"),
        (Failure::MissingCredential, 401, "authentication_error"),
        (Failure::UpstreamTransport, 502, "server_error"),
        (Failure::UpstreamStatus(404), 404, "server_error"),
        (Failure::UpstreamStatus(503), 503, "server_error"),
        (Failure::UpstreamStatus(100), 100, "server_error"),
        (Failure::UpstreamStatus(999), 999, "server_error"),
        (Failure::UpstreamStatus(99), 502, "server_error"),
        (Failure::UpstreamStatus(1000), 502, "server_error"),
        (Failure::UpstreamStatus(0), 502, "server_error"),
        (Failure::UpstreamBody, 502, "server_error"),
    ];
    for (failure, status, kind) in cases {
        assert_eq!(failure.status(), status);
        assert_eq!(failure.error_type(), kind);
    }
    assert_eq!(
        render(&Failure::MissingCredential.body("no key")),
        r#"{"error":{"code":null,"message":"no key","param":null,"type":"authentication_error"}}"#
    );
}

#[test]
fn model_is_read_from_the_body() {
    assert_eq!(Proxy::extract_model(r#"{"model":"x","messages":[]}"#), Some("x".to_string()));
    assert_eq!(Proxy::extract_model(r#"{"model":""}"#), Some(String::new()));
    assert_eq!(Proxy::extract_model(r#"{"model":5}"#), None);
    assert_eq!(Proxy::extract_model(r#"{"messages":[]}"#), None);
    assert_eq!(Proxy::extract_model(r#"["model"]"#), None);
    assert_eq!(Proxy::extract_model(""), None);
    assert_eq!(Proxy::extract_model("not json"), None);
}

#[test]
fn first_model_with_the_name_is_found() {
    let models = vec![model("a/x:free", &[], None), model("b/y", &[], None), model("c/x", &[], None)];
    assert_eq!(Proxy::find_model(&models, "x"), Some(0));
    assert_eq!(Proxy::find_model(&models, "c/x"), Some(2));
    assert_eq!(Proxy::find_model(&models, "y"), Some(1));
    assert_eq!(Proxy::find_model(&models, "a/x"), None);
    assert_eq!(Proxy::find_model(&models, ""), None);
    assert_eq!(Proxy::find_model(&[], "x"), None);
}

#[test]
fn request_headers_pass_by_list_or_by_prefix() {
    for name in ["content-type", "accept", "accept-encoding", "authorization", "user-agent", "http-referer", "x-title", "x-anything", "x-"] {
        assert!(Proxy::forwards_header(name));
    }
    for name in ["host", "cookie", "content-length", "X-Title", "ax-title", "x", ""] {
        assert!(!Proxy::forwards_header(name));
    }
}

#[test]
fn response_headers_pass_but_two() {
    assert!(!Proxy::relays_header("transfer-encoding"));
    assert!(!Proxy::relays_header("connection"));
    assert!(Proxy::relays_header("content-type"));
    assert!(Proxy::relays_header("Connection"));
    assert!(Proxy::relays_header(""));
}

#[test]
fn credential_follows_the_bearer_prefix() {
    assert_eq!(Proxy::bearer_key(Some("Bearer sk-1")), "sk-1");
    assert_eq!(Proxy::bearer_key(Some("Bearer ")), "");
    assert_eq!(Proxy::bearer_key(Some("bearer sk-1")), "");
    assert_eq!(Proxy::bearer_key(Some("Basic abc")), "");
    assert_eq!(Proxy::bearer_key(Some("")), "");
    assert_eq!(Proxy::bearer_key(None), "");
    assert_eq!(Proxy::bearer_key(Some("Bearer Bearer x")), "Bearer x");
}

#[test]
fn responses_request_is_planned_or_turned_away() {
    let models = vec![model("a/x:free", &[], None), model("b/y", &[], None)];
    let body = parse(r#"{"model":"y","input":"hi"}"#).unwrap();
    assert_eq!(
        Proxy::plan_responses(&body, Some("Bearer sk-1"), &models),
        Ok(ResponsesPlan { model: 1, api_key: "sk-1".to_string() })
    );
    assert_eq!(Proxy::plan_responses(&body, None, &models), Err(Rejection::MissingKey));
    assert_eq!(Proxy::plan_responses(&body, Some("Bearer "), &models), Err(Rejection::MissingKey));
    let unknown = parse(r#"{"model":"z"}"#).unwrap();
    assert_eq!(Proxy::plan_responses(&unknown, None, &models), Err(Rejection::UnknownModel("z".to_string())));
    for text in [r#"{"input":"hi"}"#, r#"{"model":""}"#, r#"{"model":7}"#, "[]"] {
        assert_eq!(Proxy::plan_responses(&parse(text).unwrap(), Some("Bearer k"), &models), Err(Rejection::MissingModel));
    }
}

#[test]
fn rejection_tells_status_code_and_message() {
    assert_eq!(Rejection::MissingModel.status(), 400);
    assert_eq!(Rejection::MissingModel.code(), None);
    assert_eq!(Rejection::MissingModel.failure(), Some(Failure::MissingModel));
    assert_eq!(Rejection::MissingModel.message(), "missing required parameter: model");
    let unknown = Rejection::UnknownModel("z".to_string());
    assert_eq!(unknown.status(), 404);
    assert_eq!(unknown.code(), Some("model_not_found"));
    assert_eq!(unknown.failure(), None);
    assert_eq!(unknown.message(), "The model 'z' does not exist");
    assert_eq!(Rejection::MissingKey.status(), 401);
    assert_eq!(Rejection::MissingKey.code(), None);
    assert_eq!(Rejection::MissingKey.failure(), Some(Failure::MissingCredential));
    assert_eq!(Rejection::MissingKey.message(), "Missing API key in Authorization header");
    assert_eq!(Proxy::error_type(Rejection::MissingKey.status()), "authentication_error");
}

#[test]
fn request_without_a_model_is_turned_away_with_no_code() {
    let models = vec![model("a/x:free", &[], None)];
    for text in [r#"{"input":"hi"}"#, r#"{"model":""}"#, r#"{"model":7}"#, r#"{"model":null}"#] {
        let rejection = Proxy::plan_responses(&parse(text).unwrap(), Some("Bearer k"), &models).unwrap_err();
        assert_eq!(rejection.status(), 400);
        assert_eq!(
            render(&rejection.body()),
            r#"{"error":{"code":null,"message":"missing required parameter: model","param":null,"type":"invalid_request_error"}}"#
        );
        assert_eq!(rejection.status(), Failure::MissingModel.status());
        assert_eq!(rejection.body(), Failure::MissingModel.body(&rejection.message()));
    }
}

#[test]
fn request_without_a_credential_is_turned_away_with_no_code() {
    let models = vec![model("a/x:free", &[], None)];
    let body = parse(r#"{"model":"x","input":"hi"}"#).unwrap();
    for header in [None, Some("Bearer "), Some("Basic abc"), Some("sk-1"), Some("")] {
        let rejection = Proxy::plan_responses(&body, header, &models).unwrap_err();
        assert_eq!(rejection.status(), 401);
        assert_eq!(
            render(&rejection.body()),
            r#"{"error":{"code":null,"message":"Missing API key in Authorization header","param":null,"type":"authentication_error"}}"#
        );
        assert_eq!(rejection.status(), Failure::MissingCredential.status());
        assert_eq!(rejection.body(), Failure::MissingCredential.body(&rejection.message()));
    }
}

#[test]
fn request_for_an_unknown_model_is_turned_away_with_its_code() {
    let models = vec![model("a/x:free", &[], None)];
    let body = parse(r#"{"model":"z"}"#).unwrap();
    let rejection = Proxy::plan_responses(&body, Some("Bearer k"), &models).unwrap_err();
    assert_eq!(rejection.status(), 404);
    assert_eq!(
        render(&rejection.body()),
        r#"{"error":{"code":"model_not_found","message":"The model 'z' does not exist","param":null,"type":"invalid_request_error"}}"#
    );
}

#[test]
fn log_holds_the_first_two_hundred_characters() {
    let long: String = "é".repeat(150) + &"x".repeat(100);
    let cut = log_excerpt(&long);
    assert_eq!(cut.chars().count(), 200);
    assert_eq!(cut, "é".repeat(150) + &"x".repeat(50));
    assert_eq!(log_excerpt("short"), "short");
    assert_eq!(log_excerpt(""), "");
    let exact = "a".repeat(200);
    assert_eq!(log_excerpt(&exact), exact);
    assert_eq!(log_excerpt(&("a".repeat(201))), exact);
}

#[test]
fn pass_through_body_names_the_model_in_full() {
    let models = vec![model("a/x:free", &[], None), model("b/y", &[], None)];
    assert_eq!(
        Proxy::plan_forward(r#"{"model":"x","messages":[],"stream":true}"#, &models),
        Forward::Renamed(r#"{"messages":[],"model":"a/x:free","stream":true}"#.to_string())
    );
    assert_eq!(Proxy::plan_forward(r#"{"model":"b/y","messages":[]}"#, &models), Forward::Unchanged);
    assert_eq!(Proxy::plan_forward(r#"{"model":"z"}"#, &models), Forward::Unknown("z".to_string()));
    assert_eq!(Proxy::plan_forward(r#"{"model":""}"#, &models), Forward::Unknown(String::new()));
    for body in ["", "not json", r#"{"messages":[]}"#, r#"{"model":5}"#, "[1,2]"] {
        assert_eq!(Proxy::plan_forward(body, &models), Forward::Unchanged);
    }
}
