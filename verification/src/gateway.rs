//! The entry point of the gateway, as far as it decides: which models a
//! tier offers, which model a request names, which headers pass, and how
//! each failure is reported.

use crate::codec::{json_parse, parse};
use crate::json::{entry_views, put, Json, JsonV};
use crate::model::{model_views, Model, ModelV};
use crate::shape::new_entries;
use crate::text::{
    chars_of, excerpt, excerpt_of, find_char, has_prefix, index_of, lemma_empty_text, same,
    slice, starts_with, string_of, trim, trim_bounds,
};
use vstd::prelude::*;
use vstd::string::StringExecFns;

verus! {

/// The tiers of clients.
#[derive(Clone, Copy, PartialEq, Eq, Structural, Debug)]
pub enum Tier {
    Free,
    Stealth,
}

/// The models of each tier, and the second at which they were last
/// refreshed.
#[derive(Debug, PartialEq, Eq)]
pub struct ModelCache {
    pub free_models: Vec<Model>,
    pub stealth_models: Vec<Model>,
    pub last_refreshed: i64,
}

/// A filter on the capabilities of models: a list of capability names,
/// separated by commas.
#[derive(Debug, Default, PartialEq, Eq)]
pub struct ModelFilter {
    pub supports: Option<String>,
}

/// The associated functions of the gateway's entry point.
#[derive(Clone, Copy, Debug)]
pub struct Proxy;

/// The kinds of failure of a call.
#[derive(Clone, Copy, PartialEq, Eq, Structural, Debug)]
pub enum Failure {
    /// The body of the request is no JSON document.
    MalformedBody,
    /// The request names no model.
    MissingModel,
    /// The request carries no bearer credential.
    MissingCredential,
    /// Upstream could not be reached.
    UpstreamTransport,
    /// Upstream answered with the given status, which is no success.
    UpstreamStatus(u16),
    /// Upstream answered with a body that is no JSON document.
    UpstreamBody,
}

/// Why the entry point turns a Responses request away.
#[derive(Debug, PartialEq, Eq)]
pub enum Rejection {
    MissingModel,
    UnknownModel(String),
    MissingKey,
}

/// Why the entry point turns a Responses request away, as a mathematical
/// value.
pub enum RejectionV {
    MissingModel,
    UnknownModel(Seq<char>),
    MissingKey,
}

/// What becomes of the body of a request on the pass-through path.
#[derive(Debug, PartialEq, Eq)]
pub enum Forward {
    /// The body goes upstream as it is.
    Unchanged,
    /// The body goes upstream with the full identifier of its model; the
    /// text is the new body.
    Renamed(String),
    /// No model of the tier bears the name that the body gives; the text is
    /// that name.
    Unknown(String),
}

/// What becomes of the body of a request on the pass-through path, as a
/// mathematical value.
pub enum ForwardV {
    Unchanged,
    Renamed(Seq<char>),
    Unknown(Seq<char>),
}

/// What the entry point hands to the translator for a Responses request.
#[derive(Debug, PartialEq, Eq)]
pub struct ResponsesPlan {
    /// The position of the model among the models of the tier.
    pub model: usize,
    /// The upstream credential of the caller.
    pub api_key: String,
}

/// What the entry point hands to the translator, as a mathematical value.
pub struct ResponsesPlanV {
    pub model: int,
    pub api_key: Seq<char>,
}

/// The type of error that stands for a status in the error body of the
/// pass-through path.
pub open spec fn error_type_of(status: u16) -> Seq<char> {
    if status == 401 {
        "authentication_error"@
    } else if status == 403 {
        "permission_error"@
    } else if status == 429 {
        "rate_limit_error"@
    } else if 400 <= status <= 499 {
        "invalid_request_error"@
    } else {
        "server_error"@
    }
}

/// The error body `{"error":{"message":..,"type":..,"param":null,"code":..}}`.
pub open spec fn error_json(message: Seq<char>, kind: Seq<char>, code: JsonV) -> JsonV {
    JsonV::Object(
        seq![
            (
                "error"@,
                JsonV::Object(
                    seq![
                        ("message"@, JsonV::Str(message)),
                        ("type"@, JsonV::Str(kind)),
                        ("param"@, JsonV::Null),
                        ("code"@, code),
                    ],
                ),
            ),
        ],
    )
}

/// An optional code as JSON: null where there is none.
pub open spec fn code_json(code: Option<Seq<char>>) -> JsonV {
    match code {
        Some(c) => JsonV::Str(c),
        None => JsonV::Null,
    }
}

/// The status with which a failure is reported: an upstream status is
/// passed on where it is a status at all (100 to 999), and 502 stands for
/// any other.
pub open spec fn failure_status(f: Failure) -> u16 {
    match f {
        Failure::MalformedBody => 400,
        Failure::MissingModel => 400,
        Failure::MissingCredential => 401,
        Failure::UpstreamTransport => 502,
        Failure::UpstreamStatus(code) => if 100 <= code <= 999 {
            code
        } else {
            502
        },
        Failure::UpstreamBody => 502,
    }
}

/// The type of error with which a failure is reported.
pub open spec fn failure_type(f: Failure) -> Seq<char> {
    match f {
        Failure::MalformedBody => "invalid_request_error"@,
        Failure::MissingModel => "invalid_request_error"@,
        Failure::MissingCredential => "authentication_error"@,
        _ => "server_error"@,
    }
}

/// What becomes of a Responses request: it is turned away where its body
/// names no model (no string member `model`, or an empty one), then where
/// no model of the tier bears that name, then where its authorization
/// header gives no credential; otherwise the position of the model and the
/// credential go to the translator.
pub open spec fn responses_plan(
    body: JsonV,
    authorization: Option<Seq<char>>,
    models: Seq<ModelV>,
) -> Result<ResponsesPlanV, RejectionV> {
    let name = crate::request::str_or(body, "model"@, Seq::empty());
    let key = bearer_of(authorization);
    if name.len() == 0 {
        Err(RejectionV::MissingModel)
    } else {
        match position_of(models, name) {
            None => Err(RejectionV::UnknownModel(name)),
            Some(p) => if key.len() == 0 {
                Err(RejectionV::MissingKey)
            } else {
                Ok(ResponsesPlanV { model: p, api_key: key })
            },
        }
    }
}

/// The status with which a request is turned away.
pub open spec fn rejection_status(r: RejectionV) -> u16 {
    match r {
        RejectionV::MissingModel => 400,
        RejectionV::UnknownModel(_) => 404,
        RejectionV::MissingKey => 401,
    }
}

/// The message that tells why a request is turned away.
pub open spec fn rejection_message(r: RejectionV) -> Seq<char> {
    match r {
        RejectionV::MissingModel => "missing required parameter: model"@,
        RejectionV::UnknownModel(id) => "The model '"@ + id + "' does not exist"@,
        RejectionV::MissingKey => "Missing API key in Authorization header"@,
    }
}

/// The code in the body that turns a request away: `model_not_found` for
/// a model that the tier does not offer, and none for a request without a
/// model or without a credential.
pub open spec fn rejection_code(r: RejectionV) -> Option<Seq<char>> {
    match r {
        RejectionV::UnknownModel(_) => Some("model_not_found"@),
        _ => None,
    }
}

/// The kind of failure that a rejection is, where it is one of the kinds of
/// failure of a call.
pub open spec fn rejection_failure(r: RejectionV) -> Option<Failure> {
    match r {
        RejectionV::MissingModel => Some(Failure::MissingModel),
        RejectionV::UnknownModel(_) => None,
        RejectionV::MissingKey => Some(Failure::MissingCredential),
    }
}

/// The body that turns a request away: its message, the type of error that
/// stands for its status, no parameter, and its code.
pub open spec fn rejection_body(r: RejectionV) -> JsonV {
    error_json(
        rejection_message(r),
        error_type_of(rejection_status(r)),
        code_json(rejection_code(r)),
    )
}

/// Whether a model satisfies one capability name; a name that is not known
/// asks for nothing.
pub open spec fn cap_ok(cap: Seq<char>, m: ModelV) -> bool {
    if cap == "tools"@ {
        m.has_param("tools"@)
    } else if cap == "tool_choice"@ {
        m.has_param("tool_choice"@)
    } else if cap == "json_mode"@ {
        m.has_param("response_format"@)
    } else if cap == "streaming"@ {
        m.has_param("stream"@)
    } else if cap == "vision"@ {
        m.supports_vision()
    } else {
        true
    }
}

/// Whether a model satisfies every capability name of `caps` from position
/// `i` on; the names are separated by commas, and white space around a
/// name does not count.
pub open spec fn caps_ok_from(caps: Seq<char>, i: int, m: ModelV) -> bool
    decreases caps.len() - i,
{
    if 0 <= i <= caps.len() {
        let k = find_char(caps, ',', i);
        cap_ok(trim(caps.subrange(i, k)), m) && (if i <= k < caps.len() {
            caps_ok_from(caps, k + 1, m)
        } else {
            true
        })
    } else {
        true
    }
}

/// Whether a model passes a filter; without a list every model does.
pub open spec fn filter_matches(supports: Option<Seq<char>>, m: ModelV) -> bool {
    match supports {
        Some(caps) => caps_ok_from(caps, 0, m),
        None => true,
    }
}

/// The position of the first model from position `i` on that `id` names,
/// or the number of models.
pub open spec fn position_from(models: Seq<ModelV>, id: Seq<char>, i: int) -> int
    decreases models.len() - i,
{
    if 0 <= i < models.len() && !models[i].matches_display_id(id) {
        position_from(models, id, i + 1)
    } else {
        i
    }
}

/// The position of the first model that `id` names.
pub open spec fn position_of(models: Seq<ModelV>, id: Seq<char>) -> Option<int> {
    let p = position_from(models, id, 0);
    if 0 <= p < models.len() {
        Some(p)
    } else {
        None
    }
}

/// Whether a request header is passed on upstream: the headers of a fixed
/// list, and every header whose name begins with `x-`.
pub open spec fn header_forwarded(name: Seq<char>) -> bool {
    ||| name == "content-type"@
    ||| name == "accept"@
    ||| name == "accept-encoding"@
    ||| name == "authorization"@
    ||| name == "user-agent"@
    ||| name == "http-referer"@
    ||| name == "x-title"@
    ||| has_prefix(name, "x-"@)
}

/// Whether a header of the upstream response is passed back: all but
/// `transfer-encoding` and `connection`.
pub open spec fn header_relayed(name: Seq<char>) -> bool {
    name != "transfer-encoding"@ && name != "connection"@
}

/// The credential of an authorization header: what follows `Bearer `, and
/// the empty text where the header is missing or begins otherwise.
pub open spec fn bearer_of(header: Option<Seq<char>>) -> Seq<char> {
    match header {
        Some(h) => if has_prefix(h, "Bearer "@) {
            h.subrange("Bearer "@.len() as int, h.len() as int)
        } else {
            Seq::empty()
        },
        None => Seq::empty(),
    }
}

/// The model that a parsed body names, where it names one as a string.
pub open spec fn named_model(body: Option<JsonV>) -> Option<Seq<char>> {
    match body {
        Some(v) => v.get_str("model"@),
        None => None,
    }
}

/// The model that the body of a request names: nothing for an empty body,
/// for a body that is no JSON document, and for one without a string
/// member `model`.
pub open spec fn body_model(body: Seq<char>) -> Option<Seq<char>> {
    if body.len() == 0 {
        None
    } else {
        named_model(json_parse(body))
    }
}

/// What becomes of a body on the pass-through path: it stays as it is
/// where it names no model or names one by its full identifier; it is
/// written anew with the full identifier where it names a model by the
/// identifier shown to clients; and it is turned away where no model bears
/// the name.
pub open spec fn forward_of(body: Seq<char>, models: Seq<ModelV>) -> ForwardV {
    match body_model(body) {
        None => ForwardV::Unchanged,
        Some(name) => match position_of(models, name) {
            None => ForwardV::Unknown(name),
            Some(p) => if models[p].id == name {
                ForwardV::Unchanged
            } else {
                ForwardV::Renamed(
                    crate::codec::json_text(
                        json_parse(body)->0.with_member("model"@, JsonV::Str(models[p].id)),
                    ),
                )
            },
        },
    }
}

impl Forward {
    /// The mathematical value.
    pub open spec fn view(&self) -> ForwardV {
        match self {
            Forward::Unchanged => ForwardV::Unchanged,
            Forward::Renamed(body) => ForwardV::Renamed(body@),
            Forward::Unknown(name) => ForwardV::Unknown(name@),
        }
    }
}

impl Tier {
    /// The models that the tier offers.
    pub fn models(self, cache: &ModelCache) -> (r: &Vec<Model>)
        ensures
            *r == (match self {
                Tier::Free => cache.free_models,
                Tier::Stealth => cache.stealth_models,
            }),
    {
        match self {
            Tier::Free => &cache.free_models,
            Tier::Stealth => &cache.stealth_models,
        }
    }
}

/// The view of an optional text.
pub open spec fn opt_view(t: Option<&str>) -> Option<Seq<char>> {
    match t {
        Some(s) => Some(s@),
        None => None,
    }
}

/// Whether a model satisfies one capability name.
fn check_cap(cap: &str, model: &Model) -> (r: bool)
    ensures
        r == cap_ok(cap@, model@),
{
    if same(cap, "tools") {
        model.has_param("tools")
    } else if same(cap, "tool_choice") {
        model.has_param("tool_choice")
    } else if same(cap, "json_mode") {
        model.has_param("response_format")
    } else if same(cap, "streaming") {
        model.has_param("stream")
    } else if same(cap, "vision") {
        model.supports_vision()
    } else {
        true
    }
}

impl ModelFilter {
    /// A filter for the given list of capability names.
    pub fn new(supports: Option<String>) -> (r: ModelFilter)
        ensures
            r.supports == supports,
    {
        ModelFilter { supports }
    }

    /// Whether a model passes the filter.
    pub fn matches(&self, model: &Model) -> (r: bool)
        ensures
            r == filter_matches(crate::model::opt_text(self.supports), model@),
    {
        let caps = match &self.supports {
            Some(c) => chars_of(c.as_str()),
            None => {
                return true;
            },
        };
        let mut i: usize = 0;
        loop
            invariant
                i <= caps.len(),
                caps_ok_from(caps@, 0, model@) == caps_ok_from(caps@, i as int, model@),
                filter_matches(crate::model::opt_text(self.supports), model@) == caps_ok_from(
                    caps@,
                    0,
                    model@,
                ),
            decreases caps.len() - i,
        {
            let k = index_of(&caps, ',', i);
            let piece = slice(&caps, i, k);
            let (a, b) = trim_bounds(&piece);
            let name = string_of(&piece, a, b);
            if !check_cap(name.as_str(), model) {
                return false;
            }
            if k < caps.len() {
                i = k + 1;
            } else {
                return true;
            }
        }
    }
}

impl Failure {
    /// The status with which the failure is reported.
    pub fn status(self) -> (r: u16)
        ensures
            r == failure_status(self),
    {
        match self {
            Failure::MalformedBody => 400,
            Failure::MissingModel => 400,
            Failure::MissingCredential => 401,
            Failure::UpstreamTransport => 502,
            Failure::UpstreamStatus(code) => if 100 <= code && code <= 999 {
                code
            } else {
                502
            },
            Failure::UpstreamBody => 502,
        }
    }

    /// The type of error with which the failure is reported.
    pub fn error_type(self) -> (r: &'static str)
        ensures
            r@ == failure_type(self),
    {
        match self {
            Failure::MalformedBody => "invalid_request_error",
            Failure::MissingModel => "invalid_request_error",
            Failure::MissingCredential => "authentication_error",
            _ => "server_error",
        }
    }

    /// The body that reports the failure with the given message.
    pub fn body(self, message: &str) -> (r: Json)
        ensures
            r@ == error_json(message@, failure_type(self), JsonV::Null),
    {
        error_body(message, self.error_type(), Json::Null)
    }
}

/// The beginning of an upstream body that goes to the log: its first 200
/// characters, or all of it where it is shorter.
pub fn log_excerpt(text: &str) -> (r: String)
    ensures
        r@ == excerpt_of(text@, 200),
{
    excerpt(text, 200)
}

/// The error body with the given message, type and code.
pub fn error_body(message: &str, kind: &str, code: Json) -> (r: Json)
    ensures
        r@ == error_json(message@, kind@, code@),
{
    let mut inner = new_entries();
    put(&mut inner, "message", Json::string(message));
    put(&mut inner, "type", Json::string(kind));
    put(&mut inner, "param", Json::Null);
    put(&mut inner, "code", code);
    assert(entry_views(inner@) =~= seq![
        ("message"@, JsonV::Str(message@)),
        ("type"@, JsonV::Str(kind@)),
        ("param"@, JsonV::Null),
        ("code"@, code@),
    ]);
    let mut e = new_entries();
    put(&mut e, "error", Json::object(inner));
    assert(entry_views(e@) =~= error_json(message@, kind@, code@)->Object_0);
    Json::object(e)
}

impl ResponsesPlan {
    /// The mathematical value.
    pub open spec fn view(&self) -> ResponsesPlanV {
        ResponsesPlanV { model: self.model as int, api_key: self.api_key@ }
    }
}

impl Rejection {
    /// The mathematical value.
    pub open spec fn view(&self) -> RejectionV {
        match self {
            Rejection::MissingModel => RejectionV::MissingModel,
            Rejection::UnknownModel(id) => RejectionV::UnknownModel(id@),
            Rejection::MissingKey => RejectionV::MissingKey,
        }
    }

    /// The status with which the request is turned away.
    pub fn status(&self) -> (r: u16)
        ensures
            r == rejection_status(self@),
    {
        match self {
            Rejection::MissingModel => 400,
            Rejection::UnknownModel(_) => 404,
            Rejection::MissingKey => 401,
        }
    }

    /// The code in the body that turns the request away, if it has one.
    pub fn code(&self) -> (r: Option<&'static str>)
        ensures
            opt_view(r) == rejection_code(self@),
    {
        match self {
            Rejection::UnknownModel(_) => Some("model_not_found"),
            _ => None,
        }
    }

    /// The kind of failure that the rejection is, where it is one of the
    /// kinds of failure of a call.
    pub fn failure(&self) -> (r: Option<Failure>)
        ensures
            r == rejection_failure(self@),
    {
        match self {
            Rejection::MissingModel => Some(Failure::MissingModel),
            Rejection::UnknownModel(_) => None,
            Rejection::MissingKey => Some(Failure::MissingCredential),
        }
    }

    /// The message that tells the reason.
    pub fn message(&self) -> (r: String)
        ensures
            r@ == rejection_message(self@),
    {
        match self {
            Rejection::MissingModel => "missing required parameter: model".to_owned(),
            Rejection::UnknownModel(id) => {
                let mut out = "The model '".to_owned();
                out.append(id.as_str());
                out.append("' does not exist");
                out
            },
            Rejection::MissingKey => "Missing API key in Authorization header".to_owned(),
        }
    }

    /// The body that turns the request away.
    pub fn body(&self) -> (r: Json)
        ensures
            r@ == rejection_body(self@),
    {
        let message = self.message();
        Proxy::error_body(self.status(), message.as_str(), self.code())
    }
}

impl Proxy {
    /// The type of error that stands for a status.
    pub fn error_type(status: u16) -> (r: &'static str)
        ensures
            r@ == error_type_of(status),
    {
        if status == 401 {
            "authentication_error"
        } else if status == 403 {
            "permission_error"
        } else if status == 429 {
            "rate_limit_error"
        } else if 400 <= status && status <= 499 {
            "invalid_request_error"
        } else {
            "server_error"
        }
    }

    /// The error body for a status, a message and an optional code.
    pub fn error_body(status: u16, message: &str, code: Option<&str>) -> (r: Json)
        ensures
            r@ == error_json(message@, error_type_of(status), code_json(opt_view(code))),
    {
        let code = match code {
            Some(c) => Json::string(c),
            None => Json::Null,
        };
        error_body(message, Proxy::error_type(status), code)
    }

    /// The model that the body of a request names: nothing for an empty
    /// body, for a body that is no JSON document, and for one without a
    /// string member `model`.
    pub fn extract_model(body: &str) -> (r: Option<String>)
        ensures
            crate::model::opt_text(r) == body_model(body@),
    {
        if body.is_empty() {
            return None;
        }
        match parse(body) {
            Some(v) => match v.get_str("model") {
                Some(m) => Some(m.to_owned()),
                None => None,
            },
            None => None,
        }
    }

    /// The position of the first model that `id` names.
    pub fn find_model(models: &[Model], id: &str) -> (r: Option<usize>)
        ensures
            match r {
                Some(p) => position_of(model_views(models@), id@) == Some(p as int),
                None => position_of(model_views(models@), id@) is None,
            },
    {
        let ghost all = model_views(models@);
        let mut i: usize = 0;
        while i < models.len()
            invariant
                i <= models.len(),
                all == model_views(models@),
                position_from(all, id@, 0) == position_from(all, id@, i as int),
            decreases models.len() - i,
        {
            if models[i].matches_display_id(id) {
                return Some(i);
            }
            i += 1;
        }
        None
    }

    /// Decides what becomes of the body of a request on the pass-through
    /// path.
    pub fn plan_forward(body: &str, models: &[Model]) -> (r: Forward)
        ensures
            r@ == forward_of(body@, model_views(models@)),
    {
        if body.is_empty() {
            return Forward::Unchanged;
        }
        let doc = match parse(body) {
            Some(v) => v,
            None => {
                return Forward::Unchanged;
            },
        };
        let name = match doc.get_str("model") {
            Some(m) => m.to_owned(),
            None => {
                return Forward::Unchanged;
            },
        };
        match Proxy::find_model(models, name.as_str()) {
            None => Forward::Unknown(name),
            Some(p) => {
                if same(models[p].id.as_str(), name.as_str()) {
                    Forward::Unchanged
                } else {
                    let renamed = doc.with_member("model", Json::string(models[p].id.as_str()));
                    Forward::Renamed(crate::codec::render(&renamed))
                }
            },
        }
    }

    /// Whether a request header is passed on upstream.
    pub fn forwards_header(name: &str) -> (r: bool)
        ensures
            r == header_forwarded(name@),
    {
        same(name, "content-type") || same(name, "accept") || same(name, "accept-encoding")
            || same(name, "authorization") || same(name, "user-agent") || same(
            name,
            "http-referer",
        ) || same(name, "x-title") || starts_with(&chars_of(name), &chars_of("x-"))
    }

    /// Whether a header of the upstream response is passed back.
    pub fn relays_header(name: &str) -> (r: bool)
        ensures
            r == header_relayed(name@),
    {
        !same(name, "transfer-encoding") && !same(name, "connection")
    }

    /// The credential of an authorization header.
    pub fn bearer_key(header: Option<&str>) -> (r: String)
        ensures
            r@ == bearer_of(opt_view(header)),
    {
        match header {
            Some(h) => {
                let chars = chars_of(h);
                let prefix = chars_of("Bearer ");
                if starts_with(&chars, &prefix) {
                    string_of(&chars, prefix.len(), chars.len())
                } else {
                    String::new()
                }
            },
            None => String::new(),
        }
    }

    /// Decides what becomes of a Responses request with the parsed body
    /// `body`: it is turned away where it names no model, then where no
    /// model of the tier bears that name, then where it carries no
    /// credential; otherwise the model and the credential go to the
    /// translator.
    pub fn plan_responses(body: &Json, authorization: Option<&str>, models: &[Model]) -> (r: Result<
        ResponsesPlan,
        Rejection,
    >)
        ensures
            match r {
                Ok(plan) => responses_plan(body@, opt_view(authorization), model_views(models@))
                    == Ok::<ResponsesPlanV, RejectionV>(plan@),
                Err(rejection) => responses_plan(
                    body@,
                    opt_view(authorization),
                    model_views(models@),
                ) == Err::<ResponsesPlanV, RejectionV>(rejection@),
            },
    {
        proof {
            lemma_empty_text();
        }
        let name = crate::request::get_str_or(body, "model", "");
        if name.is_empty() {
            return Err(Rejection::MissingModel);
        }
        let model = match Proxy::find_model(models, name) {
            Some(p) => p,
            None => {
                return Err(Rejection::UnknownModel(name.to_owned()));
            },
        };
        let api_key = Proxy::bearer_key(authorization);
        if api_key.as_str().is_empty() {
            return Err(Rejection::MissingKey);
        }
        Ok(ResponsesPlan { model, api_key })
    }
}

} // verus!
