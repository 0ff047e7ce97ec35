//! How the entry point turns a request away, held against the kinds of
//! failure of a call.

use crate::gateway::{
    bearer_of, error_json, error_type_of, failure_status, failure_type, position_of,
    rejection_body, rejection_failure, rejection_message, rejection_status, responses_plan,
    RejectionV, ResponsesPlanV,
};
use crate::json::JsonV;
use crate::model::ModelV;
use crate::text::has_prefix;
use vstd::prelude::*;

verus! {

/// Rejections: a request without a model and a request without a
/// credential are turned away as the failures of their kind are reported:
/// with the status and the type of error of the kind, and with no code.
pub proof fn law_rejection_is_failure(r: RejectionV)
    requires
        rejection_failure(r) is Some,
    ensures
        rejection_status(r) == failure_status(rejection_failure(r)->0),
        rejection_body(r) == error_json(
            rejection_message(r),
            failure_type(rejection_failure(r)->0),
            JsonV::Null,
        ),
        r is MissingModel ==> rejection_status(r) == 400 && error_type_of(rejection_status(r))
            == "invalid_request_error"@,
        r is MissingKey ==> rejection_status(r) == 401 && error_type_of(rejection_status(r))
            == "authentication_error"@,
{
}

/// Request without a model: a Responses request whose body has no string
/// member `model`, or an empty one, is turned away with the status 400 and
/// a body of the type `invalid_request_error`, with no parameter and no
/// code, whatever its credential and the models of the tier.
pub proof fn law_missing_model(
    body: JsonV,
    authorization: Option<Seq<char>>,
    models: Seq<ModelV>,
)
    requires
        body.get_str("model"@) is None || body.get_str("model"@)->0.len() == 0,
    ensures
        responses_plan(body, authorization, models) == Err::<ResponsesPlanV, RejectionV>(
            RejectionV::MissingModel,
        ),
        rejection_status(RejectionV::MissingModel) == 400,
        rejection_body(RejectionV::MissingModel) == error_json(
            "missing required parameter: model"@,
            "invalid_request_error"@,
            JsonV::Null,
        ),
{
}

/// Request without a credential: a Responses request that names a model of
/// the tier, and whose authorization header is missing, does not begin
/// with `Bearer `, or gives an empty key, is turned away with the status
/// 401 and a body of the type `authentication_error`, with no parameter
/// and no code. A request that names a model that the tier does not offer
/// is turned away before its credential is looked at.
pub proof fn law_missing_credential(
    body: JsonV,
    authorization: Option<Seq<char>>,
    models: Seq<ModelV>,
)
    requires
        body.get_str("model"@) is Some,
        body.get_str("model"@)->0.len() > 0,
        bearer_of(authorization).len() == 0,
    ensures
        position_of(models, body.get_str("model"@)->0) is Some ==> responses_plan(
            body,
            authorization,
            models,
        ) == Err::<ResponsesPlanV, RejectionV>(RejectionV::MissingKey),
        position_of(models, body.get_str("model"@)->0) is None ==> responses_plan(
            body,
            authorization,
            models,
        ) == Err::<ResponsesPlanV, RejectionV>(
            RejectionV::UnknownModel(body.get_str("model"@)->0),
        ),
        rejection_status(RejectionV::MissingKey) == 401,
        rejection_body(RejectionV::MissingKey) == error_json(
            "Missing API key in Authorization header"@,
            "authentication_error"@,
            JsonV::Null,
        ),
        authorization is None || !has_prefix(authorization->0, "Bearer "@)
            || authorization->0.len() == "Bearer "@.len() ==> bearer_of(authorization).len() == 0,
{
}

} // verus!
