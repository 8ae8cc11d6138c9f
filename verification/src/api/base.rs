//! The base endpoint: a liveness and API-version probe that always
//! succeeds, with the statuses its other outcomes would map to.

use vstd::prelude::*;
use crate::errors::{code_chars, RegistryError};

verus! {

/// The possible responses of the version probe. Only success is ever produced
/// by this registry; the other outcomes exist for authentication and
/// rate-limiting layers around it.
pub enum GetBaseResponse {
    Success,
    NotFound,
    Unauthorized,
    TooManyRequests,
}

/// The version probe: the API is implemented and accessible.
pub fn base() -> (response: GetBaseResponse)
    ensures
        response is Success,
{
    GetBaseResponse::Success
}

impl GetBaseResponse {
    /// The HTTP status this response maps to: success, an authentication
    /// challenge, or — for outcomes this registry does not produce — an
    /// internal error carrying the unsupported-operation code.
    pub fn status(&self) -> (status: u16)
        ensures
            status == match *self {
                GetBaseResponse::Success => 200u16,
                GetBaseResponse::Unauthorized => 401u16,
                _ => 500u16,
            },
    {
        match self {
            GetBaseResponse::Success => 200,
            GetBaseResponse::Unauthorized => 401,
            _ => 500,
        }
    }

    /// The error kind reported in the response body, where one is: the
    /// authentication error for a challenge, the unsupported-operation
    /// error for the outcomes this registry does not produce.
    pub fn error(&self) -> (err: Option<RegistryError>)
        ensures
            err == match *self {
                GetBaseResponse::Success => None::<RegistryError>,
                GetBaseResponse::Unauthorized => Some(RegistryError::Unauthorized),
                _ => Some(RegistryError::Unsupported),
            },
    {
        match self {
            GetBaseResponse::Success => None,
            GetBaseResponse::Unauthorized => Some(RegistryError::Unauthorized),
            _ => Some(RegistryError::Unsupported),
        }
    }
}

/// The JSON error body of a failed request: one error record with its code
/// and message.
pub open spec fn error_body_chars(err: RegistryError) -> Seq<char> {
    "{\"errors\":[{\"code\":\""@ + code_chars(err) + "\",\"message\":\""@ + crate::errors::message_chars(
        err,
    ) + "\"}]}"@
}

/// Render the JSON error body of an error kind. Codes and messages contain
/// no characters that JSON strings would need escaped.
pub fn error_body(err: &RegistryError) -> (body: String)
    ensures
        body@ == error_body_chars(*err),
{
    let details = crate::errors::RegistryErrorDetails::from(*err);
    let mut body = String::from_str("{\"errors\":[{\"code\":\"");
    body.append(details.code.as_str());
    body.append("\",\"message\":\"");
    body.append(details.message.as_str());
    body.append("\"}]}");
    body
}

} // verus!
