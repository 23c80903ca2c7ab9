//! The decisions of the JWT-bearer token exchange: the request body sent to the
//! token endpoint, and what a response means.
use vstd::prelude::*;
use vstd::string::*;
use crate::json::{json_string, push_json_string};

verus! {

/// The OAuth2 grant type of the exchange.
pub const GRANT_TYPE: &'static str = "urn:ietf:params:oauth:grant-type:jwt-bearer";

/// Why the exchange produced no bearer token.
#[derive(Debug, Clone, PartialEq, Eq)]
pub enum ExchangeError {
    /// The request could not be sent or no response came; the detail says why.
    Transport(String),
    /// The endpoint answered with a status outside 200..=299.
    Status(u16),
    /// The body of a successful response could not be read as text.
    UnreadableBody,
}

/// The JSON object posted to the token endpoint for the signed token `jwt`.
pub open spec fn request_text(jwt: Seq<char>) -> Seq<char> {
    "{\"grant_type\":"@ + json_string(GRANT_TYPE@) + ",\"assertion\":"@ + json_string(jwt) + "}"@
}

/// A status of the 2xx class.
pub open spec fn is_success_status(status: u16) -> bool {
    200 <= status <= 299
}

/// The request body for exchanging the signed token `jwt`: exactly the fields
/// `grant_type` and `assertion`.
pub fn request_body(jwt: &str) -> (r: String)
    ensures
        r@ == request_text(jwt@),
{
    let mut out = String::from_str("{\"grant_type\":");
    push_json_string(&mut out, GRANT_TYPE);
    out.append(",\"assertion\":");
    push_json_string(&mut out, jwt);
    out.append("}");
    out
}

/// Whether `status` means success.
pub fn is_success(status: u16) -> (r: bool)
    ensures
        r == is_success_status(status),
{
    200 <= status && status <= 299
}

/// The result of the exchange from the response's status and its body, read
/// as text (`None` where it could not be read): the body itself, unparsed, on
/// success; otherwise the error that carries the status.
pub fn exchange_outcome(status: u16, body: Option<String>) -> (r: Result<String, ExchangeError>)
    ensures
        !is_success_status(status) ==> r == Err::<String, ExchangeError>(
            ExchangeError::Status(status),
        ),
        is_success_status(status) && body is None ==> r == Err::<String, ExchangeError>(
            ExchangeError::UnreadableBody,
        ),
        is_success_status(status) && body is Some ==> r == Ok::<String, ExchangeError>(
            body->Some_0,
        ),
{
    if !is_success(status) {
        Err(ExchangeError::Status(status))
    } else {
        match body {
            Some(text) => Ok(text),
            None => Err(ExchangeError::UnreadableBody),
        }
    }
}

} // verus!
