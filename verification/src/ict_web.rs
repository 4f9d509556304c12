//! What the broker answers over the network: which request reaches which
//! operation, and what a transport sends back for each outcome.

use vstd::prelude::*;
use crate::ict_codec::same_text;
use crate::ict_errors::ICTError;

verus! {

/// The operation that a request is for.
#[derive(Debug, Clone, Copy, PartialEq, Eq, Structural)]
pub enum Route {
    /// `POST /register`
    Register,
    /// `POST /operate`
    Operate,
    /// `GET /stats`
    Stats,
    /// Anything else.
    Unknown,
}

/// What a transport sends back.
#[derive(Debug, Clone, PartialEq, Eq)]
pub enum Reply {
    /// Status 200 and the wrapped secret, which the transport puts into a
    /// JSON object.
    Secret(String),
    /// A status and a plain text.
    Text(u16, String),
}

/// The operation that the method and the path of a request select.
pub open spec fn route_of(method: Seq<char>, url: Seq<char>) -> Route {
    if method == "POST"@ && url == "/register"@ {
        Route::Register
    } else if method == "POST"@ && url == "/operate"@ {
        Route::Operate
    } else if method == "GET"@ && url == "/stats"@ {
        Route::Stats
    } else {
        Route::Unknown
    }
}

/// The status and the text for a failure: a refusal is answered with 400 and
/// the text `refusal`, whatever its kind; a fault of the broker with 500 and
/// a text of its own.
pub open spec fn failure_reply(e: ICTError, refusal: Seq<char>) -> (u16, Seq<char>) {
    if e.is_denial() {
        (400, refusal)
    } else {
        (500, "Server Failure"@)
    }
}

/// Whether `reply` is the text reply with the status and the text of `to`.
pub open spec fn is_text(reply: Reply, to: (u16, Seq<char>)) -> bool {
    reply matches Reply::Text(status, text) && status == to.0 && text@ == to.1
}

/// The operation that the method and the path of a request select.
pub fn route(method: &str, url: &str) -> (r: Route)
    ensures
        r == route_of(method@, url@),
{
    if same_text(method, "POST") && same_text(url, "/register") {
        Route::Register
    } else if same_text(method, "POST") && same_text(url, "/operate") {
        Route::Operate
    } else if same_text(method, "GET") && same_text(url, "/stats") {
        Route::Stats
    } else {
        Route::Unknown
    }
}

/// The reply to a failure, see [`failure_reply`].
fn failed(e: &ICTError, refusal: &str) -> (reply: Reply)
    ensures
        is_text(reply, failure_reply(*e, refusal@)),
{
    if e.status() == 400 {
        Reply::Text(400, refusal.to_owned())
    } else {
        Reply::Text(500, "Server Failure".to_owned())
    }
}

/// The reply to a registration: the wrapped secret, or status 400 with
/// `Registration Failed` for every kind of refusal.
pub fn register_reply(outcome: &Result<String, ICTError>) -> (reply: Reply)
    ensures
        match *outcome {
            Ok(wrapped) => reply matches Reply::Secret(text) && text@ == wrapped@,
            Err(e) => is_text(reply, failure_reply(e, "Registration Failed"@)),
        },
{
    match outcome {
        Ok(wrapped) => Reply::Secret(wrapped.clone()),
        Err(e) => failed(e, "Registration Failed"),
    }
}

/// The reply to an operate request: status 200 where it was granted, and
/// status 400 with `Operate Failed` for every kind of refusal, so that the
/// reply does not tell which gate refused.
pub fn operate_reply(outcome: &Result<bool, ICTError>) -> (reply: Reply)
    ensures
        match *outcome {
            Ok(true) => is_text(reply, (200, "Operate successful"@)),
            Ok(false) => is_text(reply, (400, "Operate Failed"@)),
            Err(e) => is_text(reply, failure_reply(e, "Operate Failed"@)),
        },
{
    match outcome {
        Ok(true) => Reply::Text(200, "Operate successful".to_owned()),
        Ok(false) => Reply::Text(400, "Operate Failed".to_owned()),
        Err(e) => failed(e, "Operate Failed"),
    }
}

/// The reply to a request whose body is not the JSON expected.
pub fn invalid_json_reply() -> (reply: Reply)
    ensures
        is_text(reply, (400, "Invalid JSON"@)),
{
    Reply::Text(400, "Invalid JSON".to_owned())
}

/// The reply to the liveness probe.
pub fn stats_reply() -> (reply: Reply)
    ensures
        is_text(reply, (200, "Server up and running"@)),
{
    Reply::Text(200, "Server up and running".to_owned())
}

/// The reply to a request that is for no operation: status 404, no text.
pub fn unknown_reply() -> (reply: Reply)
    ensures
        is_text(reply, (404, Seq::<char>::empty())),
{
    Reply::Text(404, String::new())
}

} // verus!
