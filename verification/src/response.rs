//! The answers that a Signal K server gives.
use crate::order::texts_of;
use crate::text::{quote_list, quoted_list};
use vstd::prelude::*;

verus! {

/// The request was carried out.
pub const OK: u16 = 200;

/// The request cannot be carried out as it stands.
pub const BAD_REQUEST: u16 = 400;

/// The request names something that is not there.
pub const NOT_FOUND: u16 = 404;

/// The server itself failed.
pub const INTERNAL_SERVER_ERROR: u16 = 500;

/// The answer Signal K servers give to a request that changes something, and
/// to every request that failed.
pub struct SignalKResponse {
    /// `COMPLETED` when the request was carried out, `FAILED` otherwise.
    pub state: &'static str,
    /// Repeated from the HTTP status, as Signal K clients read it from here.
    pub status_code: u16,
    pub message: String,
}

impl SignalKResponse {
    /// Whether this says that the request was carried out.
    pub open spec fn completes(self) -> bool {
        &&& self.state@ == "COMPLETED"@
        &&& self.status_code == OK
        &&& self.message@ == "OK"@
    }

    /// Whether this says that the request failed, with that status and for that
    /// reason.
    pub open spec fn fails(self, status: u16, message: Seq<char>) -> bool {
        &&& self.state@ == "FAILED"@
        &&& self.status_code == status
        &&& self.message@ == message
    }

    /// The answer to a request that was carried out.
    pub fn ok() -> (response: SignalKResponse)
        ensures
            response.completes(),
    {
        SignalKResponse { state: "COMPLETED", status_code: OK, message: "OK".to_owned() }
    }

    /// The answer to a request that failed.
    pub fn failed(status: u16, message: String) -> (response: SignalKResponse)
        ensures
            response.fails(status, message@),
    {
        SignalKResponse { state: "FAILED", status_code: status, message }
    }

    /// The answer to a request whose body cannot be read.
    pub fn unreadable_body(reason: String) -> (response: SignalKResponse)
        ensures
            response.fails(BAD_REQUEST, reason@),
    {
        SignalKResponse::failed(BAD_REQUEST, reason)
    }

    /// The HTTP status that the answer travels under: the one it repeats, or
    /// that of a server error where it repeats none that HTTP has.
    pub fn http_status(&self) -> (status: u16)
        ensures
            status == (if is_http_status(self.status_code) {
                self.status_code
            } else {
                INTERNAL_SERVER_ERROR
            }),
    {
        match http_status_of(self.status_code) {
            Some(status) => status,
            None => INTERNAL_SERVER_ERROR,
        }
    }
}

/// Whether a number can be an HTTP status.
pub open spec fn is_http_status(code: u16) -> bool {
    100 <= code < 1000
}

/// `http::StatusCode::from_u16`, with the status taken back to its number by
/// `as_u16`: a number from 100 to 999 is a status, which keeps that number,
/// and no other number is one.
#[verifier::external_body]
fn http_status_of(code: u16) -> (status: Option<u16>)
    ensures
        status == (if is_http_status(code) {
            Some(code)
        } else {
            None
        }),
{
    http::StatusCode::from_u16(code).ok().map(|status| status.as_u16())
}

/// What a client is told that asked for a radar which is not there.
pub open spec fn no_such_radar_text(radar_id: Seq<char>, keys: Seq<Seq<char>>) -> Seq<char> {
    "Unknown radar '"@ + radar_id + "' -- use "@ + quoted_list(keys) + " instead"@
}

/// The answer to a request for a radar that is not there. It names those that
/// are.
pub fn no_such_radar(radar_id: &str, keys: &Vec<String>) -> (response: SignalKResponse)
    ensures
        response.fails(NOT_FOUND, no_such_radar_text(radar_id@, texts_of(keys@))),
{
    let mut message = "Unknown radar '".to_owned();
    message.append(radar_id);
    message.append("' -- use ");
    message.append(quote_list(keys).as_str());
    message.append(" instead");
    SignalKResponse::failed(NOT_FOUND, message)
}

/// The outcome of looking for a radar by its key.
pub enum RadarLookup<R> {
    Found(R),
    /// There is none; these are the keys of those there are.
    Missing(Vec<String>),
}

/// Hands out the radar that was looked for, or the answer that it is not there.
pub fn find_radar<R>(radar_id: &str, lookup: RadarLookup<R>) -> (radar: Result<R, SignalKResponse>)
    ensures
        match lookup {
            RadarLookup::Found(found) => radar == Ok::<R, SignalKResponse>(found),
            RadarLookup::Missing(keys) => radar matches Err(response) && response.fails(
                NOT_FOUND,
                no_such_radar_text(radar_id@, texts_of(keys@)),
            ),
        },
{
    match lookup {
        RadarLookup::Found(found) => Ok(found),
        RadarLookup::Missing(keys) => Err(no_such_radar(radar_id, &keys)),
    }
}

/// The answer to a Signal K PUT over the stream. It carries the id of the
/// request it belongs to: a client may have several outstanding on one socket.
pub struct StreamPutResponse {
    pub request_id: Option<String>,
    /// `COMPLETED` when the request was carried out, `FAILED` otherwise.
    pub state: &'static str,
    pub status_code: u16,
    pub message: Option<String>,
}

impl StreamPutResponse {
    /// Whether this tells the request with that id that it was carried out.
    pub open spec fn completes(self, request_id: Option<String>) -> bool {
        &&& self.request_id == request_id
        &&& self.state@ == "COMPLETED"@
        &&& self.status_code == OK
        &&& self.message is None
    }

    /// Whether this tells the request with that id that it failed, with that
    /// status and for that reason.
    pub open spec fn fails(
        self,
        request_id: Option<String>,
        status: u16,
        message: Seq<char>,
    ) -> bool {
        &&& self.request_id == request_id
        &&& self.state@ == "FAILED"@
        &&& self.status_code == status
        &&& self.message matches Some(text) && text@ == message
    }

    /// The answer to a PUT that was carried out.
    pub fn completed(request_id: Option<String>) -> (response: StreamPutResponse)
        ensures
            response.completes(request_id),
    {
        StreamPutResponse { request_id, state: "COMPLETED", status_code: OK, message: None }
    }

    /// The answer to a PUT that failed.
    pub fn failed(request_id: Option<String>, status: u16, message: String) -> (response:
        StreamPutResponse)
        ensures
            response.fails(request_id, status, message@),
    {
        StreamPutResponse {
            request_id,
            state: "FAILED",
            status_code: status,
            message: Some(message),
        }
    }
}

/// No answer says both that a request was carried out and that it failed.
pub proof fn completing_is_not_failing(
    response: SignalKResponse,
    status: u16,
    message: Seq<char>,
)
    requires
        response.completes(),
    ensures
        !response.fails(status, message),
{
    reveal_strlit("COMPLETED");
    reveal_strlit("FAILED");
    assert("COMPLETED"@.len() != "FAILED"@.len());
}

/// An answer says that a request was carried out by its state, its status and its
/// message together, and that it failed by state, status and reason.
pub proof fn answers_say_how_it_went(
    response: SignalKResponse,
    status: u16,
    message: Seq<char>,
)
    ensures
        response.completes() <==> response.state@ == "COMPLETED"@ && response.status_code == 200
            && response.message@ == "OK"@,
        response.fails(status, message) <==> response.state@ == "FAILED"@ && response.status_code
            == status && response.message@ == message,
{
}

/// An answer to a PUT carries the id of the request, and says how it went; there
/// is a reason exactly where it failed.
pub proof fn put_answers_say_how_it_went(
    response: StreamPutResponse,
    request_id: Option<String>,
    status: u16,
    reason: String,
)
    ensures
        response.completes(request_id) <==> response.request_id == request_id
            && response.state@ == "COMPLETED"@ && response.status_code == 200
            && response.message is None,
        response.fails(request_id, status, reason@) <==> response.request_id == request_id
            && response.state@ == "FAILED"@ && response.status_code == status && (
        response.message is Some && response.message->0@ == reason@),
{
}

/// HTTP has the statuses from 100 to 999.
pub proof fn http_statuses_have_three_digits(code: u16)
    ensures
        is_http_status(code) <==> 1 <= code / 100 <= 9,
{
}

/// A client that asked for a radar which is not there is told the name it asked
/// for and the names there are.
pub proof fn missing_radar_is_told(radar_id: Seq<char>, keys: Seq<Seq<char>>)
    ensures
        no_such_radar_text(radar_id, keys) == ("Unknown radar '"@ + radar_id) + ("' -- use "@ + (
        quoted_list(keys) + " instead"@)),
{
    assert(no_such_radar_text(radar_id, keys) =~= ("Unknown radar '"@ + radar_id) + (
    "' -- use "@ + (quoted_list(keys) + " instead"@)));
}

} // verus!
