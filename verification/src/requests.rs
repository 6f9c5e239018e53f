//! What a client asks for over its stream.
use crate::controls::{control_needs_persistence, radar_to_save, Control};
use crate::json::{control_value_from_put, document, put_document, PutBody};
use crate::response::{StreamPutResponse, BAD_REQUEST, NOT_FOUND};
use crate::text::concat_two;
use crate::updates::{handle_subscription, sendings_on_subscription, Sending};
use serde_json::Value;
use vstd::prelude::*;

verus! {

/// A Signal K PUT over the stream, which is how a client that talks to any
/// Signal K server writes a value.
pub struct StreamPut {
    /// Echoed back so that a client can match the answer to what it asked.
    pub request_id: Option<String>,
    pub put: PutBody,
}

/// A request over the stream. What is read is the first of these that fits.
pub enum StreamRequest<W, S, D> {
    RadarControlValue(W),
    Subscription(S),
    Desubscription(D),
    Put(StreamPut),
}

/// What is to be done about a request over the stream.
pub enum StreamTask<W, S, D> {
    /// Write to a control.
    Write(W),
    Subscribe(S),
    Desubscribe(D),
    /// Write to a control as this document says, and answer the request with
    /// that id.
    Put { request_id: Option<String>, write: Value },
}

/// What a client is told that sent a request which cannot be read.
pub open spec fn unreadable_request_text(reason: Seq<char>) -> Seq<char> {
    "Cannot read this request: "@ + reason
}

/// Decides on a request over the stream, as it was read or could not be. One
/// that cannot be read is answered too: saying nothing would leave a client
/// waiting for an answer that is never coming.
pub fn handle_client_request<W, S, D>(
    read: Result<StreamRequest<W, S, D>, String>,
) -> (decision: Result<StreamTask<W, S, D>, StreamPutResponse>)
    ensures
        match read {
            Err(reason) => decision matches Err(response) && response.fails(
                None,
                BAD_REQUEST,
                unreadable_request_text(reason@),
            ),
            Ok(StreamRequest::RadarControlValue(write)) => decision == Ok::<
                StreamTask<W, S, D>,
                StreamPutResponse,
            >(StreamTask::Write(write)),
            Ok(StreamRequest::Subscription(subscription)) => decision == Ok::<
                StreamTask<W, S, D>,
                StreamPutResponse,
            >(StreamTask::Subscribe(subscription)),
            Ok(StreamRequest::Desubscription(desubscription)) => decision == Ok::<
                StreamTask<W, S, D>,
                StreamPutResponse,
            >(StreamTask::Desubscribe(desubscription)),
            Ok(StreamRequest::Put(asked)) => decision matches Ok(task) && task matches StreamTask::Put {
                request_id,
                write,
            } && request_id == asked.request_id && document(write) == put_document(
                asked.put.path@,
                document(asked.put.value),
            ),
        },
{
    match read {
        Err(reason) => Err(
            StreamPutResponse::failed(
                None,
                BAD_REQUEST,
                concat_two("Cannot read this request: ", reason.as_str()),
            ),
        ),
        Ok(StreamRequest::RadarControlValue(write)) => Ok(StreamTask::Write(write)),
        Ok(StreamRequest::Subscription(subscription)) => Ok(StreamTask::Subscribe(subscription)),
        Ok(StreamRequest::Desubscription(desubscription)) => Ok(
            StreamTask::Desubscribe(desubscription),
        ),
        Ok(StreamRequest::Put(asked)) => Ok(
            StreamTask::Put {
                request_id: asked.request_id,
                write: control_value_from_put(asked.put),
            },
        ),
    }
}

/// What was done about a request that is no PUT.
#[derive(Clone, Copy, Debug, PartialEq, Eq, Structural)]
pub enum Performed {
    /// A control was written to.
    Write,
    /// Subscriptions were added, AIS vessels among them or not.
    Subscribe { ais: bool },
    Desubscribe,
}

/// Lists what is sent once a request is carried out. Only a subscription makes
/// anything be sent.
pub fn sendings_after(performed: Performed) -> (sendings: Vec<Sending>)
    ensures
        sendings@ == (match performed {
            Performed::Subscribe { ais } => sendings_on_subscription(ais),
            _ => seq![],
        }),
{
    match performed {
        Performed::Subscribe { ais } => handle_subscription(ais),
        _ => Vec::new(),
    }
}

/// What a client is told at the end of a request that is no PUT: the reason
/// where it failed, and nothing where it did not.
pub fn request_error(result: Result<(), String>) -> (error: Option<String>)
    ensures
        error == (match result {
            Ok(_) => None,
            Err(reason) => Some(reason),
        }),
{
    match result {
        Ok(_) => None,
        Err(reason) => Some(reason),
    }
}

/// Why something could not be done with a radar.
pub enum RadarError {
    /// There is no radar of that name.
    NoSuchRadar(String),
    /// That path names no control.
    CannotParseControlId(String),
    /// Anything else.
    Other(String),
}

/// A radar that a write over the stream is meant for, and the control.
pub struct StreamTarget {
    pub radar_key: String,
    pub control: Control,
}

/// The radar that the path of a write over the stream names.
pub struct NamedRadar {
    pub radar_id: String,
    /// The radar, or nothing where there is none of that name.
    pub found: Option<StreamTarget>,
}

/// What is to be done about a write over the stream.
pub struct StreamWriteDecision {
    /// Whether the radar is to be woken up: someone is interacting with it.
    pub wake: bool,
    /// The radar that the write is to be handed to, or what is wrong with it.
    pub outcome: Result<StreamTarget, RadarError>,
}

/// Decides on a write over the stream, by its path and by the radar that the
/// path names, if it names one.
pub fn handle_control_request(path: String, named: Option<NamedRadar>) -> (decision:
    StreamWriteDecision)
    ensures
        match named {
            None => !decision.wake && decision.outcome == Err::<StreamTarget, RadarError>(
                RadarError::CannotParseControlId(path),
            ),
            Some(radar) => match radar.found {
                None => !decision.wake && decision.outcome == Err::<StreamTarget, RadarError>(
                    RadarError::NoSuchRadar(radar.radar_id),
                ),
                Some(target) => decision.wake && decision.outcome == Ok::<StreamTarget, RadarError>(
                    target,
                ),
            },
        },
{
    match named {
        None => StreamWriteDecision {
            wake: false,
            outcome: Err(RadarError::CannotParseControlId(path)),
        },
        Some(radar) => match radar.found {
            None => StreamWriteDecision {
                wake: false,
                outcome: Err(RadarError::NoSuchRadar(radar.radar_id)),
            },
            Some(target) => StreamWriteDecision { wake: true, outcome: Ok(target) },
        },
    }
}

/// What follows from a write over the stream.
pub struct StreamWriteEnd {
    /// The control that is reported as working, if one is.
    pub note: Option<String>,
    /// The radar whose settings are to be written to disk, if any is.
    pub save: Option<String>,
    pub result: Result<(), RadarError>,
}

impl StreamTarget {
    /// Goes on from what the radar said when the write was handed to it.
    pub fn submitted(self, result: Result<(), RadarError>) -> (end: StreamWriteEnd)
        ensures
            end.result == result,
            end.note == (if result is Ok {
                Some(self.control.name)
            } else {
                None
            }),
            end.save == (if result is Ok {
                radar_to_save(self.control.id, self.radar_key)
            } else {
                None
            }),
    {
        match result {
            Ok(done) => {
                let save = if control_needs_persistence(self.control.id) {
                    Some(self.radar_key)
                } else {
                    None
                };
                StreamWriteEnd { note: Some(self.control.name), save, result: Ok(done) }
            },
            Err(error) => StreamWriteEnd { note: None, save: None, result: Err(error) },
        }
    }
}

/// What came of a Signal K PUT.
pub enum PutOutcome {
    /// The value cannot be read as one of the control.
    Unreadable(String),
    Completed,
    /// It failed, and this is how the failure reads.
    Failed(RadarError, String),
}

/// What a client is told whose PUT has a value that cannot be read.
pub open spec fn unreadable_value_text(reason: Seq<char>) -> Seq<char> {
    "Cannot read the value to put: "@ + reason
}

/// The status of a failed PUT: what is not there is not found.
pub open spec fn failure_status(error: RadarError) -> u16 {
    match error {
        RadarError::NoSuchRadar(_) => NOT_FOUND,
        RadarError::CannotParseControlId(_) => NOT_FOUND,
        RadarError::Other(_) => BAD_REQUEST,
    }
}

/// Answers a Signal K PUT, whichever way it went. A client waits on the answer
/// to know its request was seen at all.
pub fn handle_put_request(request_id: Option<String>, outcome: PutOutcome) -> (response:
    StreamPutResponse)
    ensures
        response.request_id == request_id,
        match outcome {
            PutOutcome::Unreadable(reason) => response.fails(
                request_id,
                BAD_REQUEST,
                unreadable_value_text(reason@),
            ),
            PutOutcome::Completed => response.completes(request_id),
            PutOutcome::Failed(error, message) => response.fails(
                request_id,
                failure_status(error),
                message@,
            ),
        },
{
    match outcome {
        PutOutcome::Unreadable(reason) => StreamPutResponse::failed(
            request_id,
            BAD_REQUEST,
            concat_two("Cannot read the value to put: ", reason.as_str()),
        ),
        PutOutcome::Completed => StreamPutResponse::completed(request_id),
        PutOutcome::Failed(error, message) => {
            let status: u16 = match error {
                RadarError::NoSuchRadar(_) => NOT_FOUND,
                RadarError::CannotParseControlId(_) => NOT_FOUND,
                RadarError::Other(_) => BAD_REQUEST,
            };
            StreamPutResponse::failed(request_id, status, message)
        },
    }
}

/// A PUT is answered that something was not found exactly where the radar or the
/// control is not there, and that it was no good request in any other failure.
pub proof fn what_is_not_there_is_not_found(error: RadarError)
    ensures
        failure_status(error) == 404 <==> error is NoSuchRadar || error is CannotParseControlId,
        failure_status(error) == 400 <==> error is Other,
{
}

/// A client is told the reason, whatever it is, behind what could not be read.
pub proof fn reasons_are_told(reason: Seq<char>)
    ensures
        unreadable_request_text(reason).take(26) == "Cannot read this request: "@,
        unreadable_request_text(reason).skip(26) == reason,
        unreadable_value_text(reason).take(30) == "Cannot read the value to put: "@,
        unreadable_value_text(reason).skip(30) == reason,
{
    reveal_strlit("Cannot read this request: ");
    reveal_strlit("Cannot read the value to put: ");
    assert("Cannot read this request: "@.len() == 26);
    assert("Cannot read the value to put: "@.len() == 30);
    assert(unreadable_request_text(reason).take(26) =~= "Cannot read this request: "@);
    assert(unreadable_request_text(reason).skip(26) =~= reason);
    assert(unreadable_value_text(reason).take(30) =~= "Cannot read the value to put: "@);
    assert(unreadable_value_text(reason).skip(30) =~= reason);
}

} // verus!
