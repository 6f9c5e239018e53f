//! A client's stream, from the request for it to its end.
use crate::order::same_text;
use crate::response::{SignalKResponse, BAD_REQUEST};
use crate::text::concat_three;
use vstd::prelude::*;

verus! {

/// What a client is sent without having subscribed to it.
#[derive(Clone, Copy, Debug, PartialEq, Eq, Structural)]
pub enum Subscribe {
    All,
    /// What concerns the own ship.
    SelfOnly,
    Nothing,
}

/// How a client asks for a stream.
pub struct SignalKWebSocket {
    /// `all`, which is also meant where nothing is said, `self` or `none`.
    pub subscribe: Option<String>,
    /// Whether current values are sent on connect: `true`, which is also meant
    /// where nothing is said, or `false`.
    pub send_cached_values: Option<String>,
}

/// What a client gets on its stream.
#[derive(Clone, Copy, Debug, PartialEq, Eq, Structural)]
pub struct StreamOptions {
    pub subscribe: Subscribe,
    pub send_cached_values: bool,
    /// Whether its messages are compressed.
    pub permessage_deflate: bool,
}

/// What a client subscribes to by that word, if there is such a word.
pub open spec fn subscribe_of(word: Seq<char>) -> Option<Subscribe> {
    if word == "self"@ {
        Some(Subscribe::SelfOnly)
    } else if word == "all"@ {
        Some(Subscribe::All)
    } else if word == "none"@ {
        Some(Subscribe::Nothing)
    } else {
        None
    }
}

/// What is meant by that word for a switch, if there is such a word.
pub open spec fn switch_of(word: Seq<char>) -> Option<bool> {
    if word == "true"@ {
        Some(true)
    } else if word == "false"@ {
        Some(false)
    } else {
        None
    }
}

/// What a client subscribes to by what it says or does not say.
pub open spec fn requested_subscribe(word: Option<String>) -> Option<Subscribe> {
    match word {
        Some(said) => subscribe_of(said@),
        None => Some(Subscribe::All),
    }
}

/// Whether a client wants current values, by what it says or does not say.
pub open spec fn requested_cached_values(word: Option<String>) -> Option<bool> {
    match word {
        Some(said) => switch_of(said@),
        None => Some(true),
    }
}

/// What a client is told that subscribes by a word which there is not.
pub open spec fn unknown_subscribe_text(word: Seq<char>) -> Seq<char> {
    "Unknown subscribe value '"@ + word + "' -- use 'none', 'self' or 'all' instead"@
}

/// What a client is told that switches current values by a word which there is
/// not.
pub open spec fn unknown_cached_values_text(word: Seq<char>) -> Seq<char> {
    "Unknown sendCachedValues value '"@ + word + "' -- use 'false' or 'true' instead"@
}

fn read_subscribe(word: &Option<String>) -> (subscribe: Option<Subscribe>)
    ensures
        subscribe == requested_subscribe(*word),
{
    let said = match word {
        Some(said) => said.as_str(),
        None => return Some(Subscribe::All),
    };
    if same_text(said, "self") {
        Some(Subscribe::SelfOnly)
    } else if same_text(said, "all") {
        Some(Subscribe::All)
    } else if same_text(said, "none") {
        Some(Subscribe::Nothing)
    } else {
        None
    }
}

fn read_cached_values(word: &Option<String>) -> (wanted: Option<bool>)
    ensures
        wanted == requested_cached_values(*word),
{
    let said = match word {
        Some(said) => said.as_str(),
        None => return Some(true),
    };
    if same_text(said, "true") {
        Some(true)
    } else if same_text(said, "false") {
        Some(false)
    } else {
        None
    }
}

fn said(word: Option<String>) -> (text: String)
    ensures
        word matches Some(given) ==> text == given,
{
    match word {
        Some(given) => given,
        None => String::new(),
    }
}

/// Decides on a request for a stream. Messages are compressed unless the server
/// runs without compression.
pub fn control_stream_handler(
    params: SignalKWebSocket,
    no_websocket_compression: bool,
) -> (decision: Result<StreamOptions, SignalKResponse>)
    ensures
        match (
            requested_subscribe(params.subscribe),
            requested_cached_values(params.send_cached_values),
        ) {
            (None, _) => decision matches Err(response) && response.fails(
                BAD_REQUEST,
                unknown_subscribe_text(params.subscribe->0@),
            ),
            (Some(_), None) => decision matches Err(response) && response.fails(
                BAD_REQUEST,
                unknown_cached_values_text(params.send_cached_values->0@),
            ),
            (Some(subscribe), Some(send_cached_values)) => decision matches Ok(options)
                && options.subscribe == subscribe && options.send_cached_values
                == send_cached_values && options.permessage_deflate == !no_websocket_compression,
        },
{
    let subscribe = match read_subscribe(&params.subscribe) {
        Some(subscribe) => subscribe,
        None => {
            let message = concat_three(
                "Unknown subscribe value '",
                said(params.subscribe).as_str(),
                "' -- use 'none', 'self' or 'all' instead",
            );
            return Err(SignalKResponse::failed(BAD_REQUEST, message));
        },
    };
    let send_cached_values = match read_cached_values(&params.send_cached_values) {
        Some(wanted) => wanted,
        None => {
            let message = concat_three(
                "Unknown sendCachedValues value '",
                said(params.send_cached_values).as_str(),
                "' -- use 'false' or 'true' instead",
            );
            return Err(SignalKResponse::failed(BAD_REQUEST, message));
        },
    };
    Ok(
        StreamOptions {
            subscribe,
            send_cached_values,
            permessage_deflate: !no_websocket_compression,
        },
    )
}

/// A request for a stream is turned away exactly where it uses a word that there
/// is not; one that says nothing gets everything.
pub proof fn only_unknown_words_are_turned_away(params: SignalKWebSocket)
    ensures
        requested_subscribe(params.subscribe) is None <==> (params.subscribe matches Some(word)
            && word@ != "self"@ && word@ != "all"@ && word@ != "none"@),
        requested_cached_values(params.send_cached_values) is None <==> (
        params.send_cached_values matches Some(word) && word@ != "true"@ && word@ != "false"@),
        params.subscribe is None ==> requested_subscribe(params.subscribe) == Some(Subscribe::All),
        params.send_cached_values is None ==> requested_cached_values(params.send_cached_values)
            == Some(true),
{
}

/// What goes into the first message after the greeting.
#[derive(Clone, Copy, Debug, PartialEq, Eq, Structural)]
pub struct Opening {
    /// The definitions of the controls of all radars.
    pub definitions: bool,
    /// The current values of the controls of all active radars.
    pub cached_values: bool,
    /// The warning that settings are not stored, where they are not.
    pub settings_warning: bool,
}

/// How a session ends.
#[derive(Clone, Copy, Debug, PartialEq, Eq, Structural)]
pub enum SessionEnd {
    /// As it should.
    Finished,
    /// There is nobody any more who answers.
    NotConnected,
    /// The client did not take what it was sent.
    NotSent,
    /// Nothing can be read from the client.
    NotReceived,
}

/// What is going on in a session.
#[derive(Clone, Copy, Debug, PartialEq, Eq, Structural)]
pub enum Phase {
    /// The greeting is being sent.
    Greeting,
    /// The first message is being sent.
    Opening,
    /// Something is waited for.
    Waiting,
    /// A reply that is meant for this client alone is being sent.
    Replying,
    /// A change is being sent, as far as the client has subscribed to it.
    Forwarding,
    /// A request of the client is being handled.
    Handling,
    /// What is due is being sent.
    Ticking,
    Ended(SessionEnd),
}

/// What happens in a session.
pub enum SessionEvent {
    /// What was going on is over, and the client took what it was sent.
    Done,
    /// The client did not take what it was sent.
    SendFailed,
    /// The server shuts down.
    Shutdown,
    /// There is a reply that is meant for this client alone.
    Reply,
    /// There will be no reply any more.
    RepliesClosed,
    /// Something changed.
    Delta,
    /// So many changes were missed.
    DeltasLagged(u64),
    /// There will be no change any more.
    DeltasClosed,
    /// The client sent text.
    Text,
    /// The client sent something else.
    OtherMessage,
    /// Nothing can be read from the client, for this reason.
    SocketError(String),
    /// The client has gone.
    SocketClosed,
    /// A period is over.
    Tick,
}

/// What the library that runs the socket calls a client that went away without
/// a word.
pub const RESET_WITHOUT_HANDSHAKE: &'static str = "Protocol(ResetWithoutClosingHandshake)";

/// How a session ends when nothing can be read from the client.
pub open spec fn end_on_socket_error(reason: Seq<char>) -> SessionEnd {
    if reason == RESET_WITHOUT_HANDSHAKE@ {
        SessionEnd::Finished
    } else {
        SessionEnd::NotReceived
    }
}

/// Tells how a session ends when nothing can be read from the client. A client
/// that is careless in closing its socket is no fault of ours.
pub fn map_axum_error(reason: &str) -> (end: SessionEnd)
    ensures
        end == end_on_socket_error(reason@),
{
    if same_text(reason, RESET_WITHOUT_HANDSHAKE) {
        SessionEnd::Finished
    } else {
        SessionEnd::NotReceived
    }
}

/// What a session does next when something happens that it waited for.
pub open spec fn phase_on_event(event: SessionEvent) -> Phase {
    match event {
        SessionEvent::Shutdown => Phase::Ended(SessionEnd::Finished),
        SessionEvent::Reply => Phase::Replying,
        SessionEvent::RepliesClosed => Phase::Ended(SessionEnd::NotConnected),
        SessionEvent::Delta => Phase::Forwarding,
        SessionEvent::DeltasLagged(_) => Phase::Waiting,
        SessionEvent::DeltasClosed => Phase::Ended(SessionEnd::Finished),
        SessionEvent::Text => Phase::Handling,
        SessionEvent::OtherMessage => Phase::Waiting,
        SessionEvent::SocketError(reason) => Phase::Ended(end_on_socket_error(reason@)),
        SessionEvent::SocketClosed => Phase::Ended(SessionEnd::Finished),
        SessionEvent::Tick => Phase::Ticking,
        SessionEvent::Done => Phase::Waiting,
        SessionEvent::SendFailed => Phase::Waiting,
    }
}

/// What a session does next. While something goes on, only its outcome counts;
/// while it waits, there is no outcome to count. Nothing follows the end.
pub open spec fn next_phase(phase: Phase, event: SessionEvent) -> Phase {
    match phase {
        Phase::Waiting => phase_on_event(event),
        Phase::Ended(_) => phase,
        // The client was answered as far as it could be.
        Phase::Handling => if event is Done || event is SendFailed {
            Phase::Waiting
        } else {
            phase
        },
        _ => if event is SendFailed {
            Phase::Ended(SessionEnd::NotSent)
        } else if event is Done {
            if phase is Greeting {
                Phase::Opening
            } else {
                Phase::Waiting
            }
        } else {
            phase
        },
    }
}

/// The state of a client's stream, which can carry data of several radars.
pub struct Session {
    pub options: StreamOptions,
    pub phase: Phase,
    /// How long, in nanoseconds, it is from one delivery of what is due to the
    /// next.
    pub period: u128,
}

impl Session {
    /// Begins a session: the client is greeted.
    pub fn new(options: StreamOptions, period: u128) -> (session: Session)
        ensures
            session.options == options,
            session.phase == Phase::Greeting,
            session.period == period,
    {
        Session { options, phase: Phase::Greeting, period }
    }

    /// What goes into the first message after the greeting.
    ///
    /// A client that asked for nothing gets neither definitions nor values; once
    /// it does subscribe, the definitions travel with the first values it
    /// receives. Radar controls are own-ship data, so any other client gets
    /// them.
    pub fn opening(&self) -> (opening: Opening)
        ensures
            opening.definitions == (self.options.subscribe != Subscribe::Nothing),
            opening.cached_values == (self.options.send_cached_values && self.options.subscribe
                != Subscribe::Nothing),
            opening.settings_warning,
    {
        let subscribed = self.options.subscribe != Subscribe::Nothing;
        Opening {
            definitions: subscribed,
            cached_values: self.options.send_cached_values && subscribed,
            settings_warning: true,
        }
    }

    /// Moves on when something happens.
    pub fn step(&mut self, event: SessionEvent)
        ensures
            final(self).phase == next_phase(old(self).phase, event),
            final(self).options == old(self).options,
            final(self).period == old(self).period,
    {
        let sent = match event {
            SessionEvent::Done => Some(true),
            SessionEvent::SendFailed => Some(false),
            _ => None,
        };
        let next = match self.phase {
            Phase::Ended(end) => Phase::Ended(end),
            Phase::Waiting => Self::react(event),
            Phase::Handling => match sent {
                Some(_) => Phase::Waiting,
                None => Phase::Handling,
            },
            Phase::Greeting => match sent {
                Some(true) => Phase::Opening,
                Some(false) => Phase::Ended(SessionEnd::NotSent),
                None => Phase::Greeting,
            },
            other => match sent {
                Some(true) => Phase::Waiting,
                Some(false) => Phase::Ended(SessionEnd::NotSent),
                None => other,
            },
        };
        self.phase = next;
    }

    fn react(event: SessionEvent) -> (phase: Phase)
        ensures
            phase == phase_on_event(event),
    {
        match event {
            SessionEvent::Shutdown => Phase::Ended(SessionEnd::Finished),
            SessionEvent::Reply => Phase::Replying,
            SessionEvent::RepliesClosed => Phase::Ended(SessionEnd::NotConnected),
            SessionEvent::Delta => Phase::Forwarding,
            SessionEvent::DeltasLagged(_) => Phase::Waiting,
            SessionEvent::DeltasClosed => Phase::Ended(SessionEnd::Finished),
            SessionEvent::Text => Phase::Handling,
            SessionEvent::OtherMessage => Phase::Waiting,
            SessionEvent::SocketError(reason) => Phase::Ended(map_axum_error(reason.as_str())),
            SessionEvent::SocketClosed => Phase::Ended(SessionEnd::Finished),
            SessionEvent::Tick => Phase::Ticking,
            SessionEvent::Done => Phase::Waiting,
            SessionEvent::SendFailed => Phase::Waiting,
        }
    }

    /// Takes over the period that the subscriptions ask for now, and tells
    /// whether it is a new one. Only a new one starts the clock again: what keeps
    /// its schedule is delivered however busy the radars are.
    pub fn retime(&mut self, period: u128) -> (changed: bool)
        ensures
            changed == (old(self).period != period),
            final(self).period == period,
            final(self).options == old(self).options,
            final(self).phase == old(self).phase,
    {
        let changed = self.period != period;
        self.period = period;
        changed
    }
}

/// What a session does after a series of events.
pub open spec fn phase_after(phase: Phase, events: Seq<SessionEvent>) -> Phase
    decreases events.len(),
{
    if events.len() == 0 {
        phase
    } else {
        next_phase(phase_after(phase, events.drop_last()), events.last())
    }
}

/// Whether an event can be the cause of an end.
pub open spec fn causes(event: SessionEvent, end: SessionEnd) -> bool {
    match end {
        SessionEnd::NotSent => event is SendFailed,
        SessionEnd::NotConnected => event is RepliesClosed,
        SessionEnd::NotReceived => event matches SessionEvent::SocketError(reason) && reason@
            != RESET_WITHOUT_HANDSHAKE@,
        SessionEnd::Finished => {
            ||| event is Shutdown
            ||| event is DeltasClosed
            ||| event is SocketClosed
            ||| event matches SessionEvent::SocketError(reason) && reason@
                == RESET_WITHOUT_HANDSHAKE@
        },
    }
}

/// A session does not end by itself: where it has ended, one of the events was
/// the cause. Missed changes, and messages that are no text, are none.
pub proof fn session_ends_for_a_cause(events: Seq<SessionEvent>)
    requires
        phase_after(Phase::Greeting, events) is Ended,
    ensures
        exists|i: int|
            0 <= i < events.len() && causes(
                #[trigger] events[i],
                phase_after(Phase::Greeting, events)->Ended_0,
            ),
    decreases events.len(),
{
    if events.len() > 0 {
        let earlier = phase_after(Phase::Greeting, events.drop_last());
        if earlier is Ended {
            session_ends_for_a_cause(events.drop_last());
            let i = choose|i: int|
                0 <= i < events.drop_last().len() && causes(
                    #[trigger] events.drop_last()[i],
                    earlier->Ended_0,
                );
            assert(causes(events[i], earlier->Ended_0));
        } else {
            assert(causes(events[events.len() - 1], phase_after(Phase::Greeting, events)->Ended_0));
        }
    }
}

/// What has ended stays so, in the way in which it ended.
pub proof fn ended_session_stays_ended(end: SessionEnd, events: Seq<SessionEvent>)
    ensures
        phase_after(Phase::Ended(end), events) == Phase::Ended(end),
    decreases events.len(),
{
    if events.len() > 0 {
        ended_session_stays_ended(end, events.drop_last());
    }
}

/// A client is greeted before anything else happens: whatever else occurs, it
/// is sent nothing, and none of its requests is handled, until the greeting is
/// over.
pub proof fn greeting_comes_first(events: Seq<SessionEvent>)
    requires
        forall|i: int|
            0 <= i < events.len() ==> !((#[trigger] events[i]) is Done) && !(
            events[i] is SendFailed),
    ensures
        phase_after(Phase::Greeting, events) == Phase::Greeting,
    decreases events.len(),
{
    if events.len() > 0 {
        assert forall|i: int| 0 <= i < events.drop_last().len() implies !((
        #[trigger] events.drop_last()[i]) is Done) && !(events.drop_last()[i] is SendFailed) by {
            assert(!(events[i] is Done));
        }
        greeting_comes_first(events.drop_last());
        assert(!(events[events.len() - 1] is Done));
    }
}

/// Every activity that is carried out leads back to waiting; only the greeting
/// leads to the first message instead, and so to waiting in two steps.
pub proof fn activities_lead_back_to_waiting(phase: Phase)
    ensures
        phase is Opening || phase is Replying || phase is Forwarding || phase is Handling
            || phase is Ticking ==> next_phase(phase, SessionEvent::Done) == Phase::Waiting,
        next_phase(Phase::Greeting, SessionEvent::Done) == Phase::Opening,
        next_phase(Phase::Waiting, SessionEvent::Done) == Phase::Waiting,
{
}

/// A client that does not take what it is sent is given up, but for the answer
/// to its own request, after which the session waits on.
pub proof fn unsent_messages_end_the_session(phase: Phase)
    ensures
        phase is Greeting || phase is Opening || phase is Replying || phase is Forwarding
            || phase is Ticking ==> next_phase(phase, SessionEvent::SendFailed) == Phase::Ended(
            SessionEnd::NotSent,
        ),
        next_phase(Phase::Handling, SessionEvent::SendFailed) == Phase::Waiting,
        next_phase(Phase::Waiting, SessionEvent::SendFailed) == Phase::Waiting,
{
}

/// While something goes on, nothing but its outcome changes what goes on.
pub proof fn busy_session_is_not_diverted(phase: Phase, event: SessionEvent)
    requires
        !(phase is Waiting),
        !(event is Done),
        !(event is SendFailed),
    ensures
        next_phase(phase, event) == phase,
{
}

/// A session that waits takes up exactly what happens: a reply is sent, a change
/// is forwarded, a request is handled, a period is served; missed changes and
/// messages that are no text leave it waiting.
pub proof fn waiting_session_takes_up_what_happens(event: SessionEvent)
    ensures
        next_phase(Phase::Waiting, event) == Phase::Replying <==> event is Reply,
        next_phase(Phase::Waiting, event) == Phase::Forwarding <==> event is Delta,
        next_phase(Phase::Waiting, event) == Phase::Handling <==> event is Text,
        next_phase(Phase::Waiting, event) == Phase::Ticking <==> event is Tick,
        next_phase(Phase::Waiting, event) == Phase::Waiting <==> event is DeltasLagged
            || event is OtherMessage || event is Done || event is SendFailed,
        !(next_phase(Phase::Waiting, event) is Greeting),
        !(next_phase(Phase::Waiting, event) is Opening),
{
}

/// A session that waits ends well where the server shuts down, there are no more
/// changes, or the client has gone, be it without a word; otherwise it ends only
/// where nobody answers any more or the client cannot be read.
pub proof fn waiting_session_ends_as_it_should(event: SessionEvent)
    ensures
        next_phase(Phase::Waiting, event) == Phase::Ended(SessionEnd::Finished) <==> (
        event is Shutdown || event is DeltasClosed || event is SocketClosed || (
        event matches SessionEvent::SocketError(reason) && reason@
            == "Protocol(ResetWithoutClosingHandshake)"@)),
        next_phase(Phase::Waiting, event) == Phase::Ended(SessionEnd::NotReceived) <==> (
        event matches SessionEvent::SocketError(reason) && reason@
            != "Protocol(ResetWithoutClosingHandshake)"@),
        next_phase(Phase::Waiting, event) == Phase::Ended(SessionEnd::NotConnected)
            <==> event is RepliesClosed,
        next_phase(Phase::Waiting, event) != Phase::Ended(SessionEnd::NotSent),
{
}

/// A series of events is one event after the other.
pub proof fn events_come_one_after_the_other(
    phase: Phase,
    events: Seq<SessionEvent>,
    more: Seq<SessionEvent>,
)
    ensures
        phase_after(phase, seq![]) == phase,
        phase_after(phase, events + more) == phase_after(phase_after(phase, events), more),
        more.len() == 1 ==> phase_after(phase, more) == next_phase(phase, more[0]),
    decreases more.len(),
{
    if more.len() == 0 {
        assert(events + more =~= events);
    } else {
        events_come_one_after_the_other(phase, events, more.drop_last());
        assert((events + more).drop_last() =~= events + more.drop_last());
        if more.len() == 1 {
            assert(more.drop_last() =~= seq![]);
        }
    }
}

/// Each word means what it says: a client gets all, what concerns the own ship or
/// nothing, and current values or none, by the word it uses, and all of both
/// where it uses none.
pub proof fn words_mean_what_they_say(params: SignalKWebSocket)
    ensures
        requested_subscribe(params.subscribe) == Some(Subscribe::All) <==> (
        params.subscribe is None || params.subscribe->0@ == "all"@),
        requested_subscribe(params.subscribe) == Some(Subscribe::SelfOnly) <==> (
        params.subscribe is Some && params.subscribe->0@ == "self"@),
        requested_subscribe(params.subscribe) == Some(Subscribe::Nothing) <==> (
        params.subscribe is Some && params.subscribe->0@ == "none"@),
        requested_cached_values(params.send_cached_values) == Some(true) <==> (
        params.send_cached_values is None || params.send_cached_values->0@ == "true"@),
        requested_cached_values(params.send_cached_values) == Some(false) <==> (
        params.send_cached_values is Some && params.send_cached_values->0@ == "false"@),
{
    reveal_strlit("all");
    reveal_strlit("self");
    reveal_strlit("none");
    reveal_strlit("true");
    reveal_strlit("false");
    assert("all"@.len() == 3 && "self"@.len() == 4 && "none"@.len() == 4);
    assert("self"@[0] != "none"@[0]);
    assert("true"@.len() == 4 && "false"@.len() == 5);
}

/// A client that uses an unknown word is told the word and those there are.
pub proof fn unknown_words_are_told(word: Seq<char>)
    ensures
        unknown_subscribe_text(word) == ("Unknown subscribe value '"@ + word)
            + "' -- use 'none', 'self' or 'all' instead"@,
        unknown_cached_values_text(word) == ("Unknown sendCachedValues value '"@ + word)
            + "' -- use 'false' or 'true' instead"@,
{
}

} // verus!
