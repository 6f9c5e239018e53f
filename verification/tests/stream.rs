use mayara_signalk::controls::{Control, ControlId};
use mayara_signalk::hello::{hello, server_start_id, to_rfc3339, StartId};
use mayara_signalk::json::{control_value_from_put, PutBody};
use mayara_signalk::requests::{
    handle_client_request, handle_control_request, handle_put_request, request_error,
    sendings_after, NamedRadar, Performed, PutOutcome, RadarError, StreamPut, StreamRequest, StreamTarget, StreamTask,
};
use mayara_signalk::session::{
    control_stream_handler, map_axum_error, Phase, Session, SessionEnd, SessionEvent,
    SignalKWebSocket, StreamOptions, Subscribe,
};
use mayara_signalk::updates::{
    gather, handle_subscription, send_all_ais_vessels, send_all_subscribed, send_navigation,
    send_periodic, Due, NavigationDue, NavigationUpdate, NavigationValues, Sending,
};
use serde_json::Value;

fn asked(subscribe: Option<&str>, cached: Option<&str>) -> Result<StreamOptions, (u16, String)> {
    asked_of(subscribe, cached, false)
}

fn asked_of(
    subscribe: Option<&str>,
    cached: Option<&str>,
    no_websocket_compression: bool,
) -> Result<StreamOptions, (u16, String)> {
    let params = SignalKWebSocket {
        subscribe: subscribe.map(|word| word.to_string()),
        send_cached_values: cached.map(|word| word.to_string()),
    };
    control_stream_handler(params, no_websocket_compression).map_err(|response| {
        assert_eq!(response.state, "FAILED");
        (response.status_code, response.message)
    })
}

#[test]
fn messages_are_compressed_unless_the_server_runs_without() {
    assert!(asked_of(Some("self"), None, false).unwrap().permessage_deflate);
    assert!(!asked_of(Some("self"), None, true).unwrap().permessage_deflate);
}

#[test]
fn a_failed_request_is_told_why_and_others_nothing() {
    assert_eq!(request_error(Ok(())), None);
    assert_eq!(request_error(Err("no such path".to_string())), Some("no such path".to_string()));
    assert!(sendings_after(Performed::Write).is_empty());
    assert!(sendings_after(Performed::Desubscribe).is_empty());
    for ais in [true, false] {
        assert_eq!(sendings_after(Performed::Subscribe { ais }), handle_subscription(ais));
    }
}

#[test]
fn a_process_keeps_its_id() {
    let mut id = StartId { known: None };
    let first = id.get(42, Some(255));
    assert_eq!(first, "2a-ff");
    assert_eq!(id.get(42, Some(256)), first);
    assert_eq!(id.get(42, None), first);
}

fn options(subscribe: Subscribe, send_cached_values: bool) -> StreamOptions {
    StreamOptions { subscribe, send_cached_values, permessage_deflate: true }
}

#[test]
fn a_stream_carries_everything_unless_told_otherwise() {
    assert_eq!(asked(None, None), Ok(options(Subscribe::All, true)));
    assert_eq!(asked(Some("all"), Some("true")), Ok(options(Subscribe::All, true)));
    assert_eq!(asked(Some("self"), Some("false")), Ok(options(Subscribe::SelfOnly, false)));
    assert_eq!(asked(Some("none"), None), Ok(options(Subscribe::Nothing, true)));
}

#[test]
fn a_stream_is_asked_for_in_words_there_are() {
    assert_eq!(
        asked(Some("All"), Some("yes")),
        Err((
            400,
            "Unknown subscribe value 'All' -- use 'none', 'self' or 'all' instead".to_string()
        ))
    );
    assert_eq!(
        asked(None, Some("yes")),
        Err((
            400,
            "Unknown sendCachedValues value 'yes' -- use 'false' or 'true' instead".to_string()
        ))
    );
}

#[test]
fn a_client_that_asks_for_nothing_gets_nothing() {
    for cached in [true, false] {
        let opening = Session::new(options(Subscribe::Nothing, cached), 1).opening();
        assert!(!opening.definitions);
        assert!(!opening.cached_values);
        assert!(opening.settings_warning);
        for subscribe in [Subscribe::All, Subscribe::SelfOnly] {
            let opening = Session::new(options(subscribe, cached), 1).opening();
            assert!(opening.definitions);
            assert_eq!(opening.cached_values, cached);
            assert!(opening.settings_warning);
        }
    }
}

fn waiting() -> Session {
    let mut session = Session::new(options(Subscribe::All, true), 1);
    assert_eq!(session.phase, Phase::Greeting);
    session.step(SessionEvent::Tick);
    assert_eq!(session.phase, Phase::Greeting);
    session.step(SessionEvent::Done);
    assert_eq!(session.phase, Phase::Opening);
    session.step(SessionEvent::Done);
    assert_eq!(session.phase, Phase::Waiting);
    session
}

fn after(event: SessionEvent) -> Phase {
    let mut session = waiting();
    session.step(event);
    session.phase
}

#[test]
fn a_session_reacts_to_what_happens() {
    assert_eq!(after(SessionEvent::Shutdown), Phase::Ended(SessionEnd::Finished));
    assert_eq!(after(SessionEvent::Reply), Phase::Replying);
    assert_eq!(after(SessionEvent::RepliesClosed), Phase::Ended(SessionEnd::NotConnected));
    assert_eq!(after(SessionEvent::Delta), Phase::Forwarding);
    assert_eq!(after(SessionEvent::DeltasLagged(3)), Phase::Waiting);
    assert_eq!(after(SessionEvent::DeltasClosed), Phase::Ended(SessionEnd::Finished));
    assert_eq!(after(SessionEvent::Text), Phase::Handling);
    assert_eq!(after(SessionEvent::OtherMessage), Phase::Waiting);
    assert_eq!(after(SessionEvent::SocketClosed), Phase::Ended(SessionEnd::Finished));
    assert_eq!(after(SessionEvent::Tick), Phase::Ticking);
    let reason = "Io(Kind(BrokenPipe))".to_string();
    assert_eq!(after(SessionEvent::SocketError(reason)), Phase::Ended(SessionEnd::NotReceived));
}

#[test]
fn a_session_ends_when_the_client_takes_nothing() {
    for event in [SessionEvent::Reply, SessionEvent::Delta, SessionEvent::Tick] {
        let mut session = waiting();
        session.step(event);
        session.step(SessionEvent::SendFailed);
        assert_eq!(session.phase, Phase::Ended(SessionEnd::NotSent));
        session.step(SessionEvent::Done);
        assert_eq!(session.phase, Phase::Ended(SessionEnd::NotSent));
    }
    let mut session = waiting();
    session.step(SessionEvent::Text);
    session.step(SessionEvent::SendFailed);
    assert_eq!(session.phase, Phase::Waiting);
    let mut session = Session::new(options(Subscribe::All, true), 1);
    session.step(SessionEvent::SendFailed);
    assert_eq!(session.phase, Phase::Ended(SessionEnd::NotSent));
}

#[test]
fn a_client_that_just_goes_away_is_no_failure() {
    let reset = "Protocol(ResetWithoutClosingHandshake)";
    assert_eq!(map_axum_error(reset), SessionEnd::Finished);
    assert_eq!(map_axum_error("ConnectionClosed"), SessionEnd::NotReceived);
    assert_eq!(after(SessionEvent::SocketError(reset.to_string())), Phase::Ended(SessionEnd::Finished));
}

#[test]
fn the_clock_starts_again_only_with_a_new_period() {
    let mut session = Session::new(options(Subscribe::All, true), 1000);
    assert!(!session.retime(1000));
    assert!(session.retime(200));
    assert!(!session.retime(200));
    assert_eq!(session.period, 200);
}

fn put(path: &str, value: &str) -> Value {
    control_value_from_put(PutBody {
        path: path.to_string(),
        value: serde_json::from_str(value).unwrap(),
    })
}

fn parsed(text: &str) -> Value {
    serde_json::from_str(text).unwrap()
}

#[test]
fn a_put_becomes_the_write_it_stands_for() {
    assert_eq!(
        put("radars.nav1034A.controls.sea", "{\"auto\": true, \"autoValue\": -20}"),
        parsed("{\"path\": \"radars.nav1034A.controls.sea\", \"auto\": true, \"autoValue\": -20}")
    );
    assert_eq!(put("p", "50"), parsed("{\"path\": \"p\", \"value\": 50}"));
    assert_eq!(put("p", "null"), parsed("{\"path\": \"p\", \"value\": null}"));
    assert_eq!(put("p", "[1]"), parsed("{\"path\": \"p\", \"value\": [1]}"));
    assert_eq!(put("p", "{\"path\": \"q\"}"), parsed("{\"path\": \"p\"}"));
}

#[test]
fn requests_lead_to_their_tasks() {
    type Request = StreamRequest<u8, u16, u32>;
    let task = |request: Request| handle_client_request(Ok(request)).ok().unwrap();
    assert!(matches!(task(StreamRequest::RadarControlValue(1)), StreamTask::Write(1)));
    assert!(matches!(task(StreamRequest::Subscription(2)), StreamTask::Subscribe(2)));
    assert!(matches!(task(StreamRequest::Desubscription(3)), StreamTask::Desubscribe(3)));
    let asked = StreamPut {
        request_id: Some("6b0e7f5a".to_string()),
        put: PutBody { path: "p".to_string(), value: Value::from(50) },
    };
    match task(StreamRequest::Put(asked)) {
        StreamTask::Put { request_id, write } => {
            assert_eq!(request_id, Some("6b0e7f5a".to_string()));
            assert_eq!(write, parsed("{\"path\": \"p\", \"value\": 50}"));
        }
        _ => panic!("a put is carried out as one"),
    }
}

#[test]
fn a_request_that_cannot_be_read_is_answered() {
    let read: Result<StreamRequest<u8, u8, u8>, String> = Err("expected value".to_string());
    let answer = handle_client_request(read).err().unwrap();
    assert_eq!(answer.request_id, None);
    assert_eq!(answer.state, "FAILED");
    assert_eq!(answer.status_code, 400);
    assert_eq!(answer.message, Some("Cannot read this request: expected value".to_string()));
}

fn target(id: ControlId) -> StreamTarget {
    StreamTarget {
        radar_key: "nav1034A".to_string(),
        control: Control { id, name: "name".to_string(), label: "Label".to_string() },
    }
}

#[test]
fn a_write_over_the_stream_needs_a_path_and_a_radar() {
    let decision = handle_control_request("navigation.position".to_string(), None);
    assert!(!decision.wake);
    match decision.outcome {
        Err(RadarError::CannotParseControlId(path)) => assert_eq!(path, "navigation.position"),
        _ => panic!("the path names no control"),
    }
    let named = NamedRadar { radar_id: "x".to_string(), found: None };
    let decision = handle_control_request("radars.x.controls.gain".to_string(), Some(named));
    assert!(!decision.wake);
    match decision.outcome {
        Err(RadarError::NoSuchRadar(radar_id)) => assert_eq!(radar_id, "x"),
        _ => panic!("there is no such radar"),
    }
    let named = NamedRadar {
        radar_id: "nav1034A".to_string(),
        found: Some(target(ControlId::Other(1))),
    };
    let decision = handle_control_request("p".to_string(), Some(named));
    assert!(decision.wake);
    assert_eq!(decision.outcome.ok().unwrap().radar_key, "nav1034A");
}

#[test]
fn a_write_over_the_stream_is_saved_where_it_must_be() {
    let end = target(ControlId::ExclusionZone1).submitted(Ok(()));
    assert!(end.result.is_ok());
    assert_eq!(end.note, Some("name".to_string()));
    assert_eq!(end.save, Some("nav1034A".to_string()));

    let end = target(ControlId::Other(1)).submitted(Ok(()));
    assert_eq!(end.note, Some("name".to_string()));
    assert_eq!(end.save, None);

    let end = target(ControlId::GuardZone1).submitted(Err(RadarError::Other("no".to_string())));
    assert!(end.result.is_err());
    assert_eq!(end.note, None);
    assert_eq!(end.save, None);
}

#[test]
fn every_put_is_answered_under_its_id() {
    let answer = |outcome: PutOutcome| {
        let response = handle_put_request(Some("7".to_string()), outcome);
        assert_eq!(response.request_id, Some("7".to_string()));
        (response.state, response.status_code, response.message)
    };
    assert_eq!(answer(PutOutcome::Completed), ("COMPLETED", 200, None));
    assert_eq!(
        answer(PutOutcome::Unreadable("bad".to_string())),
        ("FAILED", 400, Some("Cannot read the value to put: bad".to_string()))
    );
    let radar = RadarError::NoSuchRadar("x".to_string());
    assert_eq!(
        answer(PutOutcome::Failed(radar, "No such radar".to_string())),
        ("FAILED", 404, Some("No such radar".to_string()))
    );
    let control = RadarError::CannotParseControlId("p".to_string());
    assert_eq!(answer(PutOutcome::Failed(control, "m".to_string())), ("FAILED", 404, Some("m".to_string())));
    let other = RadarError::Other("p".to_string());
    assert_eq!(answer(PutOutcome::Failed(other, "m".to_string())), ("FAILED", 400, Some("m".to_string())));
}

#[test]
fn what_follows_a_subscription() {
    assert_eq!(
        handle_subscription(true),
        vec![Sending::Controls, Sending::AisVessels, Sending::Navigation(Due::Subscribed)]
    );
    assert_eq!(
        handle_subscription(false),
        vec![Sending::Controls, Sending::Navigation(Due::Subscribed)]
    );
    assert_eq!(send_periodic(), vec![Sending::Controls, Sending::Navigation(Due::Periodic)]);
}

#[test]
fn navigation_is_sent_as_far_as_it_is_due_and_known() {
    let values = || NavigationValues {
        latitude: Some(52.0),
        longitude: Some(4.5),
        heading_true: None,
        heading_magnetic: Some(1.5),
    };
    let all = NavigationDue { position: true, heading_true: true, heading_magnetic: true };
    let updates = send_navigation(all, values()).unwrap();
    assert_eq!(updates.len(), 2);
    assert_eq!(updates[0].path(), "navigation.position");
    assert!(matches!(updates[0], NavigationUpdate::Position { latitude, longitude }
        if latitude == 52.0 && longitude == 4.5));
    assert_eq!(updates[1].path(), "navigation.headingMagnetic");
    assert_eq!(NavigationUpdate::HeadingTrue(1.0).path(), "navigation.headingTrue");

    let heading = NavigationDue { position: false, heading_true: true, heading_magnetic: false };
    assert!(send_navigation(heading, values()).is_none());
    let half = NavigationValues {
        latitude: Some(52.0),
        longitude: None,
        heading_true: Some(0.5),
        heading_magnetic: None,
    };
    let updates = send_navigation(all, half).unwrap();
    assert_eq!(updates.len(), 1);
    assert!(matches!(updates[0], NavigationUpdate::HeadingTrue(heading) if heading == 0.5));
}

#[test]
fn a_client_is_sent_what_it_is_owed() {
    let values = gather(vec![vec![1, 2], vec![], vec![3]]);
    assert_eq!(values, vec![1, 2, 3]);
    assert_eq!(
        send_all_subscribed(vec![(1, true), (2, false), (3, true)]),
        Some(vec![1, 3])
    );
    assert_eq!(send_all_subscribed(vec![(1, false)]), None);
    assert_eq!(send_all_subscribed::<u8>(vec![]), None);
    assert_eq!(send_all_ais_vessels(vec![Some(1), None, Some(2)]), vec![1, 2]);
}

#[test]
fn a_client_is_greeted() {
    let time = "2018-01-26T18:30:09.453Z".to_string();
    let greeting = hello("mayara", "3.0.0", None, time.clone(), "2a-10");
    assert_eq!(greeting.name, "mayara");
    assert_eq!(greeting.version, "3.0.0");
    assert_eq!(greeting.self_context, "vessels.self");
    assert_eq!(greeting.timestamp, time);
    assert_eq!(greeting.roles, vec!["master"]);
    assert_eq!(greeting.server_start_id, "2a-10");
    let context = Some("vessels.urn:mrn:imo:mmsi:244000000".to_string());
    let greeting = hello("mayara", "3.0.0", context.clone(), time, "2a-10");
    assert_eq!(Some(greeting.self_context), context);
}

#[test]
fn moments_have_milliseconds_and_a_zulu() {
    assert_eq!(
        to_rfc3339(1_516_991_409, 453_829_000),
        Some("2018-01-26T18:30:09.453Z".to_string())
    );
    assert_eq!(to_rfc3339(0, 0), Some("1970-01-01T00:00:00.000Z".to_string()));
    assert_eq!(
        to_rfc3339(253_402_300_799, 999_999_999),
        Some("9999-12-31T23:59:59.999Z".to_string())
    );
    assert_eq!(
        to_rfc3339(253_402_300_800, 0),
        Some("+10000-01-01T00:00:00.000Z".to_string())
    );
    assert_eq!(to_rfc3339(i64::MAX, 0), None);
    assert_eq!(to_rfc3339(0, 2_000_000_000), None);
}

#[test]
fn a_run_has_an_id_of_its_own() {
    assert_eq!(server_start_id(42, Some(255)), "2a-ff");
    assert_eq!(server_start_id(0, None), "0-0");
    assert_eq!(server_start_id(1, Some(-1)), "1-ffffffffffffffff");
    assert_eq!(
        server_start_id(4_294_967_295, Some(1_700_000_000_000_000_000)),
        format!("{:x}-{:x}", 4_294_967_295u32, 1_700_000_000_000_000_000i64)
    );
    assert_ne!(server_start_id(1, Some(2)), server_start_id(1, Some(3)));
    assert_ne!(server_start_id(1, Some(2)), server_start_id(2, Some(2)));
}
