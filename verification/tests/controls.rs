use mayara_signalk::controls::{
    control_needs_persistence, get_control_value, get_control_values, set_control_value,
    set_control_values, BatchOnRadar, Control, ControlBatch, ControlId, ControlReply, OnRadar,
    Requested, WriteOutcome,
};
use mayara_signalk::ordered::OrderedMap;
use mayara_signalk::response::{RadarLookup, SignalKResponse};
use serde_json::Value;

fn control(id: ControlId, name: &str, label: &str) -> Control {
    Control { id, name: name.to_string(), label: label.to_string() }
}

fn gain() -> Control {
    control(ControlId::Other(1), "gain", "Gain")
}

fn sea() -> Control {
    control(ControlId::Other(2), "sea", "Sea")
}

fn user_name() -> Control {
    control(ControlId::UserName, "userName", "UserName")
}

fn keys() -> Vec<String> {
    vec!["gain".to_string(), "sea".to_string()]
}

fn on_radar<C>(control: Option<C>) -> RadarLookup<OnRadar<C>> {
    RadarLookup::Found(OnRadar {
        radar_key: "nav1034A".to_string(),
        control,
        control_keys: keys(),
    })
}

fn failure(response: SignalKResponse) -> (&'static str, u16, String) {
    (response.state, response.status_code, response.message)
}

#[test]
fn what_survives_a_restart() {
    let persistent = [
        ControlId::GuardZone1,
        ControlId::GuardZone2,
        ControlId::ExclusionZone1,
        ControlId::ExclusionZone2,
        ControlId::ExclusionZone3,
        ControlId::ExclusionZone4,
        ControlId::ExclusionRect1,
        ControlId::ExclusionRect2,
        ControlId::ExclusionRect3,
        ControlId::ExclusionRect4,
        ControlId::UserName,
        ControlId::AutoStandby,
    ];
    for id in persistent {
        assert!(control_needs_persistence(id));
    }
    let volatile = [
        ControlId::NoTransmitSector1,
        ControlId::NoTransmitSector2,
        ControlId::NoTransmitSector3,
        ControlId::NoTransmitSector4,
        ControlId::Other(0),
    ];
    for id in volatile {
        assert!(!control_needs_persistence(id));
    }
}

#[test]
fn a_control_value_is_read() {
    assert_eq!(get_control_value("nav1034A", "gain", on_radar(Some(50))).ok(), Some(50));
    let answer = get_control_value::<u8>("nav1034A", "sonar", on_radar(None)).err().unwrap();
    assert_eq!(
        failure(answer),
        (
            "FAILED",
            404,
            "Unknown control 'sonar' -- use [\"gain\", \"sea\"] instead".to_string()
        )
    );
    let missing = RadarLookup::Missing(vec!["nav1034B".to_string()]);
    let answer = get_control_value::<u8>("nav1034A", "gain", missing).err().unwrap();
    assert_eq!(
        failure(answer),
        ("FAILED", 404, "Unknown radar 'nav1034A' -- use [\"nav1034B\"] instead".to_string())
    );
}

#[test]
fn all_control_values_are_read_as_one_object() {
    let values = vec![
        ("gain".to_string(), Value::from(50)),
        ("sea".to_string(), Value::from("auto")),
        ("gain".to_string(), Value::from(60)),
    ];
    let answer = get_control_values("nav1034A", RadarLookup::Found(values)).ok().unwrap();
    assert_eq!(answer.to_string(), "{\"gain\":60,\"sea\":\"auto\"}");
    let answer = get_control_values("x", RadarLookup::Missing(vec![])).err().unwrap();
    assert_eq!(failure(answer), ("FAILED", 404, "Unknown radar 'x' -- use [] instead".to_string()));
}

#[test]
fn a_write_to_a_radar_that_is_not_there() {
    let decision = set_control_value("x", "gain", RadarLookup::Missing(vec!["a".to_string()]));
    assert!(!decision.wake);
    assert_eq!(
        failure(decision.outcome.err().unwrap()),
        ("FAILED", 404, "Unknown radar 'x' -- use [\"a\"] instead".to_string())
    );
}

#[test]
fn a_write_to_a_control_that_is_not_there_wakes_the_radar() {
    let decision = set_control_value("nav1034A", "sonar", on_radar(None));
    assert!(decision.wake);
    assert_eq!(
        failure(decision.outcome.err().unwrap()),
        (
            "FAILED",
            404,
            "Unknown control 'sonar' -- use [\"gain\", \"sea\"] instead".to_string()
        )
    );
}

#[test]
fn a_write_that_the_radar_refuses() {
    let write = set_control_value("nav1034A", "gain", on_radar(Some(gain()))).outcome.ok().unwrap();
    let answer = write.submitted(Err("out of range".to_string())).err().unwrap();
    assert_eq!(failure(answer), ("FAILED", 400, "out of range".to_string()));
}

#[test]
fn a_write_that_goes_well() {
    for reply in [ControlReply::Silence, ControlReply::Closed, ControlReply::Reply(None)] {
        let decision = set_control_value("nav1034A", "GAIN", on_radar(Some(gain())));
        assert!(decision.wake);
        let accepted = decision.outcome.ok().unwrap().submitted(Ok(())).ok().unwrap();
        assert_eq!(accepted.save, None);
        let answer = accepted.replied(reply);
        assert_eq!(answer.note, Some("gain".to_string()));
        assert_eq!(failure(answer.response), ("COMPLETED", 200, "OK".to_string()));
    }
}

#[test]
fn a_write_that_the_radar_objects_to() {
    let write = set_control_value("a", "gain", on_radar(Some(user_name()))).outcome.ok().unwrap();
    let accepted = write.submitted(Ok(())).ok().unwrap();
    assert_eq!(accepted.save, Some("nav1034A".to_string()));
    let answer = accepted.replied(ControlReply::Reply(Some("too long".to_string())));
    assert_eq!(answer.note, None);
    assert_eq!(failure(answer.response), ("FAILED", 400, "too long".to_string()));
}

fn batch(
    request: Vec<(&str, u8, Option<Control>)>,
) -> Result<ControlBatch<u8>, (&'static str, u16, String)> {
    let mut map = OrderedMap::new();
    for (name, value, control) in request {
        map = map.insert(name.to_string(), Requested { value, control });
    }
    let decision = set_control_values(
        "nav1034A",
        RadarLookup::Found(BatchOnRadar {
            radar_key: "nav1034A".to_string(),
            control_keys: keys(),
            request: map,
        }),
    );
    assert!(decision.wake);
    decision.outcome.map_err(failure)
}

#[test]
fn several_writes_to_a_radar_that_is_not_there() {
    let decision = set_control_values::<u8>("x", RadarLookup::Missing(vec![]));
    assert!(!decision.wake);
    assert_eq!(
        failure(decision.outcome.err().unwrap()),
        ("FAILED", 404, "Unknown radar 'x' -- use [] instead".to_string())
    );
}

#[test]
fn one_unknown_control_turns_the_whole_request_away() {
    let refused = batch(vec![("zoom", 1, None), ("gain", 2, Some(gain())), ("angle", 3, None)]);
    assert_eq!(
        refused.err().unwrap(),
        (
            "FAILED",
            404,
            "Unknown control(s) [\"angle\", \"zoom\"] -- use [\"gain\", \"sea\"] instead".to_string()
        )
    );
}

#[test]
fn a_control_that_is_named_twice_turns_the_whole_request_away() {
    let refused = batch(vec![
        ("gain", 1, Some(gain())),
        ("Gain", 2, Some(gain())),
        ("GAIN", 3, Some(gain())),
        ("sea", 4, Some(sea())),
    ]);
    assert_eq!(
        refused.err().unwrap(),
        ("FAILED", 400, "Control(s) [\"Gain\", \"Gain\"] named more than once".to_string())
    );
}

#[test]
fn writes_go_in_the_order_of_their_names() {
    let mut batch = batch(vec![
        ("userName", 3, Some(user_name())),
        ("sea", 2, Some(sea())),
        ("gain", 1, Some(gain())),
    ])
    .ok()
    .unwrap();
    let mut values = vec![];
    while let Some((_, value)) = batch.next() {
        values.push(value);
        batch.record(WriteOutcome::Taken(ControlReply::Silence));
    }
    assert_eq!(values, vec![1, 2, 3]);
    let end = batch.finish();
    assert_eq!(end.save, Some("nav1034A".to_string()));
    assert_eq!(end.note, Some("gain".to_string()));
    assert_eq!(failure(end.response), ("COMPLETED", 200, "OK".to_string()));
}

#[test]
fn failures_are_named_and_the_others_still_apply() {
    let mut batch = batch(vec![
        ("a", 1, Some(sea())),
        ("b", 2, Some(gain())),
        ("c", 3, Some(control(ControlId::Other(3), "rain", "Rain"))),
    ])
    .ok()
    .unwrap();
    let mut applied = 0;
    while let Some((_, value)) = batch.next() {
        applied += 1;
        batch.record(match value {
            1 => WriteOutcome::Refused("out of range".to_string()),
            2 => WriteOutcome::Taken(ControlReply::Reply(Some("busy".to_string()))),
            _ => WriteOutcome::Taken(ControlReply::Reply(None)),
        });
    }
    assert_eq!(applied, 3);
    let end = batch.finish();
    assert_eq!(end.save, None);
    assert_eq!(end.note, None);
    assert_eq!(
        failure(end.response),
        ("FAILED", 400, "Gain: busy; Sea: out of range".to_string())
    );
}

#[test]
fn an_outcome_without_a_write_counts_for_nothing() {
    let mut batch = batch(vec![("gain", 1, Some(gain()))]).ok().unwrap();
    batch.record(WriteOutcome::Refused("nothing was written".to_string()));
    let end = batch.finish();
    assert_eq!(failure(end.response), ("COMPLETED", 200, "OK".to_string()));
}

#[test]
fn a_request_for_nothing_is_carried_out() {
    let mut batch = batch(vec![]).ok().unwrap();
    assert!(batch.next().is_none());
    let end = batch.finish();
    assert_eq!(end.save, None);
    assert_eq!(end.note, Some(String::new()));
    assert_eq!(failure(end.response), ("COMPLETED", 200, "OK".to_string()));
}

#[test]
fn a_batch_that_fails_is_saved_all_the_same() {
    let mut batch = batch(vec![("userName", 1, Some(user_name()))]).ok().unwrap();
    batch.next();
    batch.record(WriteOutcome::Refused("no".to_string()));
    let end = batch.finish();
    assert_eq!(end.save, Some("nav1034A".to_string()));
    assert_eq!(failure(end.response), ("FAILED", 400, "UserName: no".to_string()));
}
