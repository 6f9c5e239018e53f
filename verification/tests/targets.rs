use mayara_signalk::response::{RadarLookup, SignalKResponse};
use mayara_signalk::targets::{
    acquire_target, acquire_target_answer, delete_target, delete_target_answer, get_targets,
    get_targets_answer, marpa_request, AcquireTargetRequest, TargetPosition, TargetsReply,
};

fn failure(response: SignalKResponse) -> (&'static str, u16, String) {
    (response.state, response.status_code, response.message)
}

fn request(
    latitude: Option<f64>,
    longitude: Option<f64>,
    bearing: Option<f64>,
    distance: Option<f64>,
) -> AcquireTargetRequest<f64> {
    AcquireTargetRequest { bearing, distance, latitude, longitude }
}

fn radar() -> RadarLookup<String> {
    RadarLookup::Found("nav1034A".to_string())
}

#[test]
fn latitude_and_longitude_go_before_bearing_and_distance() {
    let asked = request(Some(52.3702), Some(4.8952), Some(1.0), Some(1852.0));
    let acquisition = acquire_target("nav1034a", radar(), true, asked, Some("origin")).ok().unwrap();
    assert_eq!(acquisition.radar_key, "nav1034A");
    match acquisition.position {
        TargetPosition::At { latitude, longitude } => {
            assert_eq!(latitude, 52.3702);
            assert_eq!(longitude, 4.8952);
        }
        TargetPosition::FromRadar { .. } => panic!("latitude and longitude were given"),
    }
}

#[test]
fn bearing_and_distance_count_from_the_radar() {
    let asked = request(Some(52.3702), None, Some(1.0), Some(1852.0));
    let acquisition = acquire_target("nav1034A", radar(), true, asked, Some("origin")).ok().unwrap();
    match acquisition.position {
        TargetPosition::FromRadar { radar, bearing, distance } => {
            assert_eq!(radar, "origin");
            assert_eq!(bearing, 1.0);
            assert_eq!(distance, 1852.0);
        }
        TargetPosition::At { .. } => panic!("the longitude is missing"),
    }
    let asked = request(None, None, Some(1.0), Some(1852.0));
    let refused = acquire_target("nav1034A", radar(), true, asked, None::<()>).err().unwrap();
    assert_eq!(
        failure(refused),
        (
            "FAILED",
            400,
            "No radar position available for bearing/distance conversion".to_string()
        )
    );
}

#[test]
fn half_a_position_is_none() {
    let asked = request(Some(52.3702), None, None, Some(1852.0));
    let refused = acquire_target("nav1034A", radar(), true, asked, Some(())).err().unwrap();
    assert_eq!(
        failure(refused),
        (
            "FAILED",
            400,
            "Must provide either latitude/longitude or bearing/distance".to_string()
        )
    );
}

#[test]
fn the_radar_is_looked_for_before_anything_else() {
    let missing = RadarLookup::Missing(vec!["a".to_string()]);
    let asked = request(None, None, None, None);
    let refused = acquire_target("x", missing, false, asked, None::<()>).err().unwrap();
    assert_eq!(
        failure(refused),
        ("FAILED", 404, "Unknown radar 'x' -- use [\"a\"] instead".to_string())
    );
    let asked = request(None, None, None, None);
    let refused = acquire_target("x", radar(), false, asked, None::<()>).err().unwrap();
    assert_eq!(
        failure(refused),
        ("FAILED", 400, "Target tracking not enabled (use --targets arpa)".to_string())
    );
}

#[test]
fn the_tracker_is_told_where_and_when() {
    let told = marpa_request("nav1034A", 9, 1, Some(2), Some(1_700_000_000_123));
    assert_eq!(told.radar_key, "nav1034A");
    assert_eq!(told.target_id, 9);
    assert_eq!(told.position, 1);
    assert_eq!(told.radar_position, Some(2));
    assert_eq!(told.time, 1_700_000_000_123);
    assert_eq!(told.size_meters, 30);
    assert_eq!(marpa_request("a", 9, 1, None, None).time, 0);
    assert_eq!(marpa_request("a", 9, 1, None, Some((1u128 << 64) + 5)).time, 5);
}

#[test]
fn an_acquisition_is_answered() {
    let answer = |id: usize, sent: bool| acquire_target_answer("nav1034A".to_string(), id, sent);
    let first = answer(1, true).ok().unwrap();
    assert_eq!(first.target_id, 1);
    assert_eq!(first.radar_id, "nav1034A");
    let second = answer(2, true).ok().unwrap();
    assert_ne!(first.target_id, second.target_id);
    let refused = answer(1, false).err().unwrap();
    assert_eq!(
        failure(refused),
        ("FAILED", 500, "Failed to send acquisition request".to_string())
    );
}

#[test]
fn targets_are_listed() {
    let found = RadarLookup::Found(());
    let command = get_targets("nav1034A".to_string(), found, true, Some(7)).ok().unwrap();
    assert_eq!(command.radar_key, Some("nav1034A".to_string()));
    assert_eq!(command.radar_position, Some(7));
    assert_eq!(get_targets_answer(TargetsReply::Received(vec![1, 2])).ok(), Some(vec![1, 2]));
}

#[test]
fn targets_are_not_listed() {
    let found = RadarLookup::Found(());
    let refused = get_targets::<()>("a".to_string(), found, false, None).err().unwrap();
    assert_eq!(
        failure(refused),
        ("FAILED", 400, "Target tracking not enabled (use --targets arpa)".to_string())
    );
    assert_eq!(
        failure(get_targets_answer::<()>(TargetsReply::NotSent).err().unwrap()),
        ("FAILED", 500, "Failed to send get targets request".to_string())
    );
    assert_eq!(
        failure(get_targets_answer::<()>(TargetsReply::NotReceived).err().unwrap()),
        ("FAILED", 500, "Failed to receive targets response".to_string())
    );
}

#[test]
fn a_target_is_dropped() {
    let found = RadarLookup::Found(());
    let known = || TargetsReply::Received(vec![3, 5]);
    let command = delete_target("nav1034A".to_string(), 5, found, true, known()).ok().unwrap();
    assert_eq!(command.radar_key, "nav1034A");
    assert_eq!(command.target_id, 5);
    assert_eq!(failure(delete_target_answer(true)), ("COMPLETED", 200, "OK".to_string()));
    assert_eq!(
        failure(delete_target_answer(false)),
        ("FAILED", 500, "Failed to send delete request".to_string())
    );
    let missing = RadarLookup::Missing(vec![]);
    let refused = delete_target("x".to_string(), 5, missing, true, known()).err().unwrap();
    assert_eq!(failure(refused), ("FAILED", 404, "Unknown radar 'x' -- use [] instead".to_string()));
    let found = RadarLookup::Found(());
    let refused = delete_target("a".to_string(), 5, found, false, known()).err().unwrap();
    assert_eq!(
        failure(refused),
        ("FAILED", 400, "Target tracking not enabled (use --targets arpa)".to_string())
    );
}

#[test]
fn a_target_that_is_not_there_is_not_found() {
    for (target_id, known, text) in [
        (7, vec![3, 5], "Unknown target '7'"),
        (0, vec![], "Unknown target '0'"),
        (u64::MAX, vec![1], "Unknown target '18446744073709551615'"),
    ] {
        let found = RadarLookup::Found(());
        let known = TargetsReply::Received(known);
        let refused = delete_target("a".to_string(), target_id, found, true, known).err().unwrap();
        assert_eq!(failure(refused), ("FAILED", 404, text.to_string()));
    }
}

#[test]
fn a_tracker_that_does_not_say_what_it_tracks_is_told_all_the_same() {
    for known in [TargetsReply::NotSent, TargetsReply::NotReceived] {
        let found = RadarLookup::Found(());
        let command = delete_target("a".to_string(), 5, found, true, known).ok().unwrap();
        assert_eq!(command.radar_key, "a");
        assert_eq!(command.target_id, 5);
    }
}
