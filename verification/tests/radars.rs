use mayara_signalk::controls::ControlId;
use mayara_signalk::ordered::OrderedMap;
use mayara_signalk::radars::{
    consent_name, get_interfaces, get_network_check, get_radar, get_radar_info, get_radars,
    Capabilities, Consent, ControlTable, InterfacesReply, KnownRadar, KnownRadarApi, RadarApiV3,
    RadarInfo, RadarsResponse, ServerStatus, SettingsStorage, TelemetryState,
};
use mayara_signalk::response::{RadarLookup, SignalKResponse};
use serde::ser::{Serialize, SerializeMap, SerializeStruct, Serializer};

struct WireRadar<'a>(&'a RadarApiV3);

impl<'a> Serialize for WireRadar<'a> {
    fn serialize<S: Serializer>(&self, serializer: S) -> Result<S::Ok, S::Error> {
        let mut out = serializer.serialize_struct("RadarApiV3", 5)?;
        out.serialize_field("name", &self.0.name)?;
        out.serialize_field("brand", &self.0.brand)?;
        if self.0.model.is_some() {
            out.serialize_field("model", &self.0.model)?;
        }
        let [a, b, c, d] = self.0.radar_ip_address;
        out.serialize_field("radarIpAddress", &format!("{}.{}.{}.{}", a, b, c, d))?;
        out.serialize_field("replay", &self.0.replay)?;
        out.end()
    }
}

struct WireRadars<'a>(&'a OrderedMap<RadarApiV3>);

impl<'a> Serialize for WireRadars<'a> {
    fn serialize<S: Serializer>(&self, serializer: S) -> Result<S::Ok, S::Error> {
        let mut out = serializer.serialize_map(Some(self.0.len()))?;
        for place in 0..self.0.len() {
            out.serialize_entry(self.0.key(place), &WireRadar(self.0.value(place)))?;
        }
        out.end()
    }
}

struct WireResponse<'a>(&'a RadarsResponse);

impl<'a> Serialize for WireResponse<'a> {
    fn serialize<S: Serializer>(&self, serializer: S) -> Result<S::Ok, S::Error> {
        let mut out = serializer.serialize_struct("RadarsResponse", 2)?;
        out.serialize_field("version", &self.0.version)?;
        out.serialize_field("radars", &WireRadars(&self.0.radars))?;
        out.end()
    }
}

fn radar(name: &str) -> RadarApiV3 {
    RadarApiV3 {
        name: name.to_string(),
        brand: "Navico".to_string(),
        model: None,
        radar_ip_address: [10, 56, 0, 24],
        replay: false,
    }
}

fn info(key: &str, name: &str) -> RadarInfo<&'static str> {
    RadarInfo {
        key: key.to_string(),
        user_name: name.to_string(),
        brand: "Navico".to_string(),
        model: Some("HALO".to_string()),
        address: [192, 168, 1, 50],
        replay: true,
        ranges: vec![50, 75, 100, 74080],
        spokes_per_revolution: 2048,
        max_spoke_len: 1024,
        pixel_values: 16,
        legend: "legend",
        doppler: true,
        dual_range: true,
        dual: None,
        sparse_spokes: false,
        stationary: true,
    }
}

/// A dual-range radar offers two entries, and clients that take the first one
/// must get the same radar every time, otherwise the operator sees range A or
/// range B for reasons they cannot observe.
#[test]
fn radars_are_listed_in_a_stable_order() {
    let mut radars = OrderedMap::new();
    // Inserted out of order: the response must not depend on this.
    radars = radars.insert("nav1034B".to_string(), radar("HALO 034 B"));
    radars = radars.insert("nav1034A".to_string(), radar("HALO 034 A"));

    let response = RadarsResponse { version: "3.4.0".to_string(), radars };
    let json = serde_json::to_string(&WireResponse(&response)).unwrap();

    let a = json.find("nav1034A").expect("range A listed");
    let b = json.find("nav1034B").expect("range B listed");
    assert!(a < b, "radar ids must be serialised in order: {}", json);
}

#[test]
fn discovered_radars_come_by_key_whatever_the_order_of_discovery() {
    let one = get_radars("3.4.0", &vec![info("b", "B"), info("a", "A"), info("c", "C")]);
    let other = get_radars("3.4.0", &vec![info("c", "C"), info("b", "B"), info("a", "A")]);
    assert_eq!(one.version, "3.4.0");
    for response in [&one, &other] {
        assert_eq!(response.radars.len(), 3);
        assert_eq!(response.radars.key(0), "a");
        assert_eq!(response.radars.key(1), "b");
        assert_eq!(response.radars.key(2), "c");
        assert_eq!(response.radars.value(1).name, "B");
    }
}

#[test]
fn a_key_that_is_discovered_twice_is_listed_once_with_the_later_radar() {
    let response = get_radars("3.4.0", &vec![info("a", "first"), info("a", "second")]);
    assert_eq!(response.radars.len(), 1);
    assert_eq!(response.radars.value(0).name, "second");
}

#[test]
fn entries_are_handed_out_in_order() {
    let map = OrderedMap::new()
        .insert("gain".to_string(), 1)
        .insert("Gain".to_string(), 2)
        .insert("gai".to_string(), 3)
        .insert("gain".to_string(), 4);
    let entries = map.into_entries();
    let expected = vec![
        ("Gain".to_string(), 2),
        ("gai".to_string(), 3),
        ("gain".to_string(), 4),
    ];
    assert_eq!(entries, expected);
}

#[test]
fn radar_info_carries_over() {
    let told = get_radar_info("a", RadarLookup::Found(info("a", "Halo A"))).ok().unwrap();
    assert_eq!(told.name, "Halo A");
    assert_eq!(told.brand, "Navico");
    assert_eq!(told.model, Some("HALO".to_string()));
    assert_eq!(told.radar_ip_address, [192, 168, 1, 50]);
    assert!(told.replay);
}

fn failure(response: SignalKResponse) -> (&'static str, u16, String) {
    (response.state, response.status_code, response.message)
}

#[test]
fn a_missing_radar_is_answered_with_those_there_are() {
    let keys = vec!["nav1034A".to_string(), "nav1034B".to_string()];
    let answer = get_radar_info::<()>("nav\"1", RadarLookup::Missing(keys)).err().unwrap();
    assert_eq!(
        failure(answer),
        (
            "FAILED",
            404,
            "Unknown radar 'nav\"1' -- use [\"nav1034A\", \"nav1034B\"] instead".to_string()
        )
    );
    let answer = get_radar::<(), ()>("x", RadarLookup::Missing(vec![])).err().unwrap();
    assert_eq!(
        failure(answer),
        ("FAILED", 404, "Unknown radar 'x' -- use [] instead".to_string())
    );
}

#[test]
fn listed_names_are_quoted_as_std_debug_does() {
    let keys = vec!["a\"b".to_string(), "tab\t".to_string()];
    let expected = format!("Unknown radar 'x' -- use {:?} instead", keys);
    let answer = get_radar_info::<()>("x", RadarLookup::Missing(keys)).err().unwrap();
    assert_eq!(answer.message, expected);
}

#[test]
fn capabilities_of_a_radar() {
    let controls = ControlTable::new()
        .insert(ControlId::NoTransmitSector1, "one")
        .insert(ControlId::NoTransmitSector4, "four")
        .insert(ControlId::Other(3), "gain")
        .insert(ControlId::NoTransmitSector1, "one again");
    let found = RadarLookup::Found((info("a", "A"), controls));
    let told = get_radar("a", found).ok().unwrap();
    assert_eq!(told.max_range, 74080);
    assert_eq!(told.min_range, 50);
    assert_eq!(told.supported_ranges, vec![50, 75, 100, 74080]);
    assert_eq!(told.spokes_per_revolution, 2048);
    assert_eq!(told.max_spoke_length, 1024);
    assert_eq!(told.pixel_values, 16);
    assert_eq!(told.legend, "legend");
    assert!(told.has_doppler);
    assert!(told.has_dual_range);
    assert!(!told.has_dual_radar);
    assert!(!told.has_sparse_spokes);
    assert_eq!(told.no_transmit_sectors, 2);
    assert!(told.stationary);
    let entries = told.controls.into_entries();
    assert_eq!(entries.len(), 3);
    assert!(entries.contains(&(ControlId::NoTransmitSector1, "one again")));
}

#[test]
fn capabilities_without_ranges_or_controls() {
    let mut bare = info("a", "A");
    bare.ranges = vec![];
    bare.dual = Some("A".to_string());
    let told = Capabilities::new(bare, ControlTable::<()>::new());
    assert_eq!(told.max_range, 0);
    assert_eq!(told.min_range, 0);
    assert!(told.supported_ranges.is_empty());
    assert_eq!(told.no_transmit_sectors, 0);
    assert!(told.has_dual_radar);
}

#[test]
fn a_negative_distance_wraps() {
    let mut odd = info("a", "A");
    odd.ranges = vec![-1];
    let told = Capabilities::new(odd, ControlTable::<()>::new());
    assert_eq!(told.max_range, u32::MAX);
}

fn known() -> Vec<KnownRadar> {
    vec![KnownRadar {
        brand: Some("Navico".to_string()),
        name: "Halo A".to_string(),
        model: Some("HALO24".to_string()),
    }]
}

#[test]
fn status_of_a_run_that_stores_settings() {
    let storage = SettingsStorage::Stored("/etc/mayara.json".to_string());
    let status = ServerStatus::new(storage, known(), vec!["Navico".to_string()]);
    assert!(status.settings_stored);
    assert_eq!(status.settings_path, Some("/etc/mayara.json".to_string()));
    assert_eq!(status.known_radars.len(), 1);
    let told: &KnownRadarApi = &status.known_radars[0];
    assert_eq!(told.brand, Some("Navico".to_string()));
    assert_eq!(told.name, "Halo A");
    assert_eq!(told.model, Some("HALO24".to_string()));
    assert_eq!(status.brands, vec!["Navico".to_string()]);
}

#[test]
fn status_of_runs_that_do_not_store_settings() {
    let storage = SettingsStorage::Unwritable("/etc/mayara.json".to_string());
    let status = ServerStatus::new(storage, known(), vec![]);
    assert!(!status.settings_stored);
    assert_eq!(status.settings_path, Some("/etc/mayara.json".to_string()));
    assert!(status.known_radars.is_empty());

    let status = ServerStatus::new(SettingsStorage::NotWanted, known(), vec![]);
    assert!(!status.settings_stored);
    assert_eq!(status.settings_path, None);
    assert!(status.known_radars.is_empty());
}

#[test]
fn consent_goes_by_its_name() {
    assert_eq!(consent_name(Consent::Unavailable), "unavailable");
    assert_eq!(consent_name(Consent::Unasked), "unasked");
    assert_eq!(TelemetryState::new(Consent::Granted).consent, "granted");
    assert_eq!(TelemetryState::new(Consent::Denied).consent, "denied");
}

#[test]
fn network_check_needs_a_known_kind() {
    assert_eq!(get_network_check("navico", Some(7)).ok(), Some(7));
    let answer = get_network_check::<u8>("sonar", None).err().unwrap();
    assert_eq!(
        failure(answer),
        ("FAILED", 404, "Unknown radar kind 'sonar'".to_string())
    );
}

#[test]
fn interfaces_fall_back_to_none() {
    assert_eq!(get_interfaces(InterfacesReply::Received(1), 0), 1);
    assert_eq!(get_interfaces(InterfacesReply::NotSent, 0), 0);
    assert_eq!(get_interfaces(InterfacesReply::NotReceived, 0), 0);
}
