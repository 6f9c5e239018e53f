//! What the API tells about radars and about the server.
use crate::controls::ControlId;
use crate::order::texts_of;
use crate::ordered::{walk_is_determined_by_contents, OrderedMap};
use crate::response::{
    find_radar, no_such_radar_text, RadarLookup, SignalKResponse, NOT_FOUND,
};
use crate::text::concat_three;
use vstd::prelude::*;

verus! {

/// A radar that was found.
pub struct RadarInfo<L> {
    pub key: String,
    /// The name that the user gave it, or that of its model.
    pub user_name: String,
    pub brand: String,
    pub model: Option<String>,
    /// The four octets of its IPv4 address.
    pub address: [u8; 4],
    /// Whether it is played back from a recording.
    pub replay: bool,
    /// The distances, in meters, of the ranges that it has, from the shortest
    /// up.
    pub ranges: Vec<i32>,
    pub spokes_per_revolution: u16,
    pub max_spoke_len: u16,
    pub pixel_values: u8,
    /// What the values of pixels stand for.
    pub legend: L,
    pub doppler: bool,
    pub dual_range: bool,
    /// Which one it is of a radar that consists of two.
    pub dual: Option<String>,
    pub sparse_spokes: bool,
    pub stationary: bool,
}

/// Information about a detected radar.
///
/// The streams are not listed here: they are always reached by convention from
/// the host that serves this.
pub struct RadarApiV3 {
    pub name: String,
    pub brand: String,
    pub model: Option<String>,
    pub radar_ip_address: [u8; 4],
    /// Whether this radar is sourced from a recording rather than a live
    /// connection. Writes to it have no effect on what was recorded.
    pub replay: bool,
}

fn copy_text(text: &Option<String>) -> (copy: Option<String>)
    ensures
        copy == *text,
{
    match text {
        Some(given) => Some(given.clone()),
        None => None,
    }
}

impl RadarApiV3 {
    /// What is told about a radar.
    pub open spec fn about<L>(info: RadarInfo<L>) -> RadarApiV3 {
        RadarApiV3 {
            name: info.user_name,
            brand: info.brand,
            model: info.model,
            radar_ip_address: info.address,
            replay: info.replay,
        }
    }

    /// Tells about a radar.
    pub fn from<L>(info: &RadarInfo<L>) -> (radar: RadarApiV3)
        ensures
            radar == RadarApiV3::about(*info),
    {
        RadarApiV3 {
            name: info.user_name.clone(),
            brand: info.brand.clone(),
            model: copy_text(&info.model),
            radar_ip_address: info.address,
            replay: info.replay,
        }
    }
}

/// The version of the radar API, and the discovered radars by their keys.
pub struct RadarsResponse {
    pub version: String,
    /// Ordered: clients that take "the first radar" would otherwise get a
    /// different one from request to request.
    pub radars: OrderedMap<RadarApiV3>,
}

/// The discovered radars by their keys.
pub open spec fn radars_by_key<L>(discovered: Seq<RadarInfo<L>>) -> Map<Seq<char>, RadarApiV3>
    decreases discovered.len(),
{
    if discovered.len() == 0 {
        Map::empty()
    } else {
        radars_by_key(discovered.drop_last()).insert(
            discovered.last().key@,
            RadarApiV3::about(discovered.last()),
        )
    }
}

/// Lists the discovered radars.
pub fn get_radars<L>(version: &str, discovered: &Vec<RadarInfo<L>>) -> (response: RadarsResponse)
    ensures
        response.version@ == version@,
        response.radars.well_formed(),
        response.radars@ == radars_by_key(discovered@),
{
    let mut radars: OrderedMap<RadarApiV3> = OrderedMap::new();
    assert(discovered@.take(0) =~= Seq::empty());
    for i in 0..discovered.len()
        invariant
            radars.well_formed(),
            radars@ == radars_by_key(discovered@.take(i as int)),
    {
        assert(discovered@.take(i + 1).drop_last() =~= discovered@.take(i as int));
        radars = radars.insert(discovered[i].key.clone(), RadarApiV3::from(&discovered[i]));
    }
    assert(discovered@.take(discovered.len() as int) =~= discovered@);
    RadarsResponse { version: version.to_owned(), radars }
}

/// Radars are listed in a stable order: two answers that hold the same radars
/// list them in the same order, whatever the order of discovery.
pub proof fn radars_are_listed_in_a_stable_order(one: RadarsResponse, other: RadarsResponse)
    requires
        one.radars.well_formed(),
        other.radars.well_formed(),
        one.radars@ == other.radars@,
    ensures
        one.radars.pairs() == other.radars.pairs(),
{
    walk_is_determined_by_contents(one.radars, other.radars);
}

/// Whether each radar has a key of its own.
pub open spec fn have_own_keys<L>(discovered: Seq<RadarInfo<L>>) -> bool {
    forall|i: int, j: int|
        0 <= i < j < discovered.len() ==> (#[trigger] discovered[i]).key@ != (
        #[trigger] discovered[j]).key@
}

proof fn lemma_radars_are_looked_up<L>(discovered: Seq<RadarInfo<L>>)
    requires
        have_own_keys(discovered),
    ensures
        forall|i: int|
            0 <= i < discovered.len() ==> radars_by_key(discovered).contains_key(
                (#[trigger] discovered[i]).key@,
            ) && radars_by_key(discovered)[discovered[i].key@] == RadarApiV3::about(discovered[i]),
        forall|key: Seq<char>| #[trigger]
            radars_by_key(discovered).contains_key(key) ==> exists|i: int|
                0 <= i < discovered.len() && (#[trigger] discovered[i]).key@ == key,
    decreases discovered.len(),
{
    if discovered.len() > 0 {
        let earlier = discovered.drop_last();
        let last = discovered.last();
        assert forall|i: int, j: int| 0 <= i < j < earlier.len() implies (#[trigger] earlier[i]).key@
            != (#[trigger] earlier[j]).key@ by {
            assert(discovered[i].key@ != discovered[j].key@);
        }
        lemma_radars_are_looked_up(earlier);
        assert forall|i: int| 0 <= i < discovered.len() implies radars_by_key(
            discovered,
        ).contains_key((#[trigger] discovered[i]).key@) && radars_by_key(
            discovered,
        )[discovered[i].key@] == RadarApiV3::about(discovered[i]) by {
            if i < earlier.len() {
                assert(earlier[i] == discovered[i]);
                assert(discovered[i].key@ != discovered[discovered.len() - 1].key@);
            }
        }
        assert forall|key: Seq<char>| #[trigger]
            radars_by_key(discovered).contains_key(key) implies exists|i: int|
            0 <= i < discovered.len() && (#[trigger] discovered[i]).key@ == key by {
            if key == last.key@ {
                assert(discovered[discovered.len() - 1].key@ == key);
            } else {
                let i = choose|i: int| 0 <= i < earlier.len() && (#[trigger] earlier[i]).key@ == key;
                assert(discovered[i].key@ == key);
            }
        }
    }
}

/// The order of discovery changes nothing in what is listed, as long as each
/// radar has a key of its own.
pub proof fn discovery_order_does_not_matter<L>(
    one: Seq<RadarInfo<L>>,
    other: Seq<RadarInfo<L>>,
)
    requires
        have_own_keys(one),
        have_own_keys(other),
        one.to_multiset() == other.to_multiset(),
    ensures
        radars_by_key(one) == radars_by_key(other),
{
    lemma_radars_are_looked_up(one);
    lemma_radars_are_looked_up(other);
    lemma_listed_too(one, other);
    lemma_listed_too(other, one);
    assert(radars_by_key(one) =~= radars_by_key(other));
}

proof fn lemma_listed_too<L>(one: Seq<RadarInfo<L>>, other: Seq<RadarInfo<L>>)
    requires
        have_own_keys(one),
        have_own_keys(other),
        one.to_multiset() == other.to_multiset(),
    ensures
        forall|key: Seq<char>| #[trigger]
            radars_by_key(one).contains_key(key) ==> radars_by_key(other).contains_key(key)
                && radars_by_key(other)[key] == radars_by_key(one)[key],
{
    lemma_radars_are_looked_up(one);
    lemma_radars_are_looked_up(other);
    broadcast use vstd::seq_lib::group_to_multiset_ensures;

    assert forall|key: Seq<char>| #[trigger] radars_by_key(one).contains_key(key) implies radars_by_key(
        other,
    ).contains_key(key) && radars_by_key(other)[key] == radars_by_key(one)[key] by {
        let i = choose|i: int| 0 <= i < one.len() && (#[trigger] one[i]).key@ == key;
        assert(one.contains(one[i]));
        assert(other.to_multiset().count(one[i]) > 0);
        assert(other.contains(one[i]));
        let j = choose|j: int| 0 <= j < other.len() && other[j] == one[i];
        assert(other[j].key@ == key);
    }
}

/// Answers a request for one radar.
pub fn get_radar_info<L>(radar_id: &str, lookup: RadarLookup<RadarInfo<L>>) -> (answer: Result<
    RadarApiV3,
    SignalKResponse,
>)
    ensures
        match lookup {
            RadarLookup::Found(info) => answer == Ok::<RadarApiV3, SignalKResponse>(
                RadarApiV3::about(info),
            ),
            RadarLookup::Missing(keys) => answer matches Err(response) && response.fails(
                NOT_FOUND,
                no_such_radar_text(radar_id@, texts_of(keys@)),
            ),
        },
{
    match find_radar(radar_id, lookup) {
        Ok(info) => Ok(RadarApiV3::from(&info)),
        Err(response) => Err(response),
    }
}

/// Whether and where this run keeps its settings.
pub enum SettingsStorage {
    /// In that file.
    Stored(String),
    /// Not at all, since that file cannot be written.
    Unwritable(String),
    /// Not at all, since a replay wants none kept.
    NotWanted,
}

/// A radar that was seen before.
pub struct KnownRadar {
    pub brand: Option<String>,
    pub name: String,
    pub model: Option<String>,
}

/// A radar the user has had working before.
pub struct KnownRadarApi {
    pub brand: Option<String>,
    pub name: String,
    pub model: Option<String>,
}

impl KnownRadarApi {
    /// What is told about a radar that was seen before.
    pub open spec fn about(known: KnownRadar) -> KnownRadarApi {
        KnownRadarApi { brand: known.brand, name: known.name, model: known.model }
    }

    /// Tells about a radar that was seen before.
    pub fn from(known: KnownRadar) -> (radar: KnownRadarApi)
        ensures
            radar == KnownRadarApi::about(known),
    {
        KnownRadarApi { brand: known.brand, name: known.name, model: known.model }
    }
}

/// Whether this run keeps what the user sets up.
pub struct ServerStatus {
    /// False when what is set now is gone after a restart.
    pub settings_stored: bool,
    /// The settings file in use, or the one that cannot be written. Absent on a
    /// replay, which wants none.
    pub settings_path: Option<String>,
    /// Radars this install has seen before. Empty on a first run, and on any run
    /// that cannot store settings.
    pub known_radars: Vec<KnownRadarApi>,
    /// Brands this build can look for.
    pub brands: Vec<String>,
}

impl ServerStatus {
    /// Tells whether this run keeps what the user sets up.
    pub fn new(
        storage: SettingsStorage,
        known_radars: Vec<KnownRadar>,
        brands: Vec<String>,
    ) -> (status: ServerStatus)
        ensures
            status.settings_stored == (storage is Stored),
            status.settings_path == (match storage {
                SettingsStorage::Stored(path) => Some(path),
                SettingsStorage::Unwritable(path) => Some(path),
                SettingsStorage::NotWanted => None,
            }),
            status.known_radars@ == (if storage is Stored {
                known_radars@.map_values(|known: KnownRadar| KnownRadarApi::about(known))
            } else {
                seq![]
            }),
            status.brands == brands,
    {
        let (settings_stored, settings_path) = match storage {
            SettingsStorage::Stored(path) => (true, Some(path)),
            SettingsStorage::Unwritable(path) => (false, Some(path)),
            SettingsStorage::NotWanted => (false, None),
        };
        let ghost all = known_radars@;
        let mut known: Vec<KnownRadarApi> = Vec::new();
        if settings_stored {
            let mut rest = known_radars;
            while rest.len() > 0
                invariant
                    known.len() <= all.len(),
                    rest@ =~= all.skip(known.len() as int),
                    known@ =~= all.take(known.len() as int).map_values(
                        |known: KnownRadar| KnownRadarApi::about(known),
                    ),
                decreases rest.len(),
            {
                known.push(KnownRadarApi::from(rest.remove(0)));
            }
        }
        ServerStatus { settings_stored, settings_path, known_radars: known, brands }
    }
}

/// What the user answered to whether this install may report that it works.
#[derive(Clone, Copy, Debug, PartialEq, Eq, Structural)]
pub enum Consent {
    Unavailable,
    Unasked,
    Granted,
    Denied,
}

/// How the API calls an answer.
pub open spec fn consent_text(consent: Consent) -> Seq<char> {
    match consent {
        Consent::Unavailable => "unavailable"@,
        Consent::Unasked => "unasked"@,
        Consent::Granted => "granted"@,
        Consent::Denied => "denied"@,
    }
}

/// How the API calls an answer.
pub fn consent_name(consent: Consent) -> (name: &'static str)
    ensures
        name@ == consent_text(consent),
{
    match consent {
        Consent::Unavailable => "unavailable",
        Consent::Unasked => "unasked",
        Consent::Granted => "granted",
        Consent::Denied => "denied",
    }
}

/// Different answers have different names.
pub proof fn consent_names_differ(a: Consent, b: Consent)
    requires
        consent_text(a) == consent_text(b),
    ensures
        a == b,
{
    reveal_strlit("unavailable");
    reveal_strlit("unasked");
    reveal_strlit("granted");
    reveal_strlit("denied");
    assert("unavailable"@.len() == 11);
    assert("unasked"@.len() == 7);
    assert("granted"@.len() == 7);
    assert("denied"@.len() == 6);
    assert("unasked"@[0] != "granted"@[0]);
}

/// Whether the user should be asked about usage reports, and what they answered.
pub struct TelemetryState {
    pub consent: &'static str,
}

impl TelemetryState {
    /// Tells how the question stands.
    pub fn new(consent: Consent) -> (state: TelemetryState)
        ensures
            state.consent@ == consent_text(consent),
    {
        TelemetryState { consent: consent_name(consent) }
    }
}

/// What a client is told that waits for a kind of radar which there is not.
pub open spec fn unknown_kind_text(expectation: Seq<char>) -> Seq<char> {
    "Unknown radar kind '"@ + expectation + "'"@
}

/// Goes on with the kind of radar that a client waits for, or answers that there
/// is no such kind.
pub fn get_network_check<E>(expectation: &str, kind: Option<E>) -> (answer: Result<
    E,
    SignalKResponse,
>)
    ensures
        match kind {
            Some(expected) => answer == Ok::<E, SignalKResponse>(expected),
            None => answer matches Err(response) && response.fails(
                NOT_FOUND,
                unknown_kind_text(expectation@),
            ),
        },
{
    match kind {
        Some(expected) => Ok(expected),
        None => Err(
            SignalKResponse::failed(
                NOT_FOUND,
                concat_three("Unknown radar kind '", expectation, "'"),
            ),
        ),
    }
}

/// What came of asking for the network interfaces.
pub enum InterfacesReply<A> {
    /// They could not be asked for.
    NotSent,
    /// Nothing came back.
    NotReceived,
    Received(A),
}

/// Answers a request for the network interfaces: with what came back, and with
/// none where nothing did.
pub fn get_interfaces<A>(reply: InterfacesReply<A>, none: A) -> (answer: A)
    ensures
        answer == (match reply {
            InterfacesReply::Received(interfaces) => interfaces,
            _ => none,
        }),
{
    match reply {
        InterfacesReply::Received(interfaces) => interfaces,
        _ => none,
    }
}

/// The controls of a radar, each once.
pub struct ControlTable<C> {
    entries: Vec<(ControlId, C)>,
}

/// Where in a list of controls one stands.
pub open spec fn control_place<C>(entries: Seq<(ControlId, C)>, id: ControlId) -> int {
    choose|i: int| 0 <= i < entries.len() && (#[trigger] entries[i]).0 == id
}

impl<C> View for ControlTable<C> {
    type V = Map<ControlId, C>;

    open spec fn view(&self) -> Map<ControlId, C> {
        Map::new(
            |id: ControlId|
                exists|i: int| 0 <= i < self.entries().len() && (#[trigger] self.entries()[i]).0 == id,
            |id: ControlId| self.entries()[control_place(self.entries(), id)].1,
        )
    }
}

impl<C> ControlTable<C> {
    /// The controls, in the order in which they came.
    pub closed spec fn entries(self) -> Seq<(ControlId, C)> {
        self.entries@
    }

    /// No control is there twice.
    #[verifier::type_invariant]
    pub open spec fn well_formed(self) -> bool {
        forall|i: int, j: int|
            0 <= i < j < self.entries().len() ==> (#[trigger] self.entries()[i]).0 != (
            #[trigger] self.entries()[j]).0
    }

    /// A table without controls.
    pub fn new() -> (table: ControlTable<C>)
        ensures
            table.well_formed(),
            table@ == Map::<ControlId, C>::empty(),
    {
        let table = ControlTable { entries: Vec::new() };
        assert(table@ =~= Map::<ControlId, C>::empty());
        table
    }

    /// Whether a control is there.
    pub fn contains(&self, id: ControlId) -> (there: bool)
        ensures
            there == self@.contains_key(id),
    {
        for i in 0..self.entries.len()
            invariant
                forall|j: int| 0 <= j < i ==> (#[trigger] self.entries()[j]).0 != id,
        {
            if self.entries[i].0 == id {
                assert(self.entries()[i as int].0 == id);
                return true;
            }
        }
        false
    }

    /// The table with a control in it, in place of an earlier one with the same
    /// id.
    pub fn insert(self, id: ControlId, control: C) -> (table: ControlTable<C>)
        ensures
            table.well_formed(),
            table@ == self@.insert(id, control),
    {
        proof {
            use_type_invariant(&self);
        }
        let ghost former = self.entries@;
        assert forall|i: int, j: int| 0 <= i < j < former.len() implies (#[trigger] former[i]).0 != (
        #[trigger] former[j]).0 by {
            assert(self.entries()[i].0 != self.entries()[j].0);
        }
        let mut entries = self.entries;
        let mut place: usize = 0;
        while place < entries.len() && entries[place].0 != id
            invariant
                entries@ == former,
                place <= former.len(),
                forall|j: int| 0 <= j < place ==> (#[trigger] former[j]).0 != id,
            decreases former.len() - place,
        {
            place += 1;
        }
        let ghost at = place as int;
        if place < entries.len() {
            entries.remove(place);
        }
        entries.insert(place, (id, control));
        let ghost added = entries@;
        proof {
            assert forall|i: int| 0 <= i < added.len() implies #[trigger] added[i] == (if i == at {
                (id, control)
            } else {
                former[i]
            }) by {}
            assert forall|i: int, j: int| 0 <= i < j < added.len() implies (#[trigger] added[i]).0
                != (#[trigger] added[j]).0 by {
                assert(i != at ==> added[i] == former[i]);
                assert(j != at ==> added[j] == former[j]);
                if i != at && j != at {
                    assert(former[i].0 != former[j].0);
                } else if i == at {
                    assert(former[at].0 != former[j].0);
                }
            }
        }
        let table = ControlTable { entries };
        proof {
            let expected = self@.insert(id, control);
            assert forall|k: ControlId| #[trigger] table@.contains_key(k) == expected.contains_key(
                k,
            ) by {
                if table@.contains_key(k) && k != id {
                    let i = control_place(added, k);
                    assert(former[i].0 == k);
                }
                if k == id {
                    assert(added[at].0 == k);
                } else if self@.contains_key(k) {
                    let i = control_place(former, k);
                    assert(added[i].0 == k);
                }
            }
            assert forall|k: ControlId| table@.contains_key(k) implies #[trigger] table@[k]
                == expected[k] by {
                let i = control_place(added, k);
                assert(0 <= i < added.len() && added[i].0 == k);
                if k == id {
                    assert(added[at].0 == id);
                    assert(i == at);
                } else {
                    assert(former[i].0 == k);
                    let j = control_place(former, k);
                    assert(0 <= j < former.len() && former[j].0 == k);
                    assert(i == j);
                }
            }
            assert(table@ =~= expected);
        }
        table
    }

    /// All the controls.
    pub fn into_entries(self) -> (entries: Vec<(ControlId, C)>)
        ensures
            entries@ == self.entries(),
    {
        self.entries
    }
}

/// What a radar unit can do, and how it is set up.
pub struct Capabilities<L, C> {
    /// In meters.
    pub max_range: u32,
    /// In meters.
    pub min_range: u32,
    /// In meters.
    pub supported_ranges: Vec<u32>,
    pub spokes_per_revolution: u16,
    pub max_spoke_length: u16,
    pub pixel_values: u8,
    pub legend: L,
    pub has_doppler: bool,
    pub has_dual_range: bool,
    pub has_dual_radar: bool,
    pub has_sparse_spokes: bool,
    pub no_transmit_sectors: u8,
    pub stationary: bool,
    pub controls: ControlTable<C>,
}

/// One where it is so, and zero where it is not.
pub open spec fn one_if(so: bool) -> int {
    if so {
        1
    } else {
        0
    }
}

/// How many no-transmit sectors there are among the controls.
pub open spec fn sector_count<C>(controls: Map<ControlId, C>) -> int {
    one_if(controls.contains_key(ControlId::NoTransmitSector1)) + one_if(
        controls.contains_key(ControlId::NoTransmitSector2),
    ) + one_if(controls.contains_key(ControlId::NoTransmitSector3)) + one_if(
        controls.contains_key(ControlId::NoTransmitSector4),
    )
}

fn count_if(so: bool) -> (count: u8)
    ensures
        count == one_if(so),
{
    if so {
        1
    } else {
        0
    }
}

impl<L, C> Capabilities<L, C> {
    /// Whether these are the capabilities of a radar with those controls.
    pub open spec fn are_of(self, info: RadarInfo<L>, controls: ControlTable<C>) -> bool {
        let ranges = info.ranges@.map_values(|distance: i32| distance as u32);
        &&& self.supported_ranges@ == ranges
        &&& self.max_range == (if ranges.len() == 0 {
            0
        } else {
            ranges.last()
        })
        &&& self.min_range == (if ranges.len() == 0 {
            0
        } else {
            ranges.first()
        })
        &&& self.spokes_per_revolution == info.spokes_per_revolution
        &&& self.max_spoke_length == info.max_spoke_len
        &&& self.pixel_values == info.pixel_values
        &&& self.legend == info.legend
        &&& self.has_doppler == info.doppler
        &&& self.has_dual_range == info.dual_range
        &&& self.has_dual_radar == (info.dual is Some)
        &&& self.has_sparse_spokes == info.sparse_spokes
        &&& self.no_transmit_sectors == sector_count(controls@)
        &&& self.stationary == info.stationary
        &&& self.controls == controls
    }

    /// Tells what a radar can do, from the radar and its controls.
    pub fn new(info: RadarInfo<L>, controls: ControlTable<C>) -> (capabilities: Capabilities<L, C>)
        ensures
            capabilities.are_of(info, controls),
    {
        let ghost expected = info.ranges@.map_values(|distance: i32| distance as u32);
        let mut supported_ranges: Vec<u32> = Vec::new();
        for i in 0..info.ranges.len()
            invariant
                expected == info.ranges@.map_values(|distance: i32| distance as u32),
                supported_ranges@ =~= expected.take(i as int),
        {
            supported_ranges.push(info.ranges[i] as u32);
        }
        assert(expected.take(info.ranges.len() as int) =~= expected);
        let count = supported_ranges.len();
        let (min_range, max_range): (u32, u32) = if count == 0 {
            (0, 0)
        } else {
            (supported_ranges[0], supported_ranges[count - 1])
        };
        let no_transmit_sectors: u8 = count_if(controls.contains(ControlId::NoTransmitSector1))
            + count_if(controls.contains(ControlId::NoTransmitSector2)) + count_if(
            controls.contains(ControlId::NoTransmitSector3),
        ) + count_if(controls.contains(ControlId::NoTransmitSector4));
        Capabilities {
            max_range,
            min_range,
            supported_ranges,
            spokes_per_revolution: info.spokes_per_revolution,
            max_spoke_length: info.max_spoke_len,
            pixel_values: info.pixel_values,
            legend: info.legend,
            has_doppler: info.doppler,
            has_dual_range: info.dual_range,
            has_dual_radar: info.dual.is_some(),
            has_sparse_spokes: info.sparse_spokes,
            no_transmit_sectors,
            stationary: info.stationary,
            controls,
        }
    }
}

/// Answers a request for the capabilities of a radar.
pub fn get_radar<L, C>(
    radar_id: &str,
    lookup: RadarLookup<(RadarInfo<L>, ControlTable<C>)>,
) -> (answer: Result<Capabilities<L, C>, SignalKResponse>)
    ensures
        match lookup {
            RadarLookup::Found((info, controls)) => answer matches Ok(capabilities)
                && capabilities.are_of(info, controls),
            RadarLookup::Missing(keys) => answer matches Err(response) && response.fails(
                NOT_FOUND,
                no_such_radar_text(radar_id@, texts_of(keys@)),
            ),
        },
{
    match find_radar(radar_id, lookup) {
        Ok((info, controls)) => Ok(Capabilities::new(info, controls)),
        Err(response) => Err(response),
    }
}

/// A radar is told of by its own name, brand, model and address, and by whether
/// it is played back; one that was seen before by its brand, name and model.
pub proof fn radars_are_told_of_as_they_are<L>(info: RadarInfo<L>, known: KnownRadar)
    ensures
        RadarApiV3::about(info).name == info.user_name,
        RadarApiV3::about(info).brand == info.brand,
        RadarApiV3::about(info).model == info.model,
        RadarApiV3::about(info).radar_ip_address == info.address,
        RadarApiV3::about(info).replay == info.replay,
        KnownRadarApi::about(known).brand == known.brand,
        KnownRadarApi::about(known).name == known.name,
        KnownRadarApi::about(known).model == known.model,
{
}

/// Every discovered radar is listed under its key, as it was discovered last, and
/// nothing else is listed.
pub proof fn every_discovered_radar_is_listed<L>(
    discovered: Seq<RadarInfo<L>>,
    key: Seq<char>,
    i: int,
)
    ensures
        radars_by_key(discovered).contains_key(key) <==> exists|k: int|
            0 <= k < discovered.len() && (#[trigger] discovered[k]).key@ == key,
        0 <= i < discovered.len() && (forall|k: int|
            i < k < discovered.len() ==> (#[trigger] discovered[k]).key@ != discovered[i].key@)
            ==> radars_by_key(discovered).contains_key(discovered[i].key@) && radars_by_key(
            discovered,
        )[discovered[i].key@].name == discovered[i].user_name && radars_by_key(
            discovered,
        )[discovered[i].key@] == RadarApiV3::about(discovered[i]),
    decreases discovered.len(),
{
    if discovered.len() > 0 {
        let earlier = discovered.drop_last();
        every_discovered_radar_is_listed(earlier, key, i);
        if radars_by_key(earlier).contains_key(key) {
            let k = choose|k: int| 0 <= k < earlier.len() && (#[trigger] earlier[k]).key@ == key;
            assert(discovered[k].key@ == key);
        }
        if exists|k: int| 0 <= k < discovered.len() && (#[trigger] discovered[k]).key@ == key {
            let k = choose|k: int|
                0 <= k < discovered.len() && (#[trigger] discovered[k]).key@ == key;
            if k < earlier.len() {
                assert(earlier[k].key@ == key);
            }
        }
        if discovered.last().key@ == key {
            assert(discovered[discovered.len() - 1].key@ == key);
        }
        if 0 <= i < earlier.len() && (forall|k: int|
            i < k < discovered.len() ==> (#[trigger] discovered[k]).key@ != discovered[i].key@) {
            assert forall|k: int| i < k < earlier.len() implies (#[trigger] earlier[k]).key@
                != earlier[i].key@ by {
                assert(discovered[k].key@ != discovered[i].key@);
            }
            assert(discovered[discovered.len() - 1].key@ != discovered[i].key@);
        }
    }
}

/// The words for an answer are those the API is known by.
pub proof fn consent_goes_by_its_name(consent: Consent)
    ensures
        consent is Unavailable ==> consent_text(consent) == "unavailable"@,
        consent is Unasked ==> consent_text(consent) == "unasked"@,
        consent is Granted ==> consent_text(consent) == "granted"@,
        consent is Denied ==> consent_text(consent) == "denied"@,
{
}

/// A client that waits for an unknown kind of radar is told the kind.
pub proof fn unknown_kind_is_told(expectation: Seq<char>)
    ensures
        unknown_kind_text(expectation) == "Unknown radar kind '"@ + (expectation + "'"@),
{
    assert(unknown_kind_text(expectation) =~= "Unknown radar kind '"@ + (expectation + "'"@));
}

/// A table of controls holds what its entries say, and no control twice.
pub proof fn tables_hold_their_entries<C>(table: ControlTable<C>, id: ControlId, i: int, j: int)
    requires
        table.well_formed(),
    ensures
        0 <= i < table.entries().len() ==> table@.contains_key(table.entries()[i].0)
            && table@[table.entries()[i].0] == table.entries()[i].1,
        table@.contains_key(id) <==> exists|k: int|
            0 <= k < table.entries().len() && (#[trigger] table.entries()[k]).0 == id,
        0 <= i < j < table.entries().len() ==> table.entries()[i].0 != table.entries()[j].0,
{
    if 0 <= i < table.entries().len() {
        let k = control_place(table.entries(), table.entries()[i].0);
        assert(0 <= k < table.entries().len() && table.entries()[k].0 == table.entries()[i].0);
    }
}

/// The ids of no-transmit sectors.
pub open spec fn sector_ids() -> Set<ControlId> {
    set![
        ControlId::NoTransmitSector1,
        ControlId::NoTransmitSector2,
        ControlId::NoTransmitSector3,
        ControlId::NoTransmitSector4,
    ]
}

/// As many sectors are counted as there are no-transmit sectors among the
/// controls.
pub proof fn sectors_are_counted<C>(controls: Map<ControlId, C>)
    ensures
        sector_count(controls) == sector_ids().filter(
            |id: ControlId| controls.contains_key(id),
        ).len(),
{
    let s1 = ControlId::NoTransmitSector1;
    let s2 = ControlId::NoTransmitSector2;
    let s3 = ControlId::NoTransmitSector3;
    let s4 = ControlId::NoTransmitSector4;
    let none = Set::<ControlId>::empty();
    let one = if controls.contains_key(s1) {
        none.insert(s1)
    } else {
        none
    };
    let two = if controls.contains_key(s2) {
        one.insert(s2)
    } else {
        one
    };
    let three = if controls.contains_key(s3) {
        two.insert(s3)
    } else {
        two
    };
    let four = if controls.contains_key(s4) {
        three.insert(s4)
    } else {
        three
    };
    assert(four =~= sector_ids().filter(|id: ControlId| controls.contains_key(id)));
}

/// The capabilities are those of the radar, each in its field: its ranges one by
/// one, the first and the last of them as the shortest and the longest, and
/// everything else as the radar has it.
pub proof fn capabilities_are_those_of_the_radar<L, C>(
    capabilities: Capabilities<L, C>,
    info: RadarInfo<L>,
    controls: ControlTable<C>,
    i: int,
)
    requires
        capabilities.are_of(info, controls),
    ensures
        capabilities.supported_ranges@.len() == info.ranges@.len(),
        0 <= i < info.ranges@.len() ==> capabilities.supported_ranges@[i] == (info.ranges@[i]
            as u32),
        info.ranges@.len() > 0 ==> capabilities.min_range == (info.ranges@[0] as u32)
            && capabilities.max_range == (info.ranges@[info.ranges@.len() - 1] as u32),
        info.ranges@.len() == 0 ==> capabilities.min_range == 0 && capabilities.max_range == 0,
        capabilities.spokes_per_revolution == info.spokes_per_revolution,
        capabilities.max_spoke_length == info.max_spoke_len,
        capabilities.pixel_values == info.pixel_values,
        capabilities.legend == info.legend,
        capabilities.has_doppler == info.doppler,
        capabilities.has_dual_range == info.dual_range,
        capabilities.has_dual_radar <==> info.dual is Some,
        capabilities.has_sparse_spokes == info.sparse_spokes,
        capabilities.stationary == info.stationary,
        capabilities.no_transmit_sectors == sector_ids().filter(
            |id: ControlId| controls@.contains_key(id),
        ).len(),
        capabilities.controls == controls,
{
    sectors_are_counted(controls@);
}

} // verus!
