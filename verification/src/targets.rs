//! Acquiring, listing and dropping targets.
use crate::order::texts_of;
use crate::response::{
    find_radar, no_such_radar_text, RadarLookup, SignalKResponse, BAD_REQUEST,
    INTERNAL_SERVER_ERROR, NOT_FOUND,
};
use crate::text::{concat_three, decimal, decimal_reads_back, number_read, to_decimal};
use vstd::prelude::*;

verus! {

pub const TRACKING_DISABLED: &'static str = "Target tracking not enabled (use --targets arpa)";

pub const NO_RADAR_POSITION: &'static str =
    "No radar position available for bearing/distance conversion";

pub const NO_TARGET_POSITION: &'static str =
    "Must provide either latitude/longitude or bearing/distance";

pub const ACQUISITION_NOT_SENT: &'static str = "Failed to send acquisition request";

pub const TARGETS_REQUEST_NOT_SENT: &'static str = "Failed to send get targets request";

pub const TARGETS_NOT_RECEIVED: &'static str = "Failed to receive targets response";

pub const DELETION_NOT_SENT: &'static str = "Failed to send delete request";

/// The size, in meters, that a ship is taken to have.
pub const SHIP_SIZE_METERS: u32 = 30;

/// Whether a request about targets fails before it gets to the tracker: its
/// radar must be there, and targets must be tracked at all.
pub open spec fn is_turned_away<R>(
    radar_id: Seq<char>,
    lookup: RadarLookup<R>,
    tracking: bool,
    response: SignalKResponse,
) -> bool {
    match lookup {
        RadarLookup::Missing(keys) => response.fails(
            NOT_FOUND,
            no_such_radar_text(radar_id, texts_of(keys@)),
        ),
        RadarLookup::Found(_) => !tracking && response.fails(BAD_REQUEST, TRACKING_DISABLED@),
    }
}

/// Hands out the radar that a request about targets is for, or the answer that
/// turns the request away.
pub fn find_tracked_radar<R>(
    radar_id: &str,
    lookup: RadarLookup<R>,
    tracking: bool,
) -> (radar: Result<R, SignalKResponse>)
    ensures
        match radar {
            Ok(found) => lookup == RadarLookup::Found(found) && tracking,
            Err(response) => is_turned_away(radar_id@, lookup, tracking, response),
        },
{
    match find_radar(radar_id, lookup) {
        Err(response) => Err(response),
        Ok(found) => if tracking {
            Ok(found)
        } else {
            Err(SignalKResponse::failed(BAD_REQUEST, TRACKING_DISABLED.to_owned()))
        },
    }
}

/// Where a target is to be acquired, in one of two ways: by latitude and
/// longitude, or by bearing and distance from the radar.
pub struct AcquireTargetRequest<N> {
    /// Bearing in radians true.
    pub bearing: Option<N>,
    /// Distance in meters.
    pub distance: Option<N>,
    /// Latitude in decimal degrees.
    pub latitude: Option<N>,
    /// Longitude in decimal degrees.
    pub longitude: Option<N>,
}

/// The position that a request gives.
pub enum TargetPosition<N, P> {
    At { latitude: N, longitude: N },
    /// To be worked out from the position of the radar.
    FromRadar { radar: P, bearing: N, distance: N },
}

/// A target to be acquired.
pub struct Acquisition<N, P> {
    pub radar_key: String,
    pub position: TargetPosition<N, P>,
}

impl<N> AcquireTargetRequest<N> {
    /// Whether the request gives latitude and longitude.
    pub open spec fn is_geographic(self) -> bool {
        self.latitude is Some && self.longitude is Some
    }

    /// Whether the request gives bearing and distance.
    pub open spec fn is_relative(self) -> bool {
        self.bearing is Some && self.distance is Some
    }
}

/// Whether a decision on a request to acquire a target is right by where the
/// request puts the target, its radar being there and targets being tracked.
pub open spec fn locates<N, P>(
    radar_key: String,
    request: AcquireTargetRequest<N>,
    radar_position: Option<P>,
    decision: Result<Acquisition<N, P>, SignalKResponse>,
) -> bool {
    match (request.latitude, request.longitude, request.bearing, request.distance) {
        (Some(latitude), Some(longitude), _, _) => decision == Ok::<
            Acquisition<N, P>,
            SignalKResponse,
        >(Acquisition { radar_key, position: TargetPosition::At { latitude, longitude } }),
        (_, _, Some(bearing), Some(distance)) => match radar_position {
            Some(radar) => decision == Ok::<Acquisition<N, P>, SignalKResponse>(
                Acquisition {
                    radar_key,
                    position: TargetPosition::FromRadar { radar, bearing, distance },
                },
            ),
            None => decision matches Err(response) && response.fails(
                BAD_REQUEST,
                NO_RADAR_POSITION@,
            ),
        },
        _ => decision matches Err(response) && response.fails(BAD_REQUEST, NO_TARGET_POSITION@),
    }
}

/// A request that gives latitude and longitude is accepted with exactly that
/// position, whatever else it gives or leaves out and wherever the radar is.
pub proof fn latitude_and_longitude_are_enough<N, P>(
    radar_key: String,
    request: AcquireTargetRequest<N>,
    radar_position: Option<P>,
    decision: Result<Acquisition<N, P>, SignalKResponse>,
    latitude: N,
    longitude: N,
)
    requires
        locates(radar_key, request, radar_position, decision),
        request.latitude == Some(latitude),
        request.longitude == Some(longitude),
    ensures
        request.is_geographic(),
        decision is Ok,
        decision->Ok_0.radar_key == radar_key,
        decision->Ok_0.position == (TargetPosition::<N, P>::At { latitude, longitude }),
{
}

/// A request that gives bearing and distance, and not both latitude and
/// longitude, is accepted exactly where the position of the radar is known, and
/// counts from there.
pub proof fn bearing_and_distance_count_from_the_radar<N, P>(
    radar_key: String,
    request: AcquireTargetRequest<N>,
    radar_position: Option<P>,
    decision: Result<Acquisition<N, P>, SignalKResponse>,
    bearing: N,
    distance: N,
)
    requires
        locates(radar_key, request, radar_position, decision),
        request.latitude is None || request.longitude is None,
        request.bearing == Some(bearing),
        request.distance == Some(distance),
    ensures
        request.is_relative() && !request.is_geographic(),
        decision is Ok <==> radar_position is Some,
        radar_position matches Some(radar) ==> decision->Ok_0.radar_key == radar_key
            && decision->Ok_0.position == (TargetPosition::<N, P>::FromRadar {
            radar,
            bearing,
            distance,
        }),
        radar_position is None ==> decision->Err_0.status_code == 400
            && decision->Err_0.message@
            == "No radar position available for bearing/distance conversion"@,
{
}

/// A request that gives neither pair in full is turned away.
pub proof fn half_a_position_is_none<N, P>(
    radar_key: String,
    request: AcquireTargetRequest<N>,
    radar_position: Option<P>,
    decision: Result<Acquisition<N, P>, SignalKResponse>,
)
    requires
        locates(radar_key, request, radar_position, decision),
        request.latitude is None || request.longitude is None,
        request.bearing is None || request.distance is None,
    ensures
        !request.is_geographic() && !request.is_relative(),
        decision is Err,
        decision->Err_0.status_code == 400,
        decision->Err_0.state@ == "FAILED"@,
        decision->Err_0.message@ == "Must provide either latitude/longitude or bearing/distance"@,
{
}

/// Decides on a request to acquire a target. Latitude and longitude go before
/// bearing and distance, where both are given; half of one counts for nothing.
/// The position of the radar is asked for only with bearing and distance.
pub fn acquire_target<N, P>(
    radar_id: &str,
    lookup: RadarLookup<String>,
    tracking: bool,
    request: AcquireTargetRequest<N>,
    radar_position: Option<P>,
) -> (decision: Result<Acquisition<N, P>, SignalKResponse>)
    ensures
        if lookup is Missing || !tracking {
            decision matches Err(response) && is_turned_away(radar_id@, lookup, tracking, response)
        } else if request.is_geographic() {
            decision matches Ok(acquisition) && {
                &&& lookup == RadarLookup::Found(acquisition.radar_key)
                &&& acquisition.position == TargetPosition::<N, P>::At {
                    latitude: request.latitude->0,
                    longitude: request.longitude->0,
                }
            }
        } else if request.is_relative() {
            match radar_position {
                Some(radar) => decision matches Ok(acquisition) && {
                    &&& lookup == RadarLookup::Found(acquisition.radar_key)
                    &&& acquisition.position == TargetPosition::<N, P>::FromRadar {
                        radar,
                        bearing: request.bearing->0,
                        distance: request.distance->0,
                    }
                },
                None => decision matches Err(response) && response.fails(
                    BAD_REQUEST,
                    NO_RADAR_POSITION@,
                ),
            }
        } else {
            decision matches Err(response) && response.fails(BAD_REQUEST, NO_TARGET_POSITION@)
        },
        lookup matches RadarLookup::Found(radar_key) ==> (tracking ==> locates(
            radar_key,
            request,
            radar_position,
            decision,
        )),
{
    let radar_key = match find_tracked_radar(radar_id, lookup, tracking) {
        Ok(radar_key) => radar_key,
        Err(response) => return Err(response),
    };
    match (request.latitude, request.longitude, request.bearing, request.distance) {
        (Some(latitude), Some(longitude), _, _) => Ok(
            Acquisition { radar_key, position: TargetPosition::At { latitude, longitude } },
        ),
        (_, _, Some(bearing), Some(distance)) => match radar_position {
            Some(radar) => Ok(
                Acquisition {
                    radar_key,
                    position: TargetPosition::FromRadar { radar, bearing, distance },
                },
            ),
            None => Err(SignalKResponse::failed(BAD_REQUEST, NO_RADAR_POSITION.to_owned())),
        },
        _ => Err(SignalKResponse::failed(BAD_REQUEST, NO_TARGET_POSITION.to_owned())),
    }
}

/// What the tracker is told to acquire a target.
pub struct MarpaRequest<P> {
    pub radar_key: String,
    /// The number that the tracker keeps for the target.
    pub target_id: usize,
    pub position: P,
    /// The position of the radar, if it is known.
    pub radar_position: Option<P>,
    /// Milliseconds since 1970 began.
    pub time: u64,
    pub size_meters: u32,
}

/// Tells the tracker to acquire a target under a number that the tracker has
/// set aside for it. `elapsed` is the time since 1970 began in milliseconds,
/// where the clock does not stand before that.
pub fn marpa_request<P>(
    radar_key: &str,
    target_id: usize,
    position: P,
    radar_position: Option<P>,
    elapsed: Option<u128>,
) -> (request: MarpaRequest<P>)
    ensures
        request.radar_key@ == radar_key@,
        request.target_id == target_id,
        request.position == position,
        request.radar_position == radar_position,
        request.time == (match elapsed {
            Some(millis) => millis as u64,
            None => 0,
        }),
        request.size_meters == SHIP_SIZE_METERS,
{
    let time: u64 = match elapsed {
        Some(millis) => millis as u64,
        None => 0,
    };
    MarpaRequest {
        radar_key: radar_key.to_owned(),
        target_id,
        position,
        radar_position,
        time,
        size_meters: SHIP_SIZE_METERS,
    }
}

/// The answer to a request to acquire a target.
pub struct AcquireTargetResponse {
    /// The number that tells the target from all others.
    pub target_id: usize,
    pub radar_id: String,
}

/// What is said of a target that the tracker was told to acquire.
pub open spec fn acquired_response(radar_key: String, target_id: usize) -> AcquireTargetResponse {
    AcquireTargetResponse { target_id, radar_id: radar_key }
}

/// Two answers carry one number exactly if the tracker set aside one number for
/// both targets: targets that it tells apart are told apart in the answers.
pub proof fn acquired_targets_are_told_apart(
    radar_key: String,
    target_id: usize,
    other_radar_key: String,
    other_target_id: usize,
)
    ensures
        acquired_response(radar_key, target_id).target_id == acquired_response(
            other_radar_key,
            other_target_id,
        ).target_id <==> target_id == other_target_id,
        acquired_response(radar_key, target_id).target_id == target_id,
        acquired_response(radar_key, target_id).radar_id == radar_key,
{
}

/// Answers a request to acquire a target, by the number that the tracker has set
/// aside for it and by whether the tracker was told.
pub fn acquire_target_answer(radar_key: String, target_id: usize, sent: bool) -> (answer: Result<
    AcquireTargetResponse,
    SignalKResponse,
>)
    ensures
        if sent {
            answer == Ok::<AcquireTargetResponse, SignalKResponse>(
                acquired_response(radar_key, target_id),
            )
        } else {
            answer matches Err(response) && response.fails(
                INTERNAL_SERVER_ERROR,
                ACQUISITION_NOT_SENT@,
            )
        },
{
    if sent {
        Ok(AcquireTargetResponse { target_id, radar_id: radar_key })
    } else {
        Err(SignalKResponse::failed(INTERNAL_SERVER_ERROR, ACQUISITION_NOT_SENT.to_owned()))
    }
}

/// What the tracker is asked to list targets.
pub struct GetTargets<P> {
    /// The radar whose targets are meant.
    pub radar_key: Option<String>,
    pub radar_position: Option<P>,
}

/// Decides on a request for the targets of a radar.
pub fn get_targets<P>(
    radar_id: String,
    lookup: RadarLookup<()>,
    tracking: bool,
    radar_position: Option<P>,
) -> (decision: Result<GetTargets<P>, SignalKResponse>)
    ensures
        if lookup is Missing || !tracking {
            decision matches Err(response) && is_turned_away(radar_id@, lookup, tracking, response)
        } else {
            decision matches Ok(command) && command.radar_key == Some(radar_id)
                && command.radar_position == radar_position
        },
{
    match find_tracked_radar(radar_id.as_str(), lookup, tracking) {
        Err(response) => Err(response),
        Ok(_) => Ok(GetTargets { radar_key: Some(radar_id), radar_position }),
    }
}

/// What came of asking the tracker for targets.
pub enum TargetsReply<T> {
    /// The tracker could not be asked.
    NotSent,
    /// The tracker did not answer.
    NotReceived,
    Received(T),
}

/// Answers a request for targets, by what came of asking the tracker.
pub fn get_targets_answer<T>(reply: TargetsReply<T>) -> (answer: Result<T, SignalKResponse>)
    ensures
        match reply {
            TargetsReply::Received(targets) => answer == Ok::<T, SignalKResponse>(targets),
            TargetsReply::NotSent => answer matches Err(response) && response.fails(
                INTERNAL_SERVER_ERROR,
                TARGETS_REQUEST_NOT_SENT@,
            ),
            TargetsReply::NotReceived => answer matches Err(response) && response.fails(
                INTERNAL_SERVER_ERROR,
                TARGETS_NOT_RECEIVED@,
            ),
        },
{
    match reply {
        TargetsReply::Received(targets) => Ok(targets),
        TargetsReply::NotSent => Err(
            SignalKResponse::failed(INTERNAL_SERVER_ERROR, TARGETS_REQUEST_NOT_SENT.to_owned()),
        ),
        TargetsReply::NotReceived => Err(
            SignalKResponse::failed(INTERNAL_SERVER_ERROR, TARGETS_NOT_RECEIVED.to_owned()),
        ),
    }
}

/// What the tracker is told to drop a target.
pub struct DeleteTarget {
    pub radar_key: String,
    pub target_id: u64,
}

/// What a client is told that wants a target dropped which is not tracked.
pub open spec fn no_such_target_text(target_id: u64) -> Seq<char> {
    "Unknown target '"@ + decimal(target_id as nat) + "'"@
}

fn contains_target(targets: &Vec<u64>, target_id: u64) -> (found: bool)
    ensures
        found == targets@.contains(target_id),
{
    for i in 0..targets.len()
        invariant
            forall|j: int| 0 <= j < i ==> targets[j] != target_id,
    {
        if targets[i] == target_id {
            assert(targets@[i as int] == target_id);
            return true;
        }
    }
    false
}

/// Decides on a request to drop a target, by the numbers of the targets that
/// the tracker says it tracks for the radar. A target that is not among them is
/// not found. Where the tracker does not say, it is told to drop the target all
/// the same.
pub fn delete_target(
    radar_id: String,
    target_id: u64,
    lookup: RadarLookup<()>,
    tracking: bool,
    known: TargetsReply<Vec<u64>>,
) -> (decision: Result<DeleteTarget, SignalKResponse>)
    ensures
        if lookup is Missing || !tracking {
            decision matches Err(response) && is_turned_away(radar_id@, lookup, tracking, response)
        } else if known matches TargetsReply::Received(targets) && !targets@.contains(target_id) {
            decision matches Err(response) && response.fails(
                NOT_FOUND,
                no_such_target_text(target_id),
            )
        } else {
            decision == Ok::<DeleteTarget, SignalKResponse>(
                DeleteTarget { radar_key: radar_id, target_id },
            )
        },
{
    match find_tracked_radar(radar_id.as_str(), lookup, tracking) {
        Err(response) => return Err(response),
        Ok(_) => {},
    }
    if let TargetsReply::Received(targets) = known {
        if !contains_target(&targets, target_id) {
            let id = to_decimal(target_id);
            let message = concat_three("Unknown target '", id.as_str(), "'");
            return Err(SignalKResponse::failed(NOT_FOUND, message));
        }
    }
    Ok(DeleteTarget { radar_key: radar_id, target_id })
}

/// Answers a request to drop a target, by whether the tracker was told.
pub fn delete_target_answer(sent: bool) -> (response: SignalKResponse)
    ensures
        if sent {
            response.completes()
        } else {
            response.fails(INTERNAL_SERVER_ERROR, DELETION_NOT_SENT@)
        },
{
    if sent {
        SignalKResponse::ok()
    } else {
        SignalKResponse::failed(INTERNAL_SERVER_ERROR, DELETION_NOT_SENT.to_owned())
    }
}

/// A request about targets is turned away before it gets to the tracker exactly
/// where its radar is not there, which is not found, or where nothing is tracked,
/// which makes it no good request.
pub proof fn untracked_requests_are_turned_away<R>(
    radar_id: Seq<char>,
    lookup: RadarLookup<R>,
    tracking: bool,
    response: SignalKResponse,
)
    requires
        is_turned_away(radar_id, lookup, tracking, response),
    ensures
        lookup is Missing || !tracking,
        response.state@ == "FAILED"@,
        response.status_code == 404 <==> lookup is Missing,
        response.status_code == 400 <==> lookup is Found,
        lookup matches RadarLookup::Missing(keys) ==> response.message@ == no_such_radar_text(
            radar_id,
            texts_of(keys@),
        ),
        lookup is Found ==> response.message@
            == "Target tracking not enabled (use --targets arpa)"@,
{
}

/// A client that wants a target dropped which is not tracked is told its number
/// as it can be read.
pub proof fn missing_target_is_told(target_id: u64)
    ensures
        no_such_target_text(target_id).take(16) == "Unknown target '"@,
        no_such_target_text(target_id).last() == '\'',
        number_read(no_such_target_text(target_id).drop_last().skip(16), 10) == target_id,
{
    reveal_strlit("Unknown target '");
    reveal_strlit("'");
    decimal_reads_back(target_id as nat);
    let text = no_such_target_text(target_id);
    assert("Unknown target '"@.len() == 16);
    assert(text.take(16) =~= "Unknown target '"@);
    assert(text.drop_last().skip(16) =~= decimal(target_id as nat));
}

} // verus!
