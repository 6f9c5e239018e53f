//! Reading and writing the controls of a radar.
use crate::json::{document, fields_of, get_controls, Json};
use crate::order::{sort_texts, sorted_elements_are_the_same, sorted_texts, texts_of};
use crate::ordered::{pairs_of, walk_is_determined_by_contents, OrderedMap};
use crate::response::{
    find_radar, no_such_radar, no_such_radar_text, RadarLookup, SignalKResponse, BAD_REQUEST,
    NOT_FOUND,
};
use crate::text::{concat_three, join, joined, quote_list, quoted_list};
use serde_json::Value;
use vstd::prelude::*;

verus! {

/// How long, in milliseconds, a control PUT waits for the radar to object
/// before it reports success. Most controls only send a reply when they reject
/// a value.
pub const CONTROL_REPLY_TIMEOUT_MILLIS: u64 = 100;

/// The controls of radars: those that are treated in a way of their own, and
/// all others by their number.
#[derive(Clone, Copy, Debug, PartialEq, Eq, Structural)]
pub enum ControlId {
    GuardZone1,
    GuardZone2,
    ExclusionZone1,
    ExclusionZone2,
    ExclusionZone3,
    ExclusionZone4,
    ExclusionRect1,
    ExclusionRect2,
    ExclusionRect3,
    ExclusionRect4,
    NoTransmitSector1,
    NoTransmitSector2,
    NoTransmitSector3,
    NoTransmitSector4,
    UserName,
    AutoStandby,
    Other(u16),
}

/// Whether the value of a control survives a restart.
pub open spec fn is_persistent(id: ControlId) -> bool {
    match id {
        ControlId::GuardZone1 | ControlId::GuardZone2 => true,
        ControlId::ExclusionZone1 | ControlId::ExclusionZone2 => true,
        ControlId::ExclusionZone3 | ControlId::ExclusionZone4 => true,
        ControlId::ExclusionRect1 | ControlId::ExclusionRect2 => true,
        ControlId::ExclusionRect3 | ControlId::ExclusionRect4 => true,
        ControlId::UserName | ControlId::AutoStandby => true,
        ControlId::NoTransmitSector1 | ControlId::NoTransmitSector2 => false,
        ControlId::NoTransmitSector3 | ControlId::NoTransmitSector4 => false,
        ControlId::Other(_) => false,
    }
}

/// The radar whose settings are to be written to disk once it took a write to
/// that control, whichever way the write came.
pub open spec fn radar_to_save(id: ControlId, radar_key: String) -> Option<String> {
    if is_persistent(id) {
        Some(radar_key)
    } else {
        None
    }
}

/// Controls whose value survives a restart and so must be written to disk.
pub fn control_needs_persistence(id: ControlId) -> (needed: bool)
    ensures
        needed == is_persistent(id),
{
    match id {
        ControlId::GuardZone1
        | ControlId::GuardZone2
        | ControlId::ExclusionZone1
        | ControlId::ExclusionZone2
        | ControlId::ExclusionZone3
        | ControlId::ExclusionZone4
        | ControlId::ExclusionRect1
        | ControlId::ExclusionRect2
        | ControlId::ExclusionRect3
        | ControlId::ExclusionRect4
        | ControlId::UserName
        | ControlId::AutoStandby => true,
        _ => false,
    }
}

/// A control, with the names it goes by.
pub struct Control {
    pub id: ControlId,
    /// The canonical name, which paths and usage reports have.
    pub name: String,
    /// The name that messages have.
    pub label: String,
}

/// What looking for a control on a radar gave.
pub struct OnRadar<C> {
    pub radar_key: String,
    /// The control, or nothing where the radar has none of that name.
    pub control: Option<C>,
    /// The names of all the controls that the radar has.
    pub control_keys: Vec<String>,
}

/// What a client is told that named a control which its radar does not have.
pub open spec fn unknown_control_text(control_id: Seq<char>, keys: Seq<Seq<char>>) -> Seq<char> {
    "Unknown control '"@ + control_id + "' -- use "@ + quoted_list(keys) + " instead"@
}

/// The answer to a request for a control that the radar does not have. It names
/// those that it has.
pub fn unknown_control(control_id: &str, keys: &Vec<String>) -> (response: SignalKResponse)
    ensures
        response.fails(NOT_FOUND, unknown_control_text(control_id@, texts_of(keys@))),
{
    let mut message = "Unknown control '".to_owned();
    message.append(control_id);
    message.append("' -- use ");
    message.append(quote_list(keys).as_str());
    message.append(" instead");
    SignalKResponse::failed(NOT_FOUND, message)
}

/// Answers a request for the value of a control.
pub fn get_control_value<V>(
    radar_id: &str,
    control_id: &str,
    lookup: RadarLookup<OnRadar<V>>,
) -> (answer: Result<V, SignalKResponse>)
    ensures
        match lookup {
            RadarLookup::Missing(keys) => answer matches Err(response) && response.fails(
                NOT_FOUND,
                no_such_radar_text(radar_id@, texts_of(keys@)),
            ),
            RadarLookup::Found(radar) => match radar.control {
                Some(value) => answer == Ok::<V, SignalKResponse>(value),
                None => answer matches Err(response) && response.fails(
                    NOT_FOUND,
                    unknown_control_text(control_id@, texts_of(radar.control_keys@)),
                ),
            },
        },
{
    match find_radar(radar_id, lookup) {
        Err(response) => Err(response),
        Ok(radar) => match radar.control {
            Some(value) => Ok(value),
            None => Err(unknown_control(control_id, &radar.control_keys)),
        },
    }
}

/// Answers a request for the values of all controls of a radar, each given by
/// the name of the control.
pub fn get_control_values(
    radar_id: &str,
    lookup: RadarLookup<Vec<(String, Value)>>,
) -> (answer: Result<Value, SignalKResponse>)
    ensures
        match lookup {
            RadarLookup::Missing(keys) => answer matches Err(response) && response.fails(
                NOT_FOUND,
                no_such_radar_text(radar_id@, texts_of(keys@)),
            ),
            RadarLookup::Found(values) => answer matches Ok(controls) && document(controls)
                == Json::Object(fields_of(values@)),
        },
{
    match find_radar(radar_id, lookup) {
        Err(response) => Err(response),
        Ok(values) => Ok(get_controls(values)),
    }
}

/// What is to be done about a request to write to a radar.
pub struct WriteDecision<T> {
    /// Whether the radar is to be woken up: someone is interacting with it.
    pub wake: bool,
    /// What goes on from here, or the answer that ends it.
    pub outcome: Result<T, SignalKResponse>,
}

/// A write to a control that its radar has. It is to be handed to the radar.
pub struct ControlWrite {
    pub radar_key: String,
    pub control: Control,
}

/// Decides on a request to write to a control.
pub fn set_control_value(
    radar_id: &str,
    control_id: &str,
    lookup: RadarLookup<OnRadar<Control>>,
) -> (decision: WriteDecision<ControlWrite>)
    ensures
        decision.wake == (lookup is Found),
        match lookup {
            RadarLookup::Missing(keys) => decision.outcome matches Err(response) && response.fails(
                NOT_FOUND,
                no_such_radar_text(radar_id@, texts_of(keys@)),
            ),
            RadarLookup::Found(radar) => match radar.control {
                Some(control) => decision.outcome matches Ok(write) && write.control == control
                    && write.radar_key == radar.radar_key,
                None => decision.outcome matches Err(response) && response.fails(
                    NOT_FOUND,
                    unknown_control_text(control_id@, texts_of(radar.control_keys@)),
                ),
            },
        },
{
    match lookup {
        RadarLookup::Missing(keys) => WriteDecision {
            wake: false,
            outcome: Err(no_such_radar(radar_id, &keys)),
        },
        RadarLookup::Found(radar) => {
            let outcome = match radar.control {
                Some(control) => Ok(ControlWrite { radar_key: radar.radar_key, control }),
                None => Err(unknown_control(control_id, &radar.control_keys)),
            };
            WriteDecision { wake: true, outcome }
        },
    }
}

/// A write that the radar took. A reply is to be waited for, since it may still
/// object.
pub struct AcceptedWrite {
    /// The canonical name of the control.
    pub name: String,
    /// The radar whose settings are to be written to disk before that.
    pub save: Option<String>,
}

/// What came back while waiting for a reply.
pub enum ControlReply {
    /// Nothing came in time.
    Silence,
    /// Nothing will come any more.
    Closed,
    /// A reply, with the radar's objection if it has one.
    Reply(Option<String>),
}

impl ControlReply {
    /// The radar's objection, if it has one.
    pub open spec fn objection(self) -> Option<String> {
        match self {
            ControlReply::Reply(error) => error,
            _ => None,
        }
    }

    /// Hands out the radar's objection, if it has one.
    pub fn into_objection(self) -> (objection: Option<String>)
        ensures
            objection == self.objection(),
    {
        match self {
            ControlReply::Reply(error) => error,
            _ => None,
        }
    }
}

/// The answer to a write.
pub struct WriteAnswer {
    /// The control that is reported as working, if one is.
    pub note: Option<String>,
    pub response: SignalKResponse,
}

impl ControlWrite {
    /// Goes on from what the radar said when the write was handed to it.
    pub fn submitted(self, result: Result<(), String>) -> (next: Result<
        AcceptedWrite,
        SignalKResponse,
    >)
        ensures
            match result {
                Err(error) => next matches Err(response) && response.fails(BAD_REQUEST, error@),
                Ok(_) => next matches Ok(accepted) && {
                    &&& accepted.name == self.control.name
                    &&& accepted.save == radar_to_save(self.control.id, self.radar_key)
                },
            },
    {
        match result {
            Err(error) => Err(SignalKResponse::failed(BAD_REQUEST, error)),
            Ok(_) => {
                let save = if control_needs_persistence(self.control.id) {
                    Some(self.radar_key)
                } else {
                    None
                };
                Ok(AcceptedWrite { name: self.control.name, save })
            },
        }
    }
}

impl AcceptedWrite {
    /// Answers the write, by what came back while waiting for a reply.
    pub fn replied(self, reply: ControlReply) -> (answer: WriteAnswer)
        ensures
            match reply.objection() {
                Some(error) => answer.note is None && answer.response.fails(BAD_REQUEST, error@),
                None => answer.note == Some(self.name) && answer.response.completes(),
            },
    {
        match reply.into_objection() {
            Some(error) => WriteAnswer {
                note: None,
                response: SignalKResponse::failed(BAD_REQUEST, error),
            },
            None => WriteAnswer { note: Some(self.name), response: SignalKResponse::ok() },
        }
    }
}

/// A value that a control is to be set to.
pub struct Requested<V> {
    pub value: V,
    /// The control that the request names, or nothing where the radar has none
    /// of that name.
    pub control: Option<Control>,
}

/// What looking for the controls that a request names gave.
pub struct BatchOnRadar<V> {
    pub radar_key: String,
    /// The names of all the controls that the radar has.
    pub control_keys: Vec<String>,
    /// The values to be set, by the name that the request gives the control.
    pub request: OrderedMap<Requested<V>>,
}

/// The names in a request that belong to no control.
pub open spec fn unknown_names<V>(pairs: Seq<(Seq<char>, Requested<V>)>) -> Seq<Seq<char>>
    decreases pairs.len(),
{
    if pairs.len() == 0 {
        seq![]
    } else {
        let former = unknown_names(pairs.drop_last());
        if pairs.last().1.control is None {
            former.push(pairs.last().0)
        } else {
            former
        }
    }
}

/// The controls that a request names, with the values they are to be set to.
pub open spec fn resolved_controls<V>(pairs: Seq<(Seq<char>, Requested<V>)>) -> Seq<(Control, V)>
    decreases pairs.len(),
{
    if pairs.len() == 0 {
        seq![]
    } else {
        let former = resolved_controls(pairs.drop_last());
        match pairs.last().1.control {
            Some(control) => former.push((control, pairs.last().1.value)),
            None => former,
        }
    }
}

/// Whether a control is among the given.
pub open spec fn is_named<V>(controls: Seq<(Control, V)>, id: ControlId) -> bool {
    exists|i: int| 0 <= i < controls.len() && (#[trigger] controls[i]).0.id == id
}

/// The labels of the controls that were named before, once for each time.
pub open spec fn repeated_labels<V>(controls: Seq<(Control, V)>) -> Seq<Seq<char>>
    decreases controls.len(),
{
    if controls.len() == 0 {
        seq![]
    } else {
        let former = repeated_labels(controls.drop_last());
        if is_named(controls.drop_last(), controls.last().0.id) {
            former.push(controls.last().0.label@)
        } else {
            former
        }
    }
}

/// What a client is told that named controls which its radar does not have.
pub open spec fn unknown_controls_text(
    unknown: Seq<Seq<char>>,
    keys: Seq<Seq<char>>,
) -> Seq<char> {
    "Unknown control(s) "@ + quoted_list(unknown) + " -- use "@ + quoted_list(keys) + " instead"@
}

/// What a client is told that named a control more than once.
pub open spec fn repeated_controls_text(repeated: Seq<Seq<char>>) -> Seq<char> {
    "Control(s) "@ + quoted_list(repeated) + " named more than once"@
}

/// Whether one of the controls survives a restart.
pub open spec fn any_persistent<V>(controls: Seq<(Control, V)>) -> bool {
    exists|i: int| 0 <= i < controls.len() && is_persistent((#[trigger] controls[i]).0.id)
}

/// The name that stands for the controls: that of the first.
pub open spec fn leading_name<V>(controls: Seq<(Control, V)>) -> Seq<char> {
    if controls.len() == 0 {
        seq![]
    } else {
        controls[0].0.name@
    }
}

/// Writes to several controls of a radar, one after the other.
pub struct ControlBatch<V> {
    pub radar_key: String,
    /// The writes that are still to be handed to the radar, in their order.
    pub pending: Vec<(Control, V)>,
    /// The label of the control whose write was handed to the radar last, until
    /// its outcome is known.
    pub current: Option<String>,
    /// What went wrong so far.
    pub failures: Vec<String>,
    /// Whether a control among all survives a restart.
    pub persistent: bool,
    /// The name that stands for all the controls.
    pub leading_name: String,
}

fn names_control<V>(controls: &Vec<(Control, V)>, end: usize, id: ControlId) -> (named: bool)
    requires
        end <= controls.len(),
    ensures
        named == is_named(controls@.take(end as int), id),
{
    let ghost earlier = controls@.take(end as int);
    for i in 0..end
        invariant
            end <= controls.len(),
            earlier == controls@.take(end as int),
            forall|j: int| 0 <= j < i ==> (#[trigger] earlier[j]).0.id != id,
    {
        if controls[i].0.id == id {
            assert(earlier[i as int].0.id == id);
            return true;
        }
    }
    false
}

fn repeated<V>(controls: &Vec<(Control, V)>) -> (labels: Vec<String>)
    ensures
        texts_of(labels@) == repeated_labels(controls@),
{
    let mut labels: Vec<String> = Vec::new();
    assert(texts_of(labels@) =~= repeated_labels(controls@.take(0)));
    for i in 0..controls.len()
        invariant
            texts_of(labels@) == repeated_labels(controls@.take(i as int)),
    {
        let ghost former = labels@;
        assert(controls@.take(i + 1).drop_last() =~= controls@.take(i as int));
        if names_control(controls, i, controls[i].0.id) {
            labels.push(controls[i].0.label.clone());
            assert(texts_of(labels@) =~= texts_of(former).push(controls[i as int].0.label@));
        }
    }
    assert(controls@.take(controls.len() as int) =~= controls@);
    labels
}

fn contains_persistent<V>(controls: &Vec<(Control, V)>) -> (found: bool)
    ensures
        found == any_persistent(controls@),
{
    for i in 0..controls.len()
        invariant
            forall|j: int| 0 <= j < i ==> !is_persistent((#[trigger] controls[j]).0.id),
    {
        if control_needs_persistence(controls[i].0.id) {
            assert(is_persistent(controls@[i as int].0.id));
            return true;
        }
    }
    false
}

/// The controls that a request names, and the names that belong to none.
struct Resolution<V> {
    resolved: Vec<(Control, V)>,
    unknown: Vec<String>,
}

fn resolve<V>(entries: Vec<(String, Requested<V>)>) -> (resolution: Resolution<V>)
    ensures
        resolution.resolved@ == resolved_controls(pairs_of(entries@)),
        texts_of(resolution.unknown@) == unknown_names(pairs_of(entries@)),
{
    let ghost all = pairs_of(entries@);
    let ghost given = entries@;
    let mut rest = entries;
    let mut resolved: Vec<(Control, V)> = Vec::new();
    let mut unknown: Vec<String> = Vec::new();
    let ghost mut taken: int = 0;
    assert(texts_of(unknown@) =~= unknown_names(all.take(0)));
    assert(resolved@ =~= resolved_controls(all.take(0)));
    while rest.len() > 0
        invariant
            0 <= taken <= given.len(),
            all == pairs_of(given),
            rest@ =~= given.skip(taken),
            resolved@ == resolved_controls(all.take(taken)),
            texts_of(unknown@) == unknown_names(all.take(taken)),
        decreases rest.len(),
    {
        let (name, requested) = rest.remove(0);
        let ghost former = unknown@;
        assert(all.take(taken + 1).drop_last() =~= all.take(taken));
        assert(all.take(taken + 1).last() == (name@, requested));
        match requested.control {
            Some(control) => resolved.push((control, requested.value)),
            None => {
                unknown.push(name);
                assert(texts_of(unknown@) =~= texts_of(former).push(name@));
            },
        }
        proof {
            taken = taken + 1;
        }
    }
    assert(all.take(taken) =~= all);
    Resolution { resolved, unknown }
}

/// Decides on a request to write to several controls. They are written to in
/// the order of the names that the request gives them, each once. Where a name
/// belongs to no control, or two belong to one, nothing is written at all.
pub fn set_control_values<V>(
    radar_id: &str,
    lookup: RadarLookup<BatchOnRadar<V>>,
) -> (decision: WriteDecision<ControlBatch<V>>)
    ensures
        decision.wake == (lookup is Found),
        match lookup {
            RadarLookup::Missing(keys) => decision.outcome matches Err(response) && response.fails(
                NOT_FOUND,
                no_such_radar_text(radar_id@, texts_of(keys@)),
            ),
            RadarLookup::Found(radar) => {
                let unknown = unknown_names(radar.request.pairs());
                let controls = resolved_controls(radar.request.pairs());
                if unknown.len() > 0 {
                    decision.outcome matches Err(response) && response.fails(
                        NOT_FOUND,
                        unknown_controls_text(
                            sorted_texts(unknown),
                            texts_of(radar.control_keys@),
                        ),
                    )
                } else if repeated_labels(controls).len() > 0 {
                    decision.outcome matches Err(response) && response.fails(
                        BAD_REQUEST,
                        repeated_controls_text(repeated_labels(controls)),
                    )
                } else {
                    decision.outcome matches Ok(batch) && {
                        &&& batch.radar_key == radar.radar_key
                        &&& batch.pending@ == controls
                        &&& batch.current is None
                        &&& batch.failures@.len() == 0
                        &&& batch.persistent == any_persistent(controls)
                        &&& batch.leading_name@ == leading_name(controls)
                    }
                }
            },
        },
        // The same, by what the request names alone.
        lookup matches RadarLookup::Found(radar) ==> {
            let pairs = radar.request.pairs();
            &&& decision.outcome is Ok <==> {
                &&& forall|i: int|
                    0 <= i < pairs.len() ==> (#[trigger] pairs[i]).1.control is Some
                &&& forall|i: int, j: int|
                    0 <= i < j < pairs.len() ==> (#[trigger] pairs[i]).1.control->0.id != (
                    #[trigger] pairs[j]).1.control->0.id
            }
            &&& decision.outcome matches Ok(batch) ==> {
                &&& batch.pending@.len() == pairs.len()
                &&& forall|i: int|
                    0 <= i < pairs.len() ==> (#[trigger] batch.pending@[i]).0
                        == pairs[i].1.control->0 && batch.pending@[i].1 == pairs[i].1.value
            }
            &&& decision.outcome matches Err(response) ==> {
                ||| response.status_code == 404 && exists|i: int|
                    0 <= i < pairs.len() && (#[trigger] pairs[i]).1.control is None
                ||| response.status_code == 400 && forall|i: int|
                    0 <= i < pairs.len() ==> (#[trigger] pairs[i]).1.control is Some
            }
        },
{
    let radar = match lookup {
        RadarLookup::Missing(keys) => {
            return WriteDecision { wake: false, outcome: Err(no_such_radar(radar_id, &keys)) };
        },
        RadarLookup::Found(radar) => radar,
    };
    let ghost pairs = radar.request.pairs();
    proof {
        unknown_names_are_told(pairs);
        only_repeated_controls_are_refused(resolved_controls(pairs));
        if unknown_names(pairs).len() == 0 {
            every_name_is_written(pairs);
            lemma_resolved_ids(pairs);
        }
    }
    let resolution = resolve(radar.request.into_entries());
    assert(texts_of(resolution.unknown@).len() == unknown_names(pairs).len());
    if resolution.unknown.len() > 0 {
        // Nothing has been applied yet, so reject the whole request rather than
        // leave the radar half-updated.
        let unknown = sort_texts(resolution.unknown);
        let mut message = "Unknown control(s) ".to_owned();
        message.append(quote_list(&unknown).as_str());
        message.append(" -- use ");
        message.append(quote_list(&radar.control_keys).as_str());
        message.append(" instead");
        return WriteDecision {
            wake: true,
            outcome: Err(SignalKResponse::failed(NOT_FOUND, message)),
        };
    }
    let labels = repeated(&resolution.resolved);
    assert(texts_of(labels@).len() == repeated_labels(resolved_controls(pairs)).len());
    if labels.len() > 0 {
        // Distinct names can belong to one control. Applying both would make
        // the result depend on which came last, so say so instead of silently
        // picking one.
        let message = concat_three(
            "Control(s) ",
            quote_list(&labels).as_str(),
            " named more than once",
        );
        return WriteDecision {
            wake: true,
            outcome: Err(SignalKResponse::failed(BAD_REQUEST, message)),
        };
    }
    let persistent = contains_persistent(&resolution.resolved);
    let leading_name = if resolution.resolved.len() > 0 {
        resolution.resolved[0].0.name.clone()
    } else {
        String::new()
    };
    WriteDecision {
        wake: true,
        outcome: Ok(
            ControlBatch {
                radar_key: radar.radar_key,
                pending: resolution.resolved,
                current: None,
                failures: Vec::new(),
                persistent,
                leading_name,
            },
        ),
    }
}

/// What came of a write that was handed to the radar.
pub enum WriteOutcome {
    /// The radar did not take it.
    Refused(String),
    /// The radar took it, and this came back.
    Taken(ControlReply),
}

impl WriteOutcome {
    /// What went wrong, if anything did.
    pub open spec fn error(self) -> Option<String> {
        match self {
            WriteOutcome::Refused(error) => Some(error),
            WriteOutcome::Taken(reply) => reply.objection(),
        }
    }

    /// Hands out what went wrong, if anything did.
    pub fn into_error(self) -> (error: Option<String>)
        ensures
            error == self.error(),
    {
        match self {
            WriteOutcome::Refused(error) => Some(error),
            WriteOutcome::Taken(reply) => reply.into_objection(),
        }
    }
}

/// How the failure of a write is reported.
pub open spec fn failure_text(label: Seq<char>, error: Seq<char>) -> Seq<char> {
    label + ": "@ + error
}

/// The failures after a write to the control with that label: those before it,
/// and its own if it failed.
pub open spec fn failures_after(
    failures: Seq<Seq<char>>,
    label: Seq<char>,
    error: Option<Seq<char>>,
) -> Seq<Seq<char>> {
    match error {
        Some(reason) => failures.push(failure_text(label, reason)),
        None => failures,
    }
}

/// What a reason says, if there is one.
pub open spec fn reason_view(reason: Option<String>) -> Option<Seq<char>> {
    match reason {
        Some(text) => Some(text@),
        None => None,
    }
}

/// The end of a batch.
pub struct BatchEnd {
    /// The radar whose settings are to be written to disk, if any is.
    pub save: Option<String>,
    /// The control that is reported as working, if one is.
    pub note: Option<String>,
    pub response: SignalKResponse,
}

impl<V> ControlBatch<V> {
    /// Whether taking the next write leads from this state of the batch to
    /// another.
    pub open spec fn takes(self, after: ControlBatch<V>, write: Option<(Control, V)>) -> bool {
        &&& after.radar_key == self.radar_key
        &&& after.failures == self.failures
        &&& after.persistent == self.persistent
        &&& after.leading_name == self.leading_name
        &&& match write {
            Some(taken) => {
                &&& self.pending@.len() > 0
                &&& taken == self.pending@[0]
                &&& after.pending@ == self.pending@.drop_first()
                &&& after.current == Some(taken.0.label)
            },
            None => {
                &&& self.pending@.len() == 0
                &&& after.pending@ == self.pending@
                &&& after.current is None
            },
        }
    }

    /// Whether keeping the outcome of a write leads from this state of the batch
    /// to another.
    pub open spec fn records(self, after: ControlBatch<V>, outcome: WriteOutcome) -> bool {
        &&& after.radar_key == self.radar_key
        &&& after.pending == self.pending
        &&& after.persistent == self.persistent
        &&& after.leading_name == self.leading_name
        &&& after.current is None
        &&& texts_of(after.failures@) == (match self.current {
            Some(label) => failures_after(
                texts_of(self.failures@),
                label@,
                reason_view(outcome.error()),
            ),
            None => texts_of(self.failures@),
        })
    }

    /// Takes the next write, which is to be handed to the radar.
    pub fn next(&mut self) -> (write: Option<(Control, V)>)
        ensures
            old(self).takes(*final(self), write),
    {
        if self.pending.len() == 0 {
            self.current = None;
            return None;
        }
        let write = self.pending.remove(0);
        assert(self.pending@ =~= old(self).pending@.drop_first());
        self.current = Some(write.0.label.clone());
        Some(write)
    }

    /// Keeps the outcome of the write that was taken last. Nothing else is kept
    /// back on account of it: the others still apply.
    pub fn record(&mut self, outcome: WriteOutcome)
        ensures
            old(self).records(*final(self), outcome),
    {
        let current = self.current.take();
        if let Some(label) = current {
            if let Some(error) = outcome.into_error() {
                let failure = concat_three(label.as_str(), ": ", error.as_str());
                self.failures.push(failure);
                assert(texts_of(self.failures@) =~= texts_of(old(self).failures@).push(failure@));
            }
        }
    }

    /// Ends the batch: settings are saved where a control among all survives a
    /// restart, and every failure is named.
    pub fn finish(self) -> (end: BatchEnd)
        ensures
            end.save == (if self.persistent {
                Some(self.radar_key)
            } else {
                None
            }),
            if self.failures@.len() == 0 {
                end.note == Some(self.leading_name) && end.response.completes()
            } else {
                end.note is None && end.response.fails(
                    BAD_REQUEST,
                    joined(sorted_texts(texts_of(self.failures@)), "; "@),
                )
            },
    {
        let save = if self.persistent {
            Some(self.radar_key)
        } else {
            None
        };
        if self.failures.len() == 0 {
            BatchEnd { save, note: Some(self.leading_name), response: SignalKResponse::ok() }
        } else {
            let failures = sort_texts(self.failures);
            let message = join(&failures, "; ");
            BatchEnd { save, note: None, response: SignalKResponse::failed(BAD_REQUEST, message) }
        }
    }
}

/// The failures of a whole batch, by the label of each control and what went
/// wrong with it, if anything did.
pub open spec fn batch_failures(results: Seq<(Seq<char>, Option<Seq<char>>)>) -> Seq<Seq<char>>
    decreases results.len(),
{
    if results.len() == 0 {
        seq![]
    } else {
        failures_after(
            batch_failures(results.drop_last()),
            results.last().0,
            results.last().1,
        )
    }
}

/// A batch succeeds only as a whole, and names each control that failed: there
/// is no failure to report exactly if no control failed, and whatever went wrong
/// with a control is among those reported.
pub proof fn every_failure_is_named(results: Seq<(Seq<char>, Option<Seq<char>>)>, i: int)
    requires
        0 <= i < results.len(),
    ensures
        results[i].1 matches Some(reason) ==> {
            &&& batch_failures(results).len() > 0
            &&& sorted_texts(batch_failures(results)).contains(failure_text(results[i].0, reason))
        },
        batch_failures(results).len() == 0 ==> results[i].1 is None,
        (forall|j: int| 0 <= j < results.len() ==> (#[trigger] results[j]).1 is None)
            ==> batch_failures(results).len() == 0,
{
    lemma_failure_is_kept(results, i);
    lemma_no_failure_without_error(results);
    let failures = batch_failures(results);
    if let Some(reason) = results[i].1 {
        let text = failure_text(results[i].0, reason);
        broadcast use vstd::seq_lib::group_to_multiset_ensures;

        sorted_elements_are_the_same(failures, failures);
        assert(failures.to_multiset().count(text) > 0);
        assert(sorted_texts(failures).to_multiset().count(text) > 0);
        assert(sorted_texts(failures).contains(text));
    }
}

proof fn lemma_failure_is_kept(results: Seq<(Seq<char>, Option<Seq<char>>)>, i: int)
    requires
        0 <= i < results.len(),
    ensures
        results[i].1 matches Some(reason) ==> batch_failures(results).contains(
            failure_text(results[i].0, reason),
        ),
    decreases results.len(),
{
    let former = batch_failures(results.drop_last());
    if let Some(reason) = results[i].1 {
        let text = failure_text(results[i].0, reason);
        if i == results.len() - 1 {
            assert(batch_failures(results).last() == text);
        } else {
            lemma_failure_is_kept(results.drop_last(), i);
            let j = choose|j: int| 0 <= j < former.len() && former[j] == text;
            assert(batch_failures(results)[j] == text);
        }
    }
}

proof fn lemma_no_failure_without_error(results: Seq<(Seq<char>, Option<Seq<char>>)>)
    ensures
        (forall|j: int| 0 <= j < results.len() ==> (#[trigger] results[j]).1 is None)
            ==> batch_failures(results).len() == 0,
    decreases results.len(),
{
    if results.len() > 0 && (forall|j: int|
        0 <= j < results.len() ==> (#[trigger] results[j]).1 is None) {
        lemma_no_failure_without_error(results.drop_last());
        assert(results.last().1 is None);
        assert forall|j: int| 0 <= j < results.drop_last().len() implies (
        #[trigger] results.drop_last()[j]).1 is None by {
            assert(results[j].1 is None);
        }
    }
}

/// What came of the writes of a batch: the label of each control and what went
/// wrong with it, if anything did.
pub open spec fn batch_results<V>(
    writes: Seq<(Control, V)>,
    outcomes: Seq<WriteOutcome>,
) -> Seq<(Seq<char>, Option<Seq<char>>)> {
    Seq::new(writes.len(), |i: int| (writes[i].0.label@, reason_view(outcomes[i].error())))
}

/// Whether a batch goes through the given states, from one write to the next:
/// each write is taken, and its outcome is kept.
pub open spec fn is_run<V>(
    states: Seq<ControlBatch<V>>,
    taken: Seq<ControlBatch<V>>,
    writes: Seq<(Control, V)>,
    outcomes: Seq<WriteOutcome>,
) -> bool {
    &&& states.len() == writes.len() + 1
    &&& taken.len() == writes.len()
    &&& outcomes.len() == writes.len()
    &&& forall|i: int|
        0 <= i < writes.len() ==> states[i].takes(#[trigger] taken[i], Some(writes[i]))
            && taken[i].records(states[i + 1], outcomes[i])
}

proof fn lemma_run_so_far<V>(
    states: Seq<ControlBatch<V>>,
    taken: Seq<ControlBatch<V>>,
    writes: Seq<(Control, V)>,
    outcomes: Seq<WriteOutcome>,
    k: int,
)
    requires
        is_run(states, taken, writes, outcomes),
        states[0].failures@.len() == 0,
        0 <= k <= writes.len(),
    ensures
        k <= states[0].pending@.len(),
        states[k].pending@ == states[0].pending@.skip(k),
        writes.take(k) == states[0].pending@.take(k),
        texts_of(states[k].failures@) == batch_failures(batch_results(writes, outcomes).take(k)),
        states[k].radar_key == states[0].radar_key,
        states[k].persistent == states[0].persistent,
        states[k].leading_name == states[0].leading_name,
    decreases k,
{
    let results = batch_results(writes, outcomes);
    if k == 0 {
        assert(states[0].pending@.skip(0) =~= states[0].pending@);
        assert(writes.take(0) =~= states[0].pending@.take(0));
        assert(texts_of(states[0].failures@) =~= batch_failures(results.take(0)));
    } else {
        lemma_run_so_far(states, taken, writes, outcomes, k - 1);
        assert(states[k - 1].takes(taken[k - 1], Some(writes[k - 1])));
        assert(taken[k - 1].records(states[k - 1 + 1], outcomes[k - 1]));
        assert(states[0].pending@.skip(k - 1).drop_first() =~= states[0].pending@.skip(k));
        assert(writes.take(k) =~= writes.take(k - 1).push(writes[k - 1]));
        assert(states[0].pending@.take(k) =~= states[0].pending@.take(k - 1).push(
            states[0].pending@[k - 1],
        ));
        assert(results.take(k).drop_last() =~= results.take(k - 1));
    }
}

/// A batch that is run until no write is left hands every write to the radar,
/// once and in its order, whatever came of the others; the failures that it ends
/// with are those of its writes, and all else is as it was decided.
pub proof fn whole_batch_is_written<V>(
    states: Seq<ControlBatch<V>>,
    taken: Seq<ControlBatch<V>>,
    writes: Seq<(Control, V)>,
    outcomes: Seq<WriteOutcome>,
    end: ControlBatch<V>,
)
    requires
        is_run(states, taken, writes, outcomes),
        states[0].failures@.len() == 0,
        states.last().takes(end, None),
    ensures
        writes == states[0].pending@,
        texts_of(end.failures@) == batch_failures(batch_results(writes, outcomes)),
        end.radar_key == states[0].radar_key,
        end.persistent == states[0].persistent,
        end.leading_name == states[0].leading_name,
{
    let n = writes.len() as int;
    lemma_run_so_far(states, taken, writes, outcomes, n);
    assert(states[0].pending@.skip(n).len() == 0);
    assert(writes.take(n) =~= writes);
    assert(states[0].pending@.take(n) =~= states[0].pending@);
    assert(batch_results(writes, outcomes).take(n) =~= batch_results(writes, outcomes));
}

/// Which writes a request leads to, and their order, depends on what it asks
/// for, not on the order in which it does so.
pub proof fn write_order_is_determined<V>(
    one: OrderedMap<Requested<V>>,
    other: OrderedMap<Requested<V>>,
)
    requires
        one.well_formed(),
        other.well_formed(),
        one@ == other@,
    ensures
        resolved_controls(one.pairs()) == resolved_controls(other.pairs()),
        unknown_names(one.pairs()) == unknown_names(other.pairs()),
{
    walk_is_determined_by_contents(one, other);
}

/// A request whose names all belong to controls leads to one write for each
/// name, in the order of the names, with the value that stands there.
pub proof fn every_name_is_written<V>(pairs: Seq<(Seq<char>, Requested<V>)>)
    requires
        unknown_names(pairs).len() == 0,
    ensures
        resolved_controls(pairs).len() == pairs.len(),
        forall|i: int|
            0 <= i < pairs.len() ==> (#[trigger] pairs[i]).1.control == Some(
                resolved_controls(pairs)[i].0,
            ) && pairs[i].1.value == resolved_controls(pairs)[i].1,
    decreases pairs.len(),
{
    if pairs.len() > 0 {
        every_name_is_written(pairs.drop_last());
        assert forall|i: int| 0 <= i < pairs.len() implies (#[trigger] pairs[i]).1.control == Some(
            resolved_controls(pairs)[i].0,
        ) && pairs[i].1.value == resolved_controls(pairs)[i].1 by {
            if i < pairs.len() - 1 {
                assert(pairs.drop_last()[i] == pairs[i]);
            }
        }
    }
}

/// Where no control is named again, all the controls are different.
pub proof fn each_control_is_written_once<V>(controls: Seq<(Control, V)>, i: int, j: int)
    requires
        repeated_labels(controls).len() == 0,
        0 <= i < j < controls.len(),
    ensures
        controls[i].0.id != controls[j].0.id,
    decreases controls.len(),
{
    if j == controls.len() - 1 {
        assert(controls.drop_last()[i] == controls[i]);
    } else {
        each_control_is_written_once(controls.drop_last(), i, j);
    }
}

/// What survives a restart: the guard zones, the exclusion zones and rectangles,
/// the name that the user gave, and standing by on its own. Nothing else does.
pub proof fn what_survives_a_restart(id: ControlId)
    ensures
        is_persistent(id) <==> {
            ||| id == ControlId::GuardZone1
            ||| id == ControlId::GuardZone2
            ||| id == ControlId::ExclusionZone1
            ||| id == ControlId::ExclusionZone2
            ||| id == ControlId::ExclusionZone3
            ||| id == ControlId::ExclusionZone4
            ||| id == ControlId::ExclusionRect1
            ||| id == ControlId::ExclusionRect2
            ||| id == ControlId::ExclusionRect3
            ||| id == ControlId::ExclusionRect4
            ||| id == ControlId::UserName
            ||| id == ControlId::AutoStandby
        },
{
}

/// A radar is saved exactly after a write to a control that survives a restart,
/// and it is the radar that took the write.
pub proof fn what_survives_is_saved(id: ControlId, radar_key: String)
    ensures
        radar_to_save(id, radar_key) is Some <==> {
            ||| id is GuardZone1 || id is GuardZone2
            ||| id is ExclusionZone1 || id is ExclusionZone2 || id is ExclusionZone3
                || id is ExclusionZone4
            ||| id is ExclusionRect1 || id is ExclusionRect2 || id is ExclusionRect3
                || id is ExclusionRect4
            ||| id is UserName || id is AutoStandby
        },
        radar_to_save(id, radar_key) is Some ==> radar_to_save(id, radar_key)->0 == radar_key,
{
}

/// A radar objects only by a reply that carries an error, and with that error; a
/// write fails by an objection or by being refused.
pub proof fn only_errors_are_objections(reply: ControlReply, outcome: WriteOutcome, error: String)
    ensures
        reply.objection() == Some(error) <==> reply == ControlReply::Reply(Some(error)),
        outcome.error() == Some(error) <==> {
            ||| outcome == WriteOutcome::Refused(error)
            ||| outcome == WriteOutcome::Taken(ControlReply::Reply(Some(error)))
        },
        reason_view(Some(error)) == Some(error@),
        reason_view(None) is None,
{
}

/// A client is told every name that belongs to no control, and no other, in the
/// order of the names.
pub proof fn unknown_names_are_told<V>(pairs: Seq<(Seq<char>, Requested<V>)>)
    ensures
        unknown_names(pairs) == pairs.filter(
            |pair: (Seq<char>, Requested<V>)| pair.1.control is None,
        ).map_values(|pair: (Seq<char>, Requested<V>)| pair.0),
        unknown_names(pairs).len() == 0 <==> forall|i: int|
            0 <= i < pairs.len() ==> (#[trigger] pairs[i]).1.control is Some,
        forall|i: int|
            0 <= i < pairs.len() && (#[trigger] pairs[i]).1.control is None ==> unknown_names(
                pairs,
            ).contains(pairs[i].0),
    decreases pairs.len(),
{
    reveal(Seq::filter);
    if pairs.len() > 0 {
        let earlier = pairs.drop_last();
        unknown_names_are_told(earlier);
        let former = unknown_names(earlier);
        let all = unknown_names(pairs);
        assert forall|i: int|
            0 <= i < pairs.len() && (#[trigger] pairs[i]).1.control is None implies all.contains(
            pairs[i].0,
        ) by {
            if i < earlier.len() {
                assert(earlier[i] == pairs[i]);
                let k = choose|k: int| 0 <= k < former.len() && former[k] == pairs[i].0;
                assert(all[k] == pairs[i].0);
            } else {
                assert(all[all.len() - 1] == pairs[i].0);
            }
        }
        if all.len() == 0 {
            assert forall|i: int| 0 <= i < pairs.len() implies (
            #[trigger] pairs[i]).1.control is Some by {
                if pairs[i].1.control is None {
                    assert(all.contains(pairs[i].0));
                }
            }
        }
        if forall|i: int| 0 <= i < pairs.len() ==> (#[trigger] pairs[i]).1.control is Some {
            assert forall|i: int| 0 <= i < earlier.len() implies (
            #[trigger] earlier[i]).1.control is Some by {
                assert(pairs[i].1.control is Some);
            }
            assert(pairs[pairs.len() - 1].1.control is Some);
        }
    }
    assert(unknown_names(pairs) =~= pairs.filter(
        |pair: (Seq<char>, Requested<V>)| pair.1.control is None,
    ).map_values(|pair: (Seq<char>, Requested<V>)| pair.0));
}

/// The controls that a request names are those of its names that belong to one,
/// in the order of the names, each with the value that stands there.
pub proof fn named_controls_are_resolved<V>(pairs: Seq<(Seq<char>, Requested<V>)>)
    ensures
        resolved_controls(pairs) == pairs.filter(
            |pair: (Seq<char>, Requested<V>)| pair.1.control is Some,
        ).map_values(|pair: (Seq<char>, Requested<V>)| (pair.1.control->0, pair.1.value)),
    decreases pairs.len(),
{
    reveal(Seq::filter);
    if pairs.len() > 0 {
        named_controls_are_resolved(pairs.drop_last());
    }
    assert(resolved_controls(pairs) =~= pairs.filter(
        |pair: (Seq<char>, Requested<V>)| pair.1.control is Some,
    ).map_values(|pair: (Seq<char>, Requested<V>)| (pair.1.control->0, pair.1.value)));
}

/// A request is refused as naming a control again exactly if two of its controls
/// have the same id: where all the ids differ, nothing is repeated.
pub proof fn only_repeated_controls_are_refused<V>(controls: Seq<(Control, V)>)
    ensures
        repeated_labels(controls).len() == 0 <==> forall|i: int, j: int|
            0 <= i < j < controls.len() ==> (#[trigger] controls[i]).0.id != (
            #[trigger] controls[j]).0.id,
    decreases controls.len(),
{
    if controls.len() > 0 {
        let earlier = controls.drop_last();
        only_repeated_controls_are_refused(earlier);
        if repeated_labels(controls).len() == 0 {
            assert forall|i: int, j: int| 0 <= i < j < controls.len() implies (
            #[trigger] controls[i]).0.id != (#[trigger] controls[j]).0.id by {
                each_control_is_written_once(controls, i, j);
            }
        }
        if forall|i: int, j: int|
            0 <= i < j < controls.len() ==> (#[trigger] controls[i]).0.id != (
            #[trigger] controls[j]).0.id {
            assert forall|i: int, j: int| 0 <= i < j < earlier.len() implies (
            #[trigger] earlier[i]).0.id != (#[trigger] earlier[j]).0.id by {
                assert(controls[i].0.id != controls[j].0.id);
            }
            if is_named(earlier, controls.last().0.id) {
                let i = choose|i: int|
                    0 <= i < earlier.len() && (#[trigger] earlier[i]).0.id == controls.last().0.id;
                assert(controls[i].0.id != controls[controls.len() - 1].0.id);
            }
        }
    }
}

/// A client that names a control again is told its label, once for each time
/// after the first: one more control adds its label exactly if its id stands
/// among those before it, and takes nothing away.
pub proof fn each_repetition_is_told<V>(controls: Seq<(Control, V)>, next: (Control, V))
    ensures
        (exists|i: int| 0 <= i < controls.len() && (#[trigger] controls[i]).0.id == next.0.id)
            ==> repeated_labels(controls.push(next)) == repeated_labels(controls).push(
            next.0.label@,
        ),
        (forall|i: int| 0 <= i < controls.len() ==> (#[trigger] controls[i]).0.id != next.0.id)
            ==> repeated_labels(controls.push(next)) == repeated_labels(controls),
        controls.len() == 0 ==> repeated_labels(controls).len() == 0,
{
    assert(controls.push(next).drop_last() =~= controls);
}

proof fn lemma_resolved_ids<V>(pairs: Seq<(Seq<char>, Requested<V>)>)
    requires
        unknown_names(pairs).len() == 0,
    ensures
        (forall|i: int, j: int|
            0 <= i < j < pairs.len() ==> (#[trigger] pairs[i]).1.control->0.id != (
            #[trigger] pairs[j]).1.control->0.id) <==> (forall|i: int, j: int|
            0 <= i < j < resolved_controls(pairs).len() ==> (
            #[trigger] resolved_controls(pairs)[i]).0.id != (
            #[trigger] resolved_controls(pairs)[j]).0.id),
{
    let controls = resolved_controls(pairs);
    every_name_is_written(pairs);
    if forall|i: int, j: int|
        0 <= i < j < pairs.len() ==> (#[trigger] pairs[i]).1.control->0.id != (
        #[trigger] pairs[j]).1.control->0.id {
        assert forall|i: int, j: int| 0 <= i < j < controls.len() implies (
        #[trigger] controls[i]).0.id != (#[trigger] controls[j]).0.id by {
            assert(pairs[i].1.control->0.id != pairs[j].1.control->0.id);
        }
    }
    if forall|i: int, j: int|
        0 <= i < j < controls.len() ==> (#[trigger] controls[i]).0.id != (
        #[trigger] controls[j]).0.id {
        assert forall|i: int, j: int| 0 <= i < j < pairs.len() implies (
        #[trigger] pairs[i]).1.control->0.id != (#[trigger] pairs[j]).1.control->0.id by {
            assert(controls[i].0.id != controls[j].0.id);
        }
    }
}

/// A batch is saved exactly if one of its controls survives a restart, wherever
/// it stands, and is reported under the name of the first control, if there is
/// any.
pub proof fn batches_are_saved_and_named<V>(controls: Seq<(Control, V)>, more: Seq<(Control, V)>)
    ensures
        any_persistent(controls + more) <==> any_persistent(controls) || any_persistent(more),
        controls.len() == 1 ==> (any_persistent(controls) <==> is_persistent(controls[0].0.id)),
        controls.len() == 0 ==> !any_persistent(controls),
        controls.len() == 0 ==> leading_name(controls) == Seq::<char>::empty(),
        controls.len() > 0 ==> leading_name(controls + more) == controls[0].0.name@,
{
    let all = controls + more;
    if any_persistent(all) {
        let i = choose|i: int| 0 <= i < all.len() && is_persistent((#[trigger] all[i]).0.id);
        if i < controls.len() {
            assert(is_persistent(controls[i].0.id));
        } else {
            assert(is_persistent(more[i - controls.len()].0.id));
        }
    }
    if any_persistent(controls) {
        let i = choose|i: int|
            0 <= i < controls.len() && is_persistent((#[trigger] controls[i]).0.id);
        assert(is_persistent(all[i].0.id));
    }
    if any_persistent(more) {
        let i = choose|i: int| 0 <= i < more.len() && is_persistent((#[trigger] more[i]).0.id);
        assert(is_persistent(all[controls.len() + i].0.id));
    }
    if controls.len() == 1 && is_persistent(controls[0].0.id) {
        assert(is_persistent(controls[0].0.id));
    }
}

/// The failures of a batch are those of the writes that went wrong, in their
/// order, each under the label of its control with what went wrong behind it.
pub proof fn failures_are_those_that_went_wrong(results: Seq<(Seq<char>, Option<Seq<char>>)>)
    ensures
        batch_failures(results) == results.filter(
            |result: (Seq<char>, Option<Seq<char>>)| result.1 is Some,
        ).map_values(
            |result: (Seq<char>, Option<Seq<char>>)| result.0 + (": "@ + result.1->0),
        ),
    decreases results.len(),
{
    reveal(Seq::filter);
    if results.len() > 0 {
        failures_are_those_that_went_wrong(results.drop_last());
        if let Some(reason) = results.last().1 {
            assert(failure_text(results.last().0, reason) =~= results.last().0 + (": "@ + reason));
        }
    }
    assert(batch_failures(results) =~= results.filter(
        |result: (Seq<char>, Option<Seq<char>>)| result.1 is Some,
    ).map_values(|result: (Seq<char>, Option<Seq<char>>)| result.0 + (": "@ + result.1->0)));
}

/// Taking a write takes the first that is left and nothing else, and keeping its
/// outcome leaves all other writes and earlier failures as they are.
pub proof fn writes_are_taken_one_by_one<V>(
    batch: ControlBatch<V>,
    after: ControlBatch<V>,
    write: (Control, V),
    outcome: WriteOutcome,
)
    ensures
        batch.takes(after, Some(write)) ==> batch.pending@ == seq![write] + after.pending@
            && after.current == Some(write.0.label) && after.failures@ == batch.failures@
            && after.persistent == batch.persistent && after.radar_key == batch.radar_key
            && after.leading_name@ == batch.leading_name@,
        batch.takes(after, None) ==> batch.pending@.len() == 0 && after.pending@.len() == 0
            && after.failures@ == batch.failures@ && after.persistent == batch.persistent
            && after.radar_key == batch.radar_key && after.leading_name@ == batch.leading_name@,
        batch.records(after, outcome) ==> after.pending@ == batch.pending@ && after.persistent
            == batch.persistent && after.radar_key == batch.radar_key && after.leading_name@
            == batch.leading_name@,
        batch.records(after, outcome) && batch.current is Some && outcome.error() is Some
            ==> texts_of(after.failures@) == texts_of(batch.failures@).push(
            batch.current->0@ + ": "@ + outcome.error()->0@,
        ),
        batch.records(after, outcome) && (batch.current is None || outcome.error() is None)
            ==> texts_of(after.failures@) == texts_of(batch.failures@),
{
    if batch.takes(after, Some(write)) {
        assert(batch.pending@ =~= seq![write] + after.pending@);
    }
}

/// A client is told the names that belong to no control, those it named again,
/// and the names there are.
pub proof fn refused_names_are_told(
    control_id: Seq<char>,
    names: Seq<Seq<char>>,
    keys: Seq<Seq<char>>,
)
    ensures
        unknown_control_text(control_id, keys) == ("Unknown control '"@ + control_id) + (
        "' -- use "@ + (quoted_list(keys) + " instead"@)),
        unknown_controls_text(names, keys) == ("Unknown control(s) "@ + quoted_list(names)) + (
        " -- use "@ + (quoted_list(keys) + " instead"@)),
        repeated_controls_text(names) == "Control(s) "@ + (quoted_list(names)
            + " named more than once"@),
{
    assert(unknown_control_text(control_id, keys) =~= ("Unknown control '"@ + control_id) + (
    "' -- use "@ + (quoted_list(keys) + " instead"@)));
    assert(unknown_controls_text(names, keys) =~= ("Unknown control(s) "@ + quoted_list(names)) + (
    " -- use "@ + (quoted_list(keys) + " instead"@)));
    assert(repeated_controls_text(names) =~= "Control(s) "@ + (quoted_list(names)
        + " named more than once"@));
}

/// A radar has a tenth of a second to object.
pub proof fn radars_have_a_tenth_of_a_second()
    ensures
        CONTROL_REPLY_TIMEOUT_MILLIS * 10 == 1000,
{
}

} // verus!
