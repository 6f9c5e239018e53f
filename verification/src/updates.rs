//! What a client is sent over its stream.
use vstd::prelude::*;

verus! {

pub const POSITION_PATH: &'static str = "navigation.position";

pub const HEADING_TRUE_PATH: &'static str = "navigation.headingTrue";

pub const HEADING_MAGNETIC_PATH: &'static str = "navigation.headingMagnetic";

/// What makes a navigation value due.
#[derive(Clone, Copy, Debug, PartialEq, Eq, Structural)]
pub enum Due {
    /// The client has subscribed to it.
    Subscribed,
    /// The client wants it at fixed times, and it is time.
    Periodic,
}

/// Something that is sent to a client.
#[derive(Clone, Copy, Debug, PartialEq, Eq, Structural)]
pub enum Sending {
    /// The controls that the client has subscribed to.
    Controls,
    /// All vessels that are known by AIS.
    AisVessels,
    /// The navigation values that are due.
    Navigation(Due),
}

/// What follows a subscription, in its order: what there is already of what the
/// client has subscribed to.
pub open spec fn sendings_on_subscription(ais_subscribed: bool) -> Seq<Sending> {
    if ais_subscribed {
        seq![Sending::Controls, Sending::AisVessels, Sending::Navigation(Due::Subscribed)]
    } else {
        seq![Sending::Controls, Sending::Navigation(Due::Subscribed)]
    }
}

/// Lists what follows a subscription, in its order.
pub fn handle_subscription(ais_subscribed: bool) -> (sendings: Vec<Sending>)
    ensures
        sendings@ == sendings_on_subscription(ais_subscribed),
{
    let sendings = if ais_subscribed {
        vec![Sending::Controls, Sending::AisVessels, Sending::Navigation(Due::Subscribed)]
    } else {
        vec![Sending::Controls, Sending::Navigation(Due::Subscribed)]
    };
    assert(sendings@ =~= sendings_on_subscription(ais_subscribed));
    sendings
}

/// Lists what is due when a period is over, in its order: the controls that the
/// client has subscribed to, and the navigation values that it wants at fixed
/// times.
pub fn send_periodic() -> (sendings: Vec<Sending>)
    ensures
        sendings@ == seq![Sending::Controls, Sending::Navigation(Due::Periodic)],
{
    let sendings = vec![Sending::Controls, Sending::Navigation(Due::Periodic)];
    assert(sendings@ =~= seq![Sending::Controls, Sending::Navigation(Due::Periodic)]);
    sendings
}

/// Which navigation values are due.
#[derive(Clone, Copy, Debug, PartialEq, Eq, Structural)]
pub struct NavigationDue {
    pub position: bool,
    pub heading_true: bool,
    pub heading_magnetic: bool,
}

/// The navigation values as they stand, as far as they are known.
pub struct NavigationValues<N> {
    pub latitude: Option<N>,
    pub longitude: Option<N>,
    pub heading_true: Option<N>,
    pub heading_magnetic: Option<N>,
}

/// A navigation value that is sent.
pub enum NavigationUpdate<N> {
    Position { latitude: N, longitude: N },
    HeadingTrue(N),
    HeadingMagnetic(N),
}

impl<N> NavigationUpdate<N> {
    /// The path that the value is sent under.
    pub open spec fn path_text(self) -> Seq<char> {
        match self {
            NavigationUpdate::Position { .. } => POSITION_PATH@,
            NavigationUpdate::HeadingTrue(_) => HEADING_TRUE_PATH@,
            NavigationUpdate::HeadingMagnetic(_) => HEADING_MAGNETIC_PATH@,
        }
    }

    /// The path that the value is sent under.
    pub fn path(&self) -> (path: &'static str)
        ensures
            path@ == self.path_text(),
    {
        match self {
            NavigationUpdate::Position { .. } => POSITION_PATH,
            NavigationUpdate::HeadingTrue(_) => HEADING_TRUE_PATH,
            NavigationUpdate::HeadingMagnetic(_) => HEADING_MAGNETIC_PATH,
        }
    }
}

/// The position, where it is due and known in full.
pub open spec fn position_update<N>(due: bool, values: NavigationValues<N>) -> Seq<
    NavigationUpdate<N>,
> {
    match (values.latitude, values.longitude) {
        (Some(latitude), Some(longitude)) => if due {
            seq![NavigationUpdate::Position { latitude, longitude }]
        } else {
            seq![]
        },
        _ => seq![],
    }
}

/// The true heading, where it is due and known.
pub open spec fn heading_true_update<N>(due: bool, heading: Option<N>) -> Seq<
    NavigationUpdate<N>,
> {
    match heading {
        Some(known) => if due {
            seq![NavigationUpdate::HeadingTrue(known)]
        } else {
            seq![]
        },
        None => seq![],
    }
}

/// The magnetic heading, where it is due and known.
pub open spec fn heading_magnetic_update<N>(due: bool, heading: Option<N>) -> Seq<
    NavigationUpdate<N>,
> {
    match heading {
        Some(known) => if due {
            seq![NavigationUpdate::HeadingMagnetic(known)]
        } else {
            seq![]
        },
        None => seq![],
    }
}

/// The navigation values that are due and known.
pub open spec fn navigation_updates<N>(due: NavigationDue, values: NavigationValues<N>) -> Seq<
    NavigationUpdate<N>,
> {
    position_update(due.position, values) + heading_true_update(
        due.heading_true,
        values.heading_true,
    ) + heading_magnetic_update(due.heading_magnetic, values.heading_magnetic)
}

/// Gathers the navigation values that are due and known. Nothing is sent where
/// there are none.
pub fn send_navigation<N>(due: NavigationDue, values: NavigationValues<N>) -> (message: Option<
    Vec<NavigationUpdate<N>>,
>)
    ensures
        match message {
            Some(updates) => updates@ == navigation_updates(due, values) && updates@.len() > 0,
            None => navigation_updates(due, values).len() == 0,
        },
{
    let mut updates: Vec<NavigationUpdate<N>> = Vec::new();
    let ghost position = position_update(due.position, values);
    let ghost heading_true = heading_true_update(due.heading_true, values.heading_true);
    let ghost heading_magnetic = heading_magnetic_update(
        due.heading_magnetic,
        values.heading_magnetic,
    );
    if due.position {
        if let (Some(latitude), Some(longitude)) = (values.latitude, values.longitude) {
            updates.push(NavigationUpdate::Position { latitude, longitude });
        }
    }
    assert(updates@ =~= position);
    if due.heading_true {
        if let Some(heading) = values.heading_true {
            updates.push(NavigationUpdate::HeadingTrue(heading));
        }
    }
    assert(updates@ =~= position + heading_true);
    if due.heading_magnetic {
        if let Some(heading) = values.heading_magnetic {
            updates.push(NavigationUpdate::HeadingMagnetic(heading));
        }
    }
    assert(updates@ =~= position + heading_true + heading_magnetic);
    if updates.len() > 0 {
        Some(updates)
    } else {
        None
    }
}

/// The values of all radars, one radar after the other.
pub open spec fn all_values<V>(radars: Seq<Vec<V>>) -> Seq<V>
    decreases radars.len(),
{
    if radars.len() == 0 {
        seq![]
    } else {
        all_values(radars.drop_last()) + radars.last()@
    }
}

/// Gathers the values of all radars, one radar after the other.
pub fn gather<V>(radars: Vec<Vec<V>>) -> (values: Vec<V>)
    ensures
        values@ == all_values(radars@),
{
    let ghost all = radars@;
    let mut rest = radars;
    let mut values: Vec<V> = Vec::new();
    let ghost mut taken: int = 0;
    assert(values@ =~= all_values(all.take(0)));
    while rest.len() > 0
        invariant
            0 <= taken <= all.len(),
            rest@ =~= all.skip(taken),
            values@ == all_values(all.take(taken)),
        decreases rest.len(),
    {
        let mut next = rest.remove(0);
        values.append(&mut next);
        proof {
            assert(all.take(taken + 1).drop_last() =~= all.take(taken));
            taken = taken + 1;
        }
    }
    assert(all.take(taken) =~= all);
    values
}

/// The values that the client is owed.
pub open spec fn owed_values<V>(values: Seq<(V, bool)>) -> Seq<V>
    decreases values.len(),
{
    if values.len() == 0 {
        seq![]
    } else if values.last().1 {
        owed_values(values.drop_last()).push(values.last().0)
    } else {
        owed_values(values.drop_last())
    }
}

/// Keeps, of the values of all controls, those that the client is owed. Nothing
/// is sent where there are none.
pub fn send_all_subscribed<V>(values: Vec<(V, bool)>) -> (message: Option<Vec<V>>)
    ensures
        match message {
            Some(owed) => owed@ == owed_values(values@) && owed@.len() > 0,
            None => owed_values(values@).len() == 0,
        },
{
    let ghost all = values@;
    let mut rest = values;
    let mut owed: Vec<V> = Vec::new();
    let ghost mut taken: int = 0;
    assert(owed@ =~= owed_values(all.take(0)));
    while rest.len() > 0
        invariant
            0 <= taken <= all.len(),
            rest@ =~= all.skip(taken),
            owed@ == owed_values(all.take(taken)),
        decreases rest.len(),
    {
        let (value, keep) = rest.remove(0);
        if keep {
            owed.push(value);
        }
        proof {
            assert(all.take(taken + 1).drop_last() =~= all.take(taken));
            taken = taken + 1;
        }
    }
    assert(all.take(taken) =~= all);
    if owed.len() > 0 {
        Some(owed)
    } else {
        None
    }
}

/// A client is sent a value exactly if it is owed it.
pub proof fn owed_values_are_sent<V>(values: Seq<(V, bool)>, value: V)
    ensures
        owed_values(values).contains(value) <==> values.contains((value, true)),
    decreases values.len(),
{
    if values.len() > 0 {
        let earlier = values.drop_last();
        owed_values_are_sent(earlier, value);
        let owed = owed_values(values);
        if owed.contains(value) {
            let i = choose|i: int| 0 <= i < owed.len() && owed[i] == value;
            if i < owed_values(earlier).len() {
                assert(owed_values(earlier)[i] == value);
                let j = choose|j: int| 0 <= j < earlier.len() && earlier[j] == (value, true);
                assert(values[j] == (value, true));
            } else {
                assert(values[values.len() - 1] == (value, true));
            }
        }
        if values.contains((value, true)) {
            let j = choose|j: int| 0 <= j < values.len() && values[j] == (value, true);
            if j < earlier.len() {
                assert(earlier[j] == (value, true));
                let i = choose|i: int|
                    0 <= i < owed_values(earlier).len() && owed_values(earlier)[i] == value;
                assert(owed[i] == value);
            } else {
                assert(owed[owed.len() - 1] == value);
            }
        }
    }
}

/// The messages there are.
pub open spec fn messages<D>(deltas: Seq<Option<D>>) -> Seq<D>
    decreases deltas.len(),
{
    if deltas.len() == 0 {
        seq![]
    } else {
        match deltas.last() {
            Some(delta) => messages(deltas.drop_last()).push(delta),
            None => messages(deltas.drop_last()),
        }
    }
}

/// Lists the messages about vessels known by AIS: one for each vessel of which
/// there is something to say, since a message has a single context, and each
/// vessel is a context of its own.
pub fn send_all_ais_vessels<D>(deltas: Vec<Option<D>>) -> (sent: Vec<D>)
    ensures
        sent@ == messages(deltas@),
{
    let ghost all = deltas@;
    let mut rest = deltas;
    let mut sent: Vec<D> = Vec::new();
    let ghost mut taken: int = 0;
    assert(sent@ =~= messages(all.take(0)));
    while rest.len() > 0
        invariant
            0 <= taken <= all.len(),
            rest@ =~= all.skip(taken),
            sent@ == messages(all.take(taken)),
        decreases rest.len(),
    {
        if let Some(delta) = rest.remove(0) {
            sent.push(delta);
        }
        proof {
            assert(all.take(taken + 1).drop_last() =~= all.take(taken));
            taken = taken + 1;
        }
    }
    assert(all.take(taken) =~= all);
    sent
}

/// Each navigation value is sent exactly if it is itself due and known, whatever
/// is due and known of the others.
pub proof fn navigation_values_are_sent_when_due_and_known<N>(
    due: NavigationDue,
    values: NavigationValues<N>,
    latitude: N,
    longitude: N,
    heading: N,
)
    ensures
        navigation_updates(due, values).contains(
            NavigationUpdate::Position { latitude, longitude },
        ) <==> due.position && values.latitude == Some(latitude) && values.longitude == Some(
            longitude,
        ),
        navigation_updates(due, values).contains(NavigationUpdate::HeadingTrue(heading))
            <==> due.heading_true && values.heading_true == Some(heading),
        navigation_updates(due, values).contains(NavigationUpdate::HeadingMagnetic(heading))
            <==> due.heading_magnetic && values.heading_magnetic == Some(heading),
{
    let position = position_update(due.position, values);
    let heading_true = heading_true_update(due.heading_true, values.heading_true);
    let magnetic = heading_magnetic_update(due.heading_magnetic, values.heading_magnetic);
    let all = navigation_updates(due, values);
    if position.len() > 0 {
        assert(all[0] == position[0]);
    }
    if heading_true.len() > 0 {
        assert(all[position.len() as int] == heading_true[0]);
    }
    if magnetic.len() > 0 {
        assert(all[(position.len() + heading_true.len()) as int] == magnetic[0]);
    }
}

/// No navigation value is sent twice in one message: the position comes first,
/// then the true heading, then the magnetic one.
pub proof fn navigation_values_come_in_order<N>(
    due: NavigationDue,
    values: NavigationValues<N>,
    i: int,
    j: int,
)
    requires
        0 <= i < j < navigation_updates(due, values).len(),
    ensures
        navigation_updates(due, values)[i] is Position || navigation_updates(
            due,
            values,
        )[i] is HeadingTrue,
        navigation_updates(due, values)[j] is HeadingTrue || navigation_updates(
            due,
            values,
        )[j] is HeadingMagnetic,
        navigation_updates(due, values)[i] is HeadingTrue ==> navigation_updates(
            due,
            values,
        )[j] is HeadingMagnetic,
{
}

/// A navigation value is sent under the path of what it is.
pub proof fn navigation_paths<N>(update: NavigationUpdate<N>)
    ensures
        update is Position ==> update.path_text() == "navigation.position"@,
        update is HeadingTrue ==> update.path_text() == "navigation.headingTrue"@,
        update is HeadingMagnetic ==> update.path_text() == "navigation.headingMagnetic"@,
{
}

/// A subscription is followed by controls first and navigation last, and by AIS
/// vessels in between exactly if the client has subscribed to them.
pub proof fn subscription_is_followed_up(ais_subscribed: bool)
    ensures
        sendings_on_subscription(ais_subscribed).first() == Sending::Controls,
        sendings_on_subscription(ais_subscribed).last() == Sending::Navigation(Due::Subscribed),
        sendings_on_subscription(ais_subscribed).contains(Sending::AisVessels)
            <==> ais_subscribed,
        sendings_on_subscription(ais_subscribed).no_duplicates(),
        !sendings_on_subscription(ais_subscribed).contains(Sending::Navigation(Due::Periodic)),
{
    let sendings = sendings_on_subscription(ais_subscribed);
    if ais_subscribed {
        assert(sendings[1] == Sending::AisVessels);
    }
}

/// The values of all radars are those of the first, then those of the next, and
/// so on: none is left out, and none comes from elsewhere.
pub proof fn all_values_follow_the_radars<V>(radars: Seq<Vec<V>>)
    ensures
        all_values(radars) == radars.map_values(|radar: Vec<V>| radar@).flatten(),
{
    let views = radars.map_values(|radar: Vec<V>| radar@);
    lemma_all_values(radars);
    views.lemma_flatten_and_flatten_alt_are_equivalent();
}

proof fn lemma_all_values<V>(radars: Seq<Vec<V>>)
    ensures
        all_values(radars) == radars.map_values(|radar: Vec<V>| radar@).flatten_alt(),
    decreases radars.len(),
{
    if radars.len() > 0 {
        let views = radars.map_values(|radar: Vec<V>| radar@);
        lemma_all_values(radars.drop_last());
        assert(views.drop_last() =~= radars.drop_last().map_values(|radar: Vec<V>| radar@));
    }
}

/// What a client is owed is sent in the order in which it stands, each value as
/// often as it stands there.
pub proof fn owed_values_keep_their_order<V>(values: Seq<(V, bool)>)
    ensures
        owed_values(values) == values.filter(|value: (V, bool)| value.1).map_values(
            |value: (V, bool)| value.0,
        ),
    decreases values.len(),
{
    reveal(Seq::filter);
    if values.len() > 0 {
        owed_values_keep_their_order(values.drop_last());
    }
    assert(owed_values(values) =~= values.filter(|value: (V, bool)| value.1).map_values(
        |value: (V, bool)| value.0,
    ));
}

/// Every message there is goes out once, in the order of the vessels.
pub proof fn messages_keep_their_order<D>(deltas: Seq<Option<D>>)
    ensures
        messages(deltas) == deltas.filter(|delta: Option<D>| delta is Some).map_values(
            |delta: Option<D>| delta->0,
        ),
    decreases deltas.len(),
{
    reveal(Seq::filter);
    if deltas.len() > 0 {
        messages_keep_their_order(deltas.drop_last());
    }
    assert(messages(deltas) =~= deltas.filter(|delta: Option<D>| delta is Some).map_values(
        |delta: Option<D>| delta->0,
    ));
}

} // verus!
