//! What a client is greeted with.
use crate::text::{
    hexadecimal, hexadecimal_is_injective, hexadecimal_reads_back, lemma_hexadecimal_digits,
    number_read, to_hexadecimal,
};
use vstd::prelude::*;

verus! {

/// The context that the own ship has until a concrete one is known.
pub const SELF_CONTEXT: &'static str = "vessels.self";

/// The greeting of a Signal K server.
pub struct SignalKHello {
    pub name: String,
    pub version: String,
    /// The context of the own ship.
    pub self_context: String,
    pub timestamp: String,
    pub roles: Vec<&'static str>,
    /// Identifies this run of the server. A client that reconnects and finds a
    /// different one knows that the values it cached came from an instance that
    /// is gone.
    pub server_start_id: String,
}

/// Greets a client. The own ship goes by its context, where one is known.
pub fn hello(
    name: &str,
    version: &str,
    own_ship_context: Option<String>,
    timestamp: String,
    server_start_id: &str,
) -> (greeting: SignalKHello)
    ensures
        greeting.name@ == name@,
        greeting.version@ == version@,
        greeting.self_context@ == (match own_ship_context {
            Some(context) => context@,
            None => SELF_CONTEXT@,
        }),
        greeting.timestamp == timestamp,
        // Not "main": that is the vessel's primary server, and a radar source
        // normally sits behind one.
        greeting.roles@.len() == 1,
        greeting.roles@[0]@ == "master"@,
        greeting.server_start_id@ == server_start_id@,
{
    let self_context = match own_ship_context {
        Some(context) => context,
        None => SELF_CONTEXT.to_owned(),
    };
    SignalKHello {
        name: name.to_owned(),
        version: version.to_owned(),
        self_context,
        timestamp,
        roles: vec!["master"],
        server_start_id: server_start_id.to_owned(),
    }
}

/// A moment, in seconds and nanoseconds since 1970 began, as RFC 3339 has it:
/// in UTC, with milliseconds, and with a `Z` for the offset. Nothing for what
/// is no moment of the calendar.
pub uninterp spec fn rfc3339_millis(secs: i64, nanos: u32) -> Option<Seq<char>>;

/// Whether a moment lies before the end of the year 9999.
pub open spec fn has_four_digit_year(secs: i64, nanos: u32) -> bool {
    0 <= secs < 253_402_300_800 && nanos < 1_000_000_000
}

/// What the text of a moment says, if there is one.
pub open spec fn moment_view(text: Option<String>) -> Option<Seq<char>> {
    match text {
        Some(moment) => Some(moment@),
        None => None,
    }
}

/// Whether there is a text, and it has the shape that every Signal K server
/// sends: twenty characters to the point, three digits, a `Z`.
pub open spec fn is_millis_and_zulu(moment: Option<Seq<char>>) -> bool {
    &&& moment matches Some(text)
    &&& text.len() == 24
    &&& text[10] == 'T'
    &&& text[19] == '.'
    &&& text[23] == 'Z'
}

/// `chrono::DateTime::to_rfc3339_opts` with milliseconds and `Z`, on the moment
/// that `chrono::DateTime::from_timestamp` makes of the two numbers. From 1970
/// to 9999 there is such a moment, and its text has the usual shape; which
/// digits stand in it is left unsaid.
#[verifier::external_body]
fn format_moment(secs: i64, nanos: u32) -> (text: Option<String>)
    ensures
        moment_view(text) == rfc3339_millis(secs, nanos),
        has_four_digit_year(secs, nanos) ==> is_millis_and_zulu(moment_view(text)),
{
    chrono::DateTime::from_timestamp(secs, nanos)
        .map(|moment| moment.to_rfc3339_opts(chrono::SecondsFormat::Millis, true))
}

/// Writes a moment in the form that every other Signal K server sends, and
/// therefore the one that every client is known to read: milliseconds and a
/// `Z`.
pub fn to_rfc3339(secs: i64, nanos: u32) -> (text: Option<String>)
    ensures
        moment_view(text) == rfc3339_millis(secs, nanos),
        has_four_digit_year(secs, nanos) ==> is_millis_and_zulu(moment_view(text)),
{
    format_moment(secs, nanos)
}

/// The id of a run of the server: the number of the process and the moment at
/// which it started, in hexadecimal.
pub open spec fn start_id(pid: u32, nanos: i64) -> Seq<char> {
    hexadecimal(pid as nat) + "-"@ + hexadecimal((nanos as u64) as nat)
}

/// The id of a run of the server, from the number of the process and the
/// nanoseconds since 1970 at which it started, where they can be told.
pub fn server_start_id(pid: u32, nanos: Option<i64>) -> (id: String)
    ensures
        id@ == start_id(
            pid,
            match nanos {
                Some(known) => known,
                None => 0,
            },
        ),
{
    let started: i64 = match nanos {
        Some(known) => known,
        None => 0,
    };
    let mut id = to_hexadecimal(pid as u64);
    id.append("-");
    id.append(to_hexadecimal(started as u64).as_str());
    id
}

/// The id that a process goes by in all its greetings, once it has one.
pub struct StartId {
    pub known: Option<String>,
}

impl StartId {
    /// The id of this run. The first call settles it from the number of the
    /// process and the moment; every later one gives the same, whatever the
    /// clock says by then.
    pub fn get(&mut self, pid: u32, nanos: Option<i64>) -> (id: String)
        ensures
            final(self).known == Some(id),
            match old(self).known {
                Some(known) => id == known,
                None => id@ == start_id(
                    pid,
                    match nanos {
                        Some(moment) => moment,
                        None => 0,
                    },
                ),
            },
    {
        let id = match self.known.take() {
            Some(known) => known,
            None => server_start_id(pid, nanos),
        };
        self.known = Some(id.clone());
        id
    }
}

/// Two runs have different ids: the id tells the process and the moment.
pub proof fn start_id_is_injective(pid: u32, nanos: i64, other_pid: u32, other_nanos: i64)
    requires
        start_id(pid, nanos) == start_id(other_pid, other_nanos),
    ensures
        pid == other_pid,
        nanos == other_nanos,
{
    reveal_strlit("-");
    let a = hexadecimal(pid as nat);
    let b = hexadecimal(other_pid as nat);
    let x = hexadecimal((nanos as u64) as nat);
    let y = hexadecimal((other_nanos as u64) as nat);
    lemma_hexadecimal_digits(pid as nat);
    lemma_hexadecimal_digits(other_pid as nat);
    let one = start_id(pid, nanos);
    let other = start_id(other_pid, other_nanos);
    assert(one[a.len() as int] == '-');
    assert(other[b.len() as int] == '-');
    if a.len() < b.len() {
        assert(other[a.len() as int] == b[a.len() as int]);
    } else if b.len() < a.len() {
        assert(one[b.len() as int] == a[b.len() as int]);
    }
    assert(a =~= one.take(a.len() as int));
    assert(b =~= other.take(b.len() as int));
    assert(x =~= one.skip(a.len() as int + 1));
    assert(y =~= other.skip(b.len() as int + 1));
    hexadecimal_is_injective(pid as nat, other_pid as nat);
    hexadecimal_is_injective((nanos as u64) as nat, (other_nanos as u64) as nat);
    assert(nanos as u64 == other_nanos as u64 ==> nanos == other_nanos) by (bit_vector);
}

/// The id of a run reads back as the number of the process in front of its one
/// hyphen and the moment behind it, both in hexadecimal.
pub proof fn start_id_reads_back(pid: u32, nanos: i64) -> (hyphen: int)
    ensures
        0 < hyphen < start_id(pid, nanos).len() - 1,
        start_id(pid, nanos)[hyphen] == '-',
        forall|i: int|
            0 <= i < start_id(pid, nanos).len() && #[trigger] start_id(pid, nanos)[i] == '-'
                ==> i == hyphen,
        number_read(start_id(pid, nanos).take(hyphen), 16) == pid,
        number_read(start_id(pid, nanos).skip(hyphen + 1), 16) == (nanos as u64),
        start_id(pid, nanos)[0] == '0' ==> pid == 0,
{
    reveal_strlit("-");
    let process = hexadecimal(pid as nat);
    let moment = hexadecimal((nanos as u64) as nat);
    let id = start_id(pid, nanos);
    hexadecimal_reads_back(pid as nat);
    hexadecimal_reads_back((nanos as u64) as nat);
    lemma_hexadecimal_digits(pid as nat);
    lemma_hexadecimal_digits((nanos as u64) as nat);
    let hyphen = process.len() as int;
    assert(id.take(hyphen) =~= process);
    assert(id.skip(hyphen + 1) =~= moment);
    assert forall|i: int| 0 <= i < id.len() && #[trigger] id[i] == '-' implies i == hyphen by {
        if i < hyphen {
            assert(id[i] == process[i]);
        } else if i > hyphen {
            assert(id[i] == moment[i - hyphen - 1]);
        }
    }
    assert(id[0] == process[0]);
    hyphen
}

/// The text of a moment is read as what it says, where there is one.
pub proof fn moments_are_read(text: Option<String>)
    ensures
        moment_view(text) is Some <==> text is Some,
        text is Some ==> moment_view(text)->0 == text->0@,
{
}

} // verus!
