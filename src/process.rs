use vstd::prelude::*;

use crate::error::PsError;
use crate::start_time::{get_start_time, start_time_of};
use crate::status::{find_state, state_of};

verus! {

/// One process of the snapshot. Only `pid` is always known.
pub struct Process {
    pub pid: u32,
    /// The raw text of the argument vector.
    pub cmdline: Option<String>,
    /// Where the executable link points.
    pub binary_path: Option<String>,
    /// The owning user's name, or the numeric user ID where it has none.
    pub owner: Option<String>,
    /// When the process started, in seconds since the Unix epoch.
    pub start_time: Option<u64>,
    /// The scheduler state, such as `S (sleeping)`.
    pub state: Option<String>,
}

/// A `Process` seen as plain values.
pub struct ProcessView {
    pub pid: u32,
    pub cmdline: Option<Seq<char>>,
    pub binary_path: Option<Seq<char>>,
    pub owner: Option<Seq<char>>,
    pub start_time: Option<u64>,
    pub state: Option<Seq<char>>,
}

/// The text of an optional string.
pub open spec fn opt_text(o: Option<String>) -> Option<Seq<char>> {
    match o {
        Some(s) => Some(s@),
        None => None,
    }
}

impl View for Process {
    type V = ProcessView;

    open spec fn view(&self) -> ProcessView {
        ProcessView {
            pid: self.pid,
            cmdline: opt_text(self.cmdline),
            binary_path: opt_text(self.binary_path),
            owner: opt_text(self.owner),
            start_time: self.start_time,
            state: opt_text(self.state),
        }
    }
}

/// The owner of a process directory: its numeric user ID and the name that the
/// user database gives it, if any.
pub struct Owner {
    pub uid: u32,
    pub name: Option<String>,
}

/// What was read about one process; `None` where a read failed.
pub struct ProcessSources {
    /// The text of the argument vector record.
    pub cmdline: Option<String>,
    /// The target of the executable link.
    pub binary_path: Option<String>,
    /// The owner of the process directory.
    pub owner: Option<Owner>,
    /// The text of the host's uptime record.
    pub uptime: Option<String>,
    /// The text of the process's scheduling record.
    pub stat: Option<String>,
    /// The wall clock, in nanoseconds since the Unix epoch.
    pub now_ns: Option<u128>,
    /// The text of the process's status record.
    pub status: Option<String>,
}

/// `ProcessSources` seen as plain values.
pub struct SourcesView {
    pub cmdline: Option<Seq<char>>,
    pub binary_path: Option<Seq<char>>,
    pub owner: Option<(u32, Option<Seq<char>>)>,
    pub uptime: Option<Seq<char>>,
    pub stat: Option<Seq<char>>,
    pub now_ns: Option<u128>,
    pub status: Option<Seq<char>>,
}

impl View for ProcessSources {
    type V = SourcesView;

    open spec fn view(&self) -> SourcesView {
        SourcesView {
            cmdline: opt_text(self.cmdline),
            binary_path: opt_text(self.binary_path),
            owner: match self.owner {
                Some(o) => Some((o.uid, opt_text(o.name))),
                None => None,
            },
            uptime: opt_text(self.uptime),
            stat: opt_text(self.stat),
            now_ns: self.now_ns,
            status: opt_text(self.status),
        }
    }
}

/// The character of a decimal digit.
pub open spec fn digit_char(d: nat) -> char {
    ((d + 48) as u8) as char
}

/// The decimal digits of `n`, most significant first, with no sign or padding.
pub open spec fn decimal_text(n: nat) -> Seq<char>
    decreases n,
{
    if n < 10 {
        seq![digit_char(n)]
    } else {
        decimal_text(n / 10).push(digit_char(n % 10))
    }
}

/// The owner shown for a user ID: the user's name, or the ID in decimal where the
/// user database has no entry for it.
pub open spec fn owner_name(uid: u32, name: Option<Seq<char>>) -> Seq<char> {
    match name {
        Some(n) => n,
        None => decimal_text(uid as nat),
    }
}

/// The start time of a process from what was read, or the reason it is unknown
/// (`None` where a record could not be read at all).
pub open spec fn start_outcome(s: SourcesView, tick_rate: nat) -> Option<Result<nat, PsError>> {
    match (s.uptime, s.stat) {
        (Some(u), Some(t)) => Some(start_time_of(u, t, tick_rate, s.now_ns)),
        _ => None,
    }
}

/// The record of process `pid` built from what was read about it: each field
/// comes from its own source alone.
pub open spec fn record_of(pid: u32, s: SourcesView, tick_rate: nat) -> ProcessView {
    ProcessView {
        pid,
        cmdline: s.cmdline,
        binary_path: s.binary_path,
        owner: match s.owner {
            Some((uid, name)) => Some(owner_name(uid, name)),
            None => None,
        },
        start_time: match start_outcome(s, tick_rate) {
            Some(Ok(v)) => Some(v as u64),
            _ => None,
        },
        state: match s.status {
            Some(t) => state_of(t),
            None => None,
        },
    }
}

/// Relies on `ToString` for `u32` (its `Display`): the decimal digits of the number.
#[verifier::external_body]
fn decimal_string(n: u32) -> (r: String)
    ensures
        r@ == decimal_text(n as nat),
{
    n.to_string()
}

/// The owner to show for user ID `uid`, given what the user database holds for it.
pub fn resolve_owner(uid: u32, name: Option<String>) -> (r: String)
    ensures
        r@ == owner_name(uid, opt_text(name)),
{
    match name {
        Some(n) => n,
        None => decimal_string(uid),
    }
}

/// Builds the record of process `pid` from what was read about it. Never fails:
/// a source that could not be read leaves its field absent. Also returns why the
/// start time is unknown, where its records were read but could not be used.
pub fn get_process(pid: u32, sources: ProcessSources, tick_rate: u64) -> (r: (Process, Option<PsError>))
    requires
        tick_rate > 0,
    ensures
        r.0@ == record_of(pid, sources@, tick_rate as nat),
        r.1 == (match start_outcome(sources@, tick_rate as nat) {
            Some(Err(e)) => Some(e),
            _ => None::<PsError>,
        }),
{
    let ghost src = sources@;
    let ProcessSources { cmdline, binary_path, owner, uptime, stat, now_ns, status } = sources;
    let owner = match owner {
        Some(o) => Some(resolve_owner(o.uid, o.name)),
        None => None,
    };
    let mut start_time: Option<u64> = None;
    let mut problem: Option<PsError> = None;
    match (&uptime, &stat) {
        (Some(u), Some(t)) => match get_start_time(u.as_str(), t.as_str(), tick_rate, now_ns) {
            Ok(v) => {
                start_time = Some(v);
            },
            Err(e) => {
                problem = Some(e);
            },
        },
        _ => {},
    }
    let state = match &status {
        Some(t) => find_state(t.as_str()),
        None => None,
    };
    let process = Process { pid, cmdline, binary_path, owner, start_time, state };
    assert(process@.state == record_of(pid, src, tick_rate as nat).state);
    (process, problem)
}

/// Each field of a record depends on its own source alone: two sets of reads that
/// agree on one source give records that agree on that field, whatever the other
/// sources held. The identifier is always present.
pub proof fn lemma_fields_independent(pid: u32, a: SourcesView, b: SourcesView, tick_rate: nat)
    ensures
        record_of(pid, a, tick_rate).pid == pid,
        a.cmdline == b.cmdline ==> record_of(pid, a, tick_rate).cmdline == record_of(
            pid,
            b,
            tick_rate,
        ).cmdline,
        a.binary_path == b.binary_path ==> record_of(pid, a, tick_rate).binary_path == record_of(
            pid,
            b,
            tick_rate,
        ).binary_path,
        a.owner == b.owner ==> record_of(pid, a, tick_rate).owner == record_of(
            pid,
            b,
            tick_rate,
        ).owner,
        (a.uptime, a.stat, a.now_ns) == (b.uptime, b.stat, b.now_ns) ==> record_of(
            pid,
            a,
            tick_rate,
        ).start_time == record_of(pid, b, tick_rate).start_time,
        a.status == b.status ==> record_of(pid, a, tick_rate).state == record_of(
            pid,
            b,
            tick_rate,
        ).state,
{
}

/// Where nothing about a process could be read, its record still stands, with
/// the identifier alone.
pub proof fn lemma_nothing_read_gives_pid_only(pid: u32, s: SourcesView, tick_rate: nat)
    requires
        s.cmdline is None,
        s.binary_path is None,
        s.owner is None,
        s.uptime is None,
        s.stat is None,
        s.status is None,
    ensures
        record_of(pid, s, tick_rate) == (ProcessView {
            pid,
            cmdline: None,
            binary_path: None,
            owner: None,
            start_time: None,
            state: None,
        }),
{
}

} // verus!
