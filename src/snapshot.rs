use vstd::prelude::*;

use crate::error::PsError;
use crate::number::{natural_of, parse_natural};
use crate::process::{get_process, record_of, Process, ProcessSources};
use crate::text::chars_of;

verus! {

/// An entry of the process table's listing.
pub struct ListedEntry {
    /// Whether the entry is a directory.
    pub is_dir: bool,
    /// The entry's name.
    pub name: String,
}

/// The process identifier an entry stands for: its name read as a decimal number
/// that fits in 32 bits, where the entry is a directory.
pub open spec fn candidate_pid(is_dir: bool, name: Seq<char>) -> Option<u32> {
    if is_dir {
        match natural_of(name, u32::MAX as nat) {
            Some(v) => Some(v as u32),
            None => None,
        }
    } else {
        None
    }
}

/// The process identifier that a listed entry stands for, if any.
pub open spec fn entry_pid(e: ListedEntry) -> Option<u32> {
    candidate_pid(e.is_dir, e.name@)
}

/// The tick rate that the platform query reported, or the error it signalled.
pub open spec fn tick_rate_of(sysconf_value: i64, errno: i32) -> Result<u64, PsError> {
    if sysconf_value >= 1 {
        Ok(sysconf_value as u64)
    } else {
        Err(PsError::FailedToGetSysClockTickRate(errno))
    }
}

/// `procs` is what enumerating `entries` gave, through `m`: the records stand in the
/// order of the entries they come from (`m[i]` is the entry of `procs[i]`), each built
/// from what `probe` read for its identifier; every process entry without a record
/// was reported gone by `probe`; nothing else is recorded.
pub open spec fn is_snapshot_of<P: Fn(u32) -> Option<ProcessSources>>(
    entries: Seq<ListedEntry>,
    procs: Seq<Process>,
    probe: P,
    tick_rate: nat,
    m: Seq<int>,
) -> bool {
    &&& m.len() == procs.len()
    &&& forall|i: int, j: int| 0 <= i < j < m.len() ==> m[i] < m[j]
    &&& forall|i: int|
        0 <= i < m.len() ==> {
            &&& 0 <= #[trigger] m[i] < entries.len()
            &&& entry_pid(entries[m[i]]) == Some(procs[i].pid)
            &&& exists|s: ProcessSources|
                #[trigger] probe.ensures((procs[i].pid,), Some(s)) && procs[i]@ == record_of(
                    procs[i].pid,
                    s@,
                    tick_rate,
                )
        }
    &&& forall|j: int|
        0 <= j < entries.len() && #[trigger] entry_pid(entries[j]) is Some && !m.contains(j)
            ==> probe.ensures((entry_pid(entries[j])->0,), None)
}

/// `procs` is what enumerating `entries` gave, in the sense of `is_snapshot_of`.
pub open spec fn is_snapshot<P: Fn(u32) -> Option<ProcessSources>>(
    entries: Seq<ListedEntry>,
    procs: Seq<Process>,
    probe: P,
    tick_rate: nat,
) -> bool {
    exists|m: Seq<int>| #[trigger] is_snapshot_of(entries, procs, probe, tick_rate, m)
}

/// Reads the platform's clock tick rate query: a positive value is the rate; any
/// other value signals failure, with `errno` as the reason.
pub fn clock_tick_rate(sysconf_value: i64, errno: i32) -> (r: Result<u64, PsError>)
    ensures
        r == tick_rate_of(sysconf_value, errno),
{
    if sysconf_value >= 1 {
        Ok(sysconf_value as u64)
    } else {
        Err(PsError::FailedToGetSysClockTickRate(errno))
    }
}

/// The process identifier of a listed entry: skips entries that are not
/// directories or whose name is not a number.
pub fn process_id(is_dir: bool, name: &str) -> (r: Option<u32>)
    ensures
        r == candidate_pid(is_dir, name@),
{
    if !is_dir {
        return None;
    }
    let chars = chars_of(name);
    proof {
        assert(chars@.subrange(0, chars@.len() as int) =~= name@);
    }
    match parse_natural(&chars, 0, chars.len(), u32::MAX as u64) {
        Some(v) => Some(v as u32),
        None => None,
    }
}

/// Takes a snapshot of the process table. `sysconf_value` and `errno` are what the
/// clock tick rate query gave; `listing` is the listing of the process table.
/// For each entry that names a process, `probe` reads what can be read about it,
/// or returns `None` where the process is gone; a process whose start time is
/// unknown for a reason is passed to `report` with that reason.
/// Fails, with no records, where the tick rate or the listing is unavailable.
pub fn get_processes<P, D>(
    sysconf_value: i64,
    errno: i32,
    listing: Result<Vec<ListedEntry>, PsError>,
    probe: P,
    report: D,
) -> (r: Result<Vec<Process>, PsError>) where
    P: Fn(u32) -> Option<ProcessSources>,
    D: Fn(u32, PsError),

    requires
        forall|p: u32| probe.requires((p,)),
        forall|p: u32, e: PsError| report.requires((p, e)),
    ensures
        sysconf_value < 1 ==> r == Err::<Vec<Process>, PsError>(
            PsError::FailedToGetSysClockTickRate(errno),
        ),
        sysconf_value >= 1 && listing is Err ==> r == Err::<Vec<Process>, PsError>(
            listing->Err_0,
        ),
        sysconf_value >= 1 && listing is Ok ==> r is Ok,
        r matches Ok(v) ==> listing matches Ok(entries) && v.len() <= entries.len(),
        r matches Ok(v) ==> listing matches Ok(entries) && is_snapshot(
            entries@,
            v@,
            probe,
            sysconf_value as nat,
        ),
{
    let ghost listed = listing;
    let tick_rate = match clock_tick_rate(sysconf_value, errno) {
        Ok(t) => t,
        Err(e) => {
            return Err(e);
        },
    };
    let entries = match listing {
        Ok(entries) => entries,
        Err(e) => {
            return Err(e);
        },
    };
    let mut procs: Vec<Process> = Vec::new();
    let ghost mut m: Seq<int> = Seq::empty();
    let n = entries.len();
    let mut k: usize = 0;
    while k < n
        invariant
            k <= n == entries@.len(),
            tick_rate as int == sysconf_value as int,
            tick_rate > 0,
            forall|p: u32| probe.requires((p,)),
            forall|p: u32, e: PsError| report.requires((p, e)),
            procs@.len() <= k,
            m.len() == procs@.len(),
            forall|i: int| 0 <= i < m.len() ==> m[i] < k,
            is_snapshot_of(entries@.take(k as int), procs@, probe, tick_rate as nat, m),
        decreases n - k,
    {
        let ghost old_m = m;
        let ghost old_procs = procs@;
        let ghost mut pushed = false;
        let entry = &entries[k];
        let pid = process_id(entry.is_dir, entry.name.as_str());
        assert(pid == entry_pid(entries@[k as int]));
        match pid {
            None => {},
            Some(pid) => {
                let found = probe(pid);
                match found {
                    None => {
                        assert(probe.ensures((pid,), None));
                    },
                    Some(sources) => {
                        let ghost s = sources;
                        let (process, problem) = get_process(pid, sources, tick_rate);
                        match problem {
                            Some(e) => {
                                report(pid, e);
                            },
                            None => {},
                        }
                        procs.push(process);
                        proof {
                            m = m.push(k as int);
                            pushed = true;
                            assert(probe.ensures((pid,), Some(s)));
                        }
                    },
                }
            },
        }
        proof {
            let es = entries@.take(k + 1);
            assert(forall|j: int| 0 <= j < k ==> es[j] == entries@.take(k as int)[j]);
            assert forall|i: int| 0 <= i < m.len() implies 0 <= #[trigger] m[i] < es.len()
                && entry_pid(es[m[i]]) == Some(procs@[i].pid) && exists|s: ProcessSources|
                #[trigger] probe.ensures((procs@[i].pid,), Some(s)) && procs@[i]@ == record_of(
                procs@[i].pid,
                s@,
                tick_rate as nat,
            ) by {
                if i < old_m.len() {
                    assert(m[i] == old_m[i]);
                    assert(procs@[i] == old_procs[i]);
                }
            }
            assert forall|j: int|
                0 <= j < es.len() && #[trigger] entry_pid(es[j]) is Some && !m.contains(
                    j,
                ) implies probe.ensures((entry_pid(es[j])->0,), None) by {
                if j == k {
                    assert(es[j] == entries@[k as int]);
                    if pushed {
                        assert(m[m.len() - 1] == k);
                    }
                } else {
                    assert(es[j] == entries@.take(k as int)[j]);
                    if old_m.contains(j) {
                        let x = choose|x: int| 0 <= x < old_m.len() && old_m[x] == j;
                        assert(m[x] == j);
                    }
                }
            }
        }
        k = k + 1;
    }
    assert(entries@.take(n as int) =~= entries@);
    assert(is_snapshot_of(entries@, procs@, probe, sysconf_value as nat, m));
    assert(listed == Ok::<Vec<ListedEntry>, PsError>(entries));
    assert(procs@.len() <= entries@.len());
    assert(is_snapshot(entries@, procs@, probe, sysconf_value as nat));
    Ok(procs)
}

} // verus!
