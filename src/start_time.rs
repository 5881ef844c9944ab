use vstd::prelude::*;

use crate::error::PsError;
use crate::number::{decimal_nanos, natural_of, parse_decimal_nanos, parse_natural};
use crate::text::{chars_of, field, find_field};

verus! {

/// Nanoseconds in a second.
pub const NANOS_PER_SEC: u128 = 1_000_000_000;

/// The field of the scheduling record that holds the start time in ticks since boot.
pub const START_TICKS_FIELD: usize = 21;

/// The same field counted from the first field after the command name, which ends
/// at the record's last `)`: the name itself may hold spaces and parentheses.
pub const START_TICKS_AFTER_NAME: usize = 19;

/// The position of the last `)` in `s[0..i)`, or -1 where there is none.
pub open spec fn last_close_paren(s: Seq<char>, i: int) -> int
    decreases i,
{
    if i <= 0 || i > s.len() {
        -1
    } else if s[i - 1] == ')' {
        i - 1
    } else {
        last_close_paren(s, i - 1)
    }
}

/// The start ticks field of a scheduling record: counted after the command name
/// where the record has a `)`, else the twenty-second field.
pub open spec fn start_ticks_field(stat: Seq<char>) -> Option<Seq<char>> {
    let p = last_close_paren(stat, stat.len() as int);
    if p >= 0 {
        field(stat.skip(p + 1), START_TICKS_AFTER_NAME as nat)
    } else {
        field(stat, START_TICKS_FIELD as nat)
    }
}

proof fn lemma_last_close_paren(s: Seq<char>, i: int)
    requires
        0 <= i <= s.len(),
    ensures
        -1 <= last_close_paren(s, i) < i,
    decreases i,
{
    if i > 0 && s[i - 1] != ')' {
        lemma_last_close_paren(s, i - 1);
    }
}

/// The characters of `s` from position `from` on.
fn chars_from(s: &Vec<char>, from: usize) -> (r: Vec<char>)
    requires
        from <= s@.len(),
    ensures
        r@ == s@.skip(from as int),
{
    let mut r: Vec<char> = Vec::new();
    let mut i: usize = from;
    while i < s.len()
        invariant
            from <= i <= s@.len(),
            r@ == s@.subrange(from as int, i as int),
        decreases s@.len() - i,
    {
        r.push(s[i]);
        i = i + 1;
    }
    assert(r@ =~= s@.skip(from as int));
    r
}

/// The start ticks field of the scheduling record `st`, as a position range in the
/// vector it returns.
fn find_start_ticks(st: &Vec<char>) -> (r: (Vec<char>, Option<(usize, usize)>))
    ensures
        r.1 is None <==> start_ticks_field(st@) is None,
        r.1 matches Some((a, b)) ==> a <= b <= r.0@.len() && start_ticks_field(st@) == Some(
            r.0@.subrange(a as int, b as int),
        ),
{
    let mut i: usize = st.len();
    while i > 0 && st[i - 1] != ')'
        invariant
            i <= st@.len(),
            last_close_paren(st@, st@.len() as int) == last_close_paren(st@, i as int),
        decreases i,
    {
        i = i - 1;
    }
    proof {
        lemma_last_close_paren(st@, i as int);
    }
    if i > 0 {
        let tail = chars_from(st, i);
        let f = find_field(&tail, START_TICKS_AFTER_NAME);
        (tail, f)
    } else {
        let whole = chars_from(st, 0);
        assert(whole@ =~= st@);
        let f = find_field(&whole, START_TICKS_FIELD);
        (whole, f)
    }
}

/// When a process started, in whole seconds since the Unix epoch: boot time
/// (`now_ns - uptime_ns`) plus the process's start ticks converted to nanoseconds
/// (rounded down), truncated to whole seconds. A moment before the epoch gives 0
/// and one past `u64::MAX` seconds gives `u64::MAX`.
pub open spec fn start_seconds(uptime_ns: nat, ticks: nat, tick_rate: nat, now_ns: nat) -> nat
    recommends
        tick_rate > 0,
{
    let since_boot_ns = ticks * 1_000_000_000 / tick_rate;
    let total: int = now_ns + since_boot_ns - uptime_ns;
    if total <= 0 {
        0
    } else if total / 1_000_000_000 > u64::MAX {
        u64::MAX as nat
    } else {
        (total / 1_000_000_000) as nat
    }
}

/// The start time read from the text of the uptime record and of a process's
/// scheduling record, with the wall clock's reading in nanoseconds since the epoch
/// (`None` where it could not be read).
pub open spec fn start_time_of(uptime: Seq<char>, stat: Seq<char>, tick_rate: nat, now: Option<u128>) -> Result<nat, PsError> {
    match field(uptime, 0) {
        None => Err(PsError::FailedToGetUptimeFromStat),
        Some(u) => match decimal_nanos(u) {
            None => Err(PsError::FailedToParseAsFloat),
            Some(uptime_ns) => match start_ticks_field(stat) {
                None => Err(PsError::FailedToGetStartTicksFromStat),
                Some(t) => match natural_of(t, u64::MAX as nat) {
                    None => Err(PsError::FailedToParseAsFloat),
                    Some(ticks) => match now {
                        None => Err(PsError::FailedToGetSystemTime),
                        Some(now_ns) => Ok(start_seconds(uptime_ns, ticks, tick_rate, now_ns as nat)),
                    },
                },
            },
        },
    }
}

/// The start time in seconds since the epoch, from the host's uptime in nanoseconds,
/// the process's start in clock ticks since boot, the tick rate and the time now in
/// nanoseconds since the epoch.
pub fn compute_start_time(uptime_ns: u128, ticks: u64, tick_rate: u64, now_ns: u128) -> (r: u64)
    requires
        tick_rate > 0,
    ensures
        r == start_seconds(uptime_ns as nat, ticks as nat, tick_rate as nat, now_ns as nat),
{
    let since_boot_ns: u128 = ticks as u128 * NANOS_PER_SEC / tick_rate as u128;
    let total: u128;
    if now_ns >= uptime_ns {
        let boot_ns = now_ns - uptime_ns;
        if boot_ns > u128::MAX - since_boot_ns {
            return u64::MAX;
        }
        total = boot_ns + since_boot_ns;
    } else {
        let deficit = uptime_ns - now_ns;
        if since_boot_ns <= deficit {
            return 0;
        }
        total = since_boot_ns - deficit;
    }
    let secs = total / NANOS_PER_SEC;
    if secs > u64::MAX as u128 {
        u64::MAX
    } else {
        secs as u64
    }
}

/// The start time from the text of the uptime record and the process's scheduling
/// record: the uptime is the first field, the start ticks the twentieth after the
/// command name (the twenty-second in all where the name holds no space).
pub fn get_start_time(uptime: &str, stat: &str, tick_rate: u64, now_ns: Option<u128>) -> (r: Result<u64, PsError>)
    requires
        tick_rate > 0,
    ensures
        r matches Ok(v) ==> start_time_of(uptime@, stat@, tick_rate as nat, now_ns) == Ok::<nat, PsError>(v as nat),
        r matches Err(e) ==> start_time_of(uptime@, stat@, tick_rate as nat, now_ns) == Err::<nat, PsError>(e),
{
    let up = chars_of(uptime);
    let uptime_ns = match find_field(&up, 0) {
        None => {
            return Err(PsError::FailedToGetUptimeFromStat);
        },
        Some((a, b)) => match parse_decimal_nanos(&up, a, b) {
            None => {
                return Err(PsError::FailedToParseAsFloat);
            },
            Some(v) => v,
        },
    };
    let st = chars_of(stat);
    let (fields, found) = find_start_ticks(&st);
    let ticks = match found {
        None => {
            return Err(PsError::FailedToGetStartTicksFromStat);
        },
        Some((a, b)) => match parse_natural(&fields, a, b, u64::MAX) {
            None => {
                return Err(PsError::FailedToParseAsFloat);
            },
            Some(v) => v,
        },
    };
    match now_ns {
        None => Err(PsError::FailedToGetSystemTime),
        Some(now) => Ok(compute_start_time(uptime_ns, ticks, tick_rate, now)),
    }
}

/// For a fixed uptime, tick rate and time now, a process that started later after
/// boot (more ticks) never gets an earlier start time; and the start time is a
/// function of these four values alone.
pub proof fn lemma_start_time_monotonic_in_ticks(
    uptime_ns: nat,
    ticks1: nat,
    ticks2: nat,
    tick_rate: nat,
    now_ns: nat,
)
    requires
        tick_rate > 0,
        ticks1 <= ticks2,
    ensures
        start_seconds(uptime_ns, ticks1, tick_rate, now_ns) <= start_seconds(
            uptime_ns,
            ticks2,
            tick_rate,
            now_ns,
        ),
{
    assert(ticks1 * 1_000_000_000 <= ticks2 * 1_000_000_000) by (nonlinear_arith)
        requires
            ticks1 <= ticks2,
    ;
    vstd::arithmetic::div_mod::lemma_div_is_ordered(
        (ticks1 * 1_000_000_000) as int,
        (ticks2 * 1_000_000_000) as int,
        tick_rate as int,
    );
    let t1: int = now_ns + ticks1 * 1_000_000_000 / tick_rate - uptime_ns;
    let t2: int = now_ns + ticks2 * 1_000_000_000 / tick_rate - uptime_ns;
    if t1 > 0 {
        vstd::arithmetic::div_mod::lemma_div_is_ordered(t1, t2, 1_000_000_000);
    }
}

} // verus!
