use ps::{
    clock_tick_rate, compute_start_time, find_state, get_process, get_processes,
    get_start_time, process_id, resolve_owner, ListedEntry, Owner, ProcessSources, PsError,
};

fn no_sources() -> ProcessSources {
    ProcessSources {
        cmdline: None,
        binary_path: None,
        owner: None,
        uptime: None,
        stat: None,
        now_ns: None,
        status: None,
    }
}

fn stat_with_ticks(ticks: &str) -> String {
    let mut fields: Vec<String> = vec!["42".to_string(), "(bash)".to_string(), "S".to_string()];
    for i in 4..22 {
        fields.push(format!("{}", i));
    }
    fields.push(ticks.to_string());
    fields.push("9999".to_string());
    fields.join(" ")
}

fn entry(is_dir: bool, name: &str) -> ListedEntry {
    ListedEntry { is_dir, name: name.to_string() }
}

const BOOT_SECS: u128 = 1_700_000_000;

#[test]
fn state_found_in_status() {
    let status = "Name:\tbash\nUmask:\t0022\nState:\tS (sleeping)\nTgid:\t42\n";
    assert_eq!(find_state(status), Some("S (sleeping)".to_string()));
}

#[test]
fn state_absent_without_state_line() {
    assert_eq!(find_state("Name:\tbash\nPid:\t42\n"), None);
    assert_eq!(find_state(""), None);
}

#[test]
fn state_first_line_only_and_crlf() {
    assert_eq!(find_state("State:\tR (running)\r\nState:\tS (sleeping)\n"), Some("R (running)".to_string()));
    assert_eq!(find_state("State:\tZ (zombie)"), Some("Z (zombie)".to_string()));
}

#[test]
fn state_marker_must_begin_a_line() {
    assert_eq!(find_state("XState:\tS (sleeping)\n"), None);
    assert_eq!(find_state("Name:\tx State:\tR\nState:\tD (disk sleep)\n"), Some("D (disk sleep)".to_string()));
}

#[test]
fn state_line_without_tab_is_absent() {
    assert_eq!(find_state("State: S (sleeping)\nState:\tR (running)\n"), None);
}

#[test]
fn start_time_scenario() {
    let now_ns = (BOOT_SECS * 1_000_000_000) + 48_267_420_000_000;
    let r = get_start_time("48267.42 190000.13\n", &stat_with_ticks("12345"), 100, Some(now_ns));
    assert_eq!(r, Ok(1_700_000_123));
}

#[test]
fn start_time_truncates_to_whole_seconds() {
    // boot at 10.5 s, process at 2.75 s after boot: 13.25 s
    assert_eq!(compute_start_time(89_500_000_000, 275, 100, 100_000_000_000), 13);
    // exactly on a second
    assert_eq!(compute_start_time(0, 300, 100, 7_000_000_000), 10);
}

#[test]
fn start_time_before_epoch_is_zero() {
    assert_eq!(compute_start_time(50_000_000_000, 100, 100, 10_000_000_000), 0);
}

#[test]
fn start_time_saturates_at_largest() {
    assert_eq!(compute_start_time(0, u64::MAX, 1, u128::MAX), u64::MAX);
}

#[test]
fn start_time_monotonic_in_ticks() {
    let now = BOOT_SECS * 1_000_000_000;
    let mut last = 0;
    for ticks in [0u64, 1, 99, 100, 101, 12345, 1_000_000] {
        let t = compute_start_time(3_000_000_000_000, ticks, 100, now);
        assert!(t >= last);
        last = t;
    }
}

#[test]
fn start_time_deterministic() {
    let a = compute_start_time(48_267_420_000_000, 12345, 100, 1_000_000_000_000_000_000);
    let b = compute_start_time(48_267_420_000_000, 12345, 100, 1_000_000_000_000_000_000);
    assert_eq!(a, b);
}

#[test]
fn uptime_forms_accepted() {
    let stat = stat_with_ticks("0");
    assert_eq!(get_start_time("100", &stat, 100, Some(1_000_000_000_000)), Ok(900));
    assert_eq!(get_start_time("  100.\n", &stat, 100, Some(1_000_000_000_000)), Ok(900));
    assert_eq!(get_start_time(".5 1", &stat, 100, Some(1_000_000_000)), Ok(0));
    assert_eq!(get_start_time("0.1234567899", &stat, 100, Some(2_000_000_000)), Ok(1));
}

#[test]
fn uptime_missing_field() {
    let stat = stat_with_ticks("1");
    assert_eq!(get_start_time("", &stat, 100, Some(0)), Err(PsError::FailedToGetUptimeFromStat));
    assert_eq!(get_start_time(" \n\t", &stat, 100, Some(0)), Err(PsError::FailedToGetUptimeFromStat));
}

#[test]
fn uptime_not_a_number() {
    let stat = stat_with_ticks("1");
    assert_eq!(get_start_time("abc 1", &stat, 100, Some(0)), Err(PsError::FailedToParseAsFloat));
    assert_eq!(get_start_time("1.2.3", &stat, 100, Some(0)), Err(PsError::FailedToParseAsFloat));
    assert_eq!(get_start_time(". 1", &stat, 100, Some(0)), Err(PsError::FailedToParseAsFloat));
    assert_eq!(get_start_time("-5", &stat, 100, Some(0)), Err(PsError::FailedToParseAsFloat));
}

#[test]
fn stat_missing_ticks_field() {
    assert_eq!(
        get_start_time("10.0", "42 (bash) S 1 2 3", 100, Some(0)),
        Err(PsError::FailedToGetStartTicksFromStat)
    );
}

#[test]
fn stat_ticks_not_a_number() {
    let stat = stat_with_ticks("12x");
    assert_eq!(get_start_time("10.0", &stat, 100, Some(0)), Err(PsError::FailedToParseAsFloat));
}

#[test]
fn wall_clock_unavailable() {
    let stat = stat_with_ticks("1");
    assert_eq!(get_start_time("10.0", &stat, 100, None), Err(PsError::FailedToGetSystemTime));
}

#[test]
fn owner_without_passwd_entry_is_numeric() {
    assert_eq!(resolve_owner(1234, None), "1234");
    assert_eq!(resolve_owner(0, None), "0");
}

#[test]
fn owner_with_passwd_entry() {
    assert_eq!(resolve_owner(1000, Some("alice".to_string())), "alice");
}

#[test]
fn record_with_nothing_read_has_pid_only() {
    let (p, problem) = get_process(77, no_sources(), 100);
    assert_eq!(p.pid, 77);
    assert!(p.cmdline.is_none());
    assert!(p.binary_path.is_none());
    assert!(p.owner.is_none());
    assert!(p.start_time.is_none());
    assert!(p.state.is_none());
    assert!(problem.is_none());
}

#[test]
fn record_fields_are_independent() {
    let mut s = no_sources();
    s.status = Some("State:\tS (sleeping)\n".to_string());
    let (p, _) = get_process(5, s, 100);
    assert_eq!(p.state.as_deref(), Some("S (sleeping)"));
    assert!(p.cmdline.is_none() && p.owner.is_none() && p.start_time.is_none());

    let mut s = no_sources();
    s.cmdline = Some("bash\0-l\0".to_string());
    s.binary_path = Some("/usr/bin/bash".to_string());
    s.owner = Some(Owner { uid: 1234, name: None });
    let (p, _) = get_process(6, s, 100);
    assert_eq!(p.cmdline.as_deref(), Some("bash\0-l\0"));
    assert_eq!(p.binary_path.as_deref(), Some("/usr/bin/bash"));
    assert_eq!(p.owner.as_deref(), Some("1234"));
    assert!(p.state.is_none() && p.start_time.is_none());
}

#[test]
fn record_start_time_problem_is_reported() {
    let mut s = no_sources();
    s.uptime = Some("abc".to_string());
    s.stat = Some(stat_with_ticks("1"));
    s.now_ns = Some(0);
    let (p, problem) = get_process(8, s, 100);
    assert!(p.start_time.is_none());
    assert_eq!(problem, Some(PsError::FailedToParseAsFloat));
}

#[test]
fn record_full() {
    let s = ProcessSources {
        cmdline: Some("sleep\x0010\x00".to_string()),
        binary_path: Some("/bin/sleep".to_string()),
        owner: Some(Owner { uid: 1000, name: Some("alice".to_string()) }),
        uptime: Some("48267.42 1.00\n".to_string()),
        stat: Some(stat_with_ticks("12345")),
        now_ns: Some(BOOT_SECS * 1_000_000_000 + 48_267_420_000_000),
        status: Some("State:\tS (sleeping)\n".to_string()),
    };
    let (p, problem) = get_process(42, s, 100);
    assert_eq!(p.pid, 42);
    assert_eq!(p.owner.as_deref(), Some("alice"));
    assert_eq!(p.start_time, Some(1_700_000_123));
    assert_eq!(p.state.as_deref(), Some("S (sleeping)"));
    assert!(problem.is_none());
}

#[test]
fn pid_from_entry() {
    assert_eq!(process_id(true, "123"), Some(123));
    assert_eq!(process_id(true, "4294967295"), Some(u32::MAX));
    assert_eq!(process_id(true, "4294967296"), None);
    assert_eq!(process_id(true, "self"), None);
    assert_eq!(process_id(true, ""), None);
    assert_eq!(process_id(true, "12a"), None);
    assert_eq!(process_id(false, "123"), None);
}

#[test]
fn tick_rate_query() {
    assert_eq!(clock_tick_rate(100, 0), Ok(100));
    assert_eq!(clock_tick_rate(-1, 22), Err(PsError::FailedToGetSysClockTickRate(22)));
    assert_eq!(clock_tick_rate(0, 5), Err(PsError::FailedToGetSysClockTickRate(5)));
}

#[test]
fn tick_rate_unavailable_is_fatal() {
    let listing = Ok(vec![entry(true, "1"), entry(true, "2")]);
    let r = get_processes(-1, 22, listing, |_pid: u32| -> Option<ProcessSources> { panic!("no reads expected") }, |_p: u32, _e: PsError| {});
    assert_eq!(r.err(), Some(PsError::FailedToGetSysClockTickRate(22)));
}

#[test]
fn listing_failure_is_fatal() {
    let r = get_processes(100, 0, Err(PsError::FailedToReadFile(Some(2))), |_pid: u32| Some(no_sources()), |_p: u32, _e: PsError| {});
    assert_eq!(r.err(), Some(PsError::FailedToReadFile(Some(2))));
}

#[test]
fn vanished_process_is_omitted() {
    let listing = Ok(vec![
        entry(true, "1"),
        entry(false, "uptime"),
        entry(true, "self"),
        entry(true, "7"),
        entry(true, "9"),
    ]);
    let r = get_processes(100, 0, listing, |pid: u32| if pid == 7 { None } else { Some(no_sources()) }, |_p: u32, _e: PsError| {});
    let procs = r.unwrap();
    let pids: Vec<u32> = procs.iter().map(|p| p.pid).collect();
    assert_eq!(pids, vec![1, 9]);
    assert!(procs.len() <= 5);
}

#[test]
fn empty_listing_is_empty_snapshot() {
    let r = get_processes(100, 0, Ok(vec![]), |_pid: u32| Some(no_sources()), |_p: u32, _e: PsError| {});
    assert_eq!(r.unwrap().len(), 0);
}

#[test]
fn start_time_problems_reach_report() {
    let seen = std::cell::RefCell::new(Vec::new());
    let listing = Ok(vec![entry(true, "3")]);
    let r = get_processes(
        100,
        0,
        listing,
        |_pid: u32| {
            let mut s = no_sources();
            s.uptime = Some("".to_string());
            s.stat = Some("".to_string());
            Some(s)
        },
        |p: u32, e: PsError| seen.borrow_mut().push((p, e)),
    );
    assert_eq!(r.unwrap().len(), 1);
    assert_eq!(seen.into_inner(), vec![(3, PsError::FailedToGetUptimeFromStat)]);
}

#[test]
fn stat_command_name_with_spaces() {
    let stat = stat_with_ticks("12345").replacen("(bash)", "(my prog) (x)", 1);
    let now_ns = (BOOT_SECS * 1_000_000_000) + 48_267_420_000_000;
    assert_eq!(get_start_time("48267.42", &stat, 100, Some(now_ns)), Ok(1_700_000_123));
}

#[test]
fn stat_without_command_name_uses_twenty_second_field() {
    let mut fields: Vec<String> = (1..=21).map(|i| i.to_string()).collect();
    fields.push("500".to_string());
    let stat = fields.join(" ");
    assert_eq!(get_start_time("0", &stat, 100, Some(10_000_000_000)), Ok(15));
}
