use vstd::prelude::*;

verus! {

/// What can go wrong while reading the process table.
#[derive(Debug, Clone, Copy, PartialEq, Eq, Structural)]
pub enum PsError {
    /// The process table could not be listed; holds the OS error code when there is one.
    FailedToReadFile(Option<i32>),
    /// The uptime record has no first field.
    FailedToGetUptimeFromStat,
    /// The scheduling record has no start-time field.
    FailedToGetStartTicksFromStat,
    /// A field that should hold a number does not.
    FailedToParseAsFloat,
    /// The wall clock could not be read.
    FailedToGetSystemTime,
    /// The clock tick rate query failed; holds the OS error code.
    FailedToGetSysClockTickRate(i32),
}

} // verus!
