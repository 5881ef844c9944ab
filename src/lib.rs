//! A snapshot of the running processes, read from the kernel's process table:
//! for each process its identifier, command line, executable, owner, start time
//! and scheduler state, each field known or not on its own.

pub mod error;
pub mod number;
pub mod process;
pub mod snapshot;
pub mod start_time;
pub mod status;
pub mod text;

pub use error::PsError;
pub use process::{get_process, resolve_owner, Owner, Process, ProcessSources};
pub use snapshot::{clock_tick_rate, get_processes, process_id, ListedEntry};
pub use start_time::{compute_start_time, get_start_time};
pub use status::find_state;
