//! Task-tracking core of a terminal client for long-running generation
//! requests: a task registry with monotonic status transitions, a
//! dual-flag cooperative-cancellation protocol, progress estimation,
//! one-shot result hand-off, and the pure text machinery of the client.
//!
//! The host process supplies what this crate deliberately leaves out:
//! the clock (every time-dependent operation takes a millisecond
//! reading), the terminal, the network, and the event loop that races a
//! unit of work against the cancellation poller.

pub mod ai;
pub mod app;
pub mod config;
pub mod handlers;
pub mod mode;
pub mod util;
pub mod utils;
pub mod worker;

pub use utils::logging::Logger;

use vstd::prelude::*;

verus! {

/// Initialize the application state owned by this crate: the log,
/// enabled or not as the configuration says.
pub fn init(logging_enabled: bool) -> (r: utils::logging::Logger)
    ensures
        r.enabled == logging_enabled,
        r.lines@ == Seq::<String>::empty(),
{
    utils::logging::init_logging(logging_enabled)
}

/// Clean up application resources: close the log, stamping the stop
/// message for the host to flush.
pub fn cleanup(logger: &mut utils::logging::Logger, timestamp: &str)
    ensures
        final(logger).enabled == false,
        !old(logger).enabled ==> final(logger).lines@ == old(logger).lines@,
        old(logger).enabled ==> final(logger).lines@.len() == old(logger).lines@.len() + 1
            && final(logger).lines@.take(old(logger).lines@.len() as int) == old(logger).lines@
            && final(logger).lines@.last()@ == utils::logging::spec_log_line(
            timestamp@,
            "INFO"@,
            "Logging stopped at "@ + timestamp@,
        ),
{
    utils::logging::close_logging(logger, timestamp);
}

} // verus!
