//! Logging: the in-memory log of formatted lines that the host flushes
//! to its log file. Each entry is stamped with the caller's clock
//! reading and a level tag.

use vstd::prelude::*;
use vstd::string::StringExecFns;

verus! {

/// The application log: formatted lines waiting to be flushed, and
/// whether logging is enabled at all. With logging disabled, nothing is
/// ever recorded.
#[derive(Debug)]
pub struct Logger {
    /// Whether log calls record anything.
    pub enabled: bool,
    /// The formatted lines not yet flushed by the host.
    pub lines: Vec<String>,
}

/// One formatted log line: the timestamp and level in brackets, then
/// the message, then a newline.
pub open spec fn spec_log_line(timestamp: Seq<char>, level: Seq<char>, message: Seq<char>) -> Seq<
    char,
> {
    "["@ + timestamp + "] ["@ + level + "] "@ + message + "\n"@
}

/// Create the log, enabled or not.
pub fn init_logging(enabled: bool) -> (r: Logger)
    ensures
        r.enabled == enabled,
        r.lines@ == Seq::<String>::empty(),
{
    Logger { enabled, lines: Vec::new() }
}

/// Record a log line with the given level tag; with logging disabled
/// this does nothing.
pub fn log_message(logger: &mut Logger, level: &str, timestamp: &str, message: &str)
    ensures
        final(logger).enabled == old(logger).enabled,
        !old(logger).enabled ==> final(logger).lines@ == old(logger).lines@,
        old(logger).enabled ==> final(logger).lines@.len() == old(logger).lines@.len() + 1
            && final(logger).lines@.take(old(logger).lines@.len() as int) == old(logger).lines@
            && final(logger).lines@.last()@ == spec_log_line(timestamp@, level@, message@),
{
    if !logger.enabled {
        return ;
    }
    let mut line = String::from_str("[");
    line.append(timestamp);
    line.append("] [");
    line.append(level);
    line.append("] ");
    line.append(message);
    line.append("\n");
    let ghost before = logger.lines@;
    logger.lines.push(line);
    proof {
        assert(logger.lines@.take(before.len() as int) =~= before);
    }
}

/// Log an informational message.
pub fn log_info(logger: &mut Logger, timestamp: &str, message: &str)
    ensures
        final(logger).enabled == old(logger).enabled,
        !old(logger).enabled ==> final(logger).lines@ == old(logger).lines@,
        old(logger).enabled ==> final(logger).lines@.len() == old(logger).lines@.len() + 1
            && final(logger).lines@.take(old(logger).lines@.len() as int) == old(logger).lines@
            && final(logger).lines@.last()@ == spec_log_line(timestamp@, "INFO"@, message@),
{
    log_message(logger, "INFO", timestamp, message)
}

/// Log a warning message.
pub fn log_warning(logger: &mut Logger, timestamp: &str, message: &str)
    ensures
        final(logger).enabled == old(logger).enabled,
        !old(logger).enabled ==> final(logger).lines@ == old(logger).lines@,
        old(logger).enabled ==> final(logger).lines@.len() == old(logger).lines@.len() + 1
            && final(logger).lines@.take(old(logger).lines@.len() as int) == old(logger).lines@
            && final(logger).lines@.last()@ == spec_log_line(timestamp@, "WARN"@, message@),
{
    log_message(logger, "WARN", timestamp, message)
}

/// Log an error message.
pub fn log_error(logger: &mut Logger, timestamp: &str, message: &str)
    ensures
        final(logger).enabled == old(logger).enabled,
        !old(logger).enabled ==> final(logger).lines@ == old(logger).lines@,
        old(logger).enabled ==> final(logger).lines@.len() == old(logger).lines@.len() + 1
            && final(logger).lines@.take(old(logger).lines@.len() as int) == old(logger).lines@
            && final(logger).lines@.last()@ == spec_log_line(timestamp@, "ERROR"@, message@),
{
    log_message(logger, "ERROR", timestamp, message)
}

/// Log a debug message.
pub fn log_debug(logger: &mut Logger, timestamp: &str, message: &str)
    ensures
        final(logger).enabled == old(logger).enabled,
        !old(logger).enabled ==> final(logger).lines@ == old(logger).lines@,
        old(logger).enabled ==> final(logger).lines@.len() == old(logger).lines@.len() + 1
            && final(logger).lines@.take(old(logger).lines@.len() as int) == old(logger).lines@
            && final(logger).lines@.last()@ == spec_log_line(timestamp@, "DEBUG"@, message@),
{
    log_message(logger, "DEBUG", timestamp, message)
}

/// Close the log: record the stop message (when enabled) and disable
/// further logging. The host flushes whatever lines remain.
pub fn close_logging(logger: &mut Logger, timestamp: &str)
    ensures
        final(logger).enabled == false,
        !old(logger).enabled ==> final(logger).lines@ == old(logger).lines@,
        old(logger).enabled ==> final(logger).lines@.len() == old(logger).lines@.len() + 1
            && final(logger).lines@.take(old(logger).lines@.len() as int) == old(logger).lines@
            && final(logger).lines@.last()@ == spec_log_line(
            timestamp@,
            "INFO"@,
            "Logging stopped at "@ + timestamp@,
        ),
{
    let mut message = String::from_str("Logging stopped at ");
    message.append(timestamp);
    log_info(logger, timestamp, message.as_str());
    logger.enabled = false;
}

} // verus!
