use vstd::prelude::*;
use vstd::string::StringExecFns;

use crate::ops::Operation;

verus! {

/// The severity of one log record, most severe first.
#[derive(Clone, Copy, PartialEq, Eq, Structural, Debug)]
pub enum LogLevel {
    Error,
    Warn,
    Info,
    Debug,
    Trace,
}

/// The name of the log file each operation writes, placed by the host in its
/// temporary directory.
pub open spec fn log_file_name_spec(op: &Operation) -> Seq<char> {
    match op {
        Operation::Initialize => "BLACKHOLE.log"@,
        Operation::Purge => "BLACKHOLE_PURGE.log"@,
        Operation::SendTo(_) => "BLACKHOLE_SENDTO.log"@,
    }
}

/// Chooses the log file name for an operation; the host creates the file in
/// its temporary directory and installs the logger around it.
pub fn init(op: &Operation) -> (r: String)
    ensures
        r@ == log_file_name_spec(op),
{
    match op {
        Operation::Initialize => "BLACKHOLE.log".to_owned(),
        Operation::Purge => "BLACKHOLE_PURGE.log".to_owned(),
        Operation::SendTo(_) => "BLACKHOLE_SENDTO.log".to_owned(),
    }
}

/// Whether records of this severity are recorded at all: everything up to and
/// including informational records, nothing finer.
pub fn enabled(level: LogLevel) -> (r: bool)
    ensures
        r <==> (level is Error || level is Warn || level is Info),
{
    match level {
        LogLevel::Error | LogLevel::Warn | LogLevel::Info => true,
        _ => false,
    }
}

/// The upper-case tag a record carries for its severity.
pub open spec fn level_tag_spec(level: LogLevel) -> Seq<char> {
    match level {
        LogLevel::Error => "ERROR"@,
        LogLevel::Warn => "WARN"@,
        LogLevel::Info => "INFO"@,
        LogLevel::Debug => "DEBUG"@,
        LogLevel::Trace => "TRACE"@,
    }
}

/// The severity tag of one log record.
pub fn level_tag(level: LogLevel) -> (r: &'static str)
    ensures
        r@ == level_tag_spec(level),
{
    match level {
        LogLevel::Error => "ERROR",
        LogLevel::Warn => "WARN",
        LogLevel::Info => "INFO",
        LogLevel::Debug => "DEBUG",
        LogLevel::Trace => "TRACE",
    }
}

/// Whether `line` is the rendering of one log record: some timestamp in
/// brackets, the severity tag in brackets, then the message.
pub open spec fn is_log_line(
    line: Seq<char>,
    now: Seq<char>,
    level: LogLevel,
    message: Seq<char>,
) -> bool {
    line == seq!['['] + now + "] ["@ + level_tag_spec(level) + "]: "@ + message
}

/// One rendered log line: the timestamp in brackets, the severity tag in
/// brackets, then the message.
pub fn format_log_line(now: &String, level: LogLevel, message: &String) -> (r: String)
    ensures
        r@ == seq!['['] + now@ + "] ["@ + level_tag_spec(level) + "]: "@ + message@,
{
    let mut r = "[".to_owned();
    r.append(now.as_str());
    r.append("] [");
    r.append(level_tag(level));
    r.append("]: ");
    r.append(message.as_str());
    proof {
        reveal_strlit("[");
        assert(r@ =~= seq!['['] + now@ + "] ["@ + level_tag_spec(level) + "]: "@ + message@);
    }
    r
}

/// One fully rendered log record, stamped with the current local time.
pub fn log_line(level: LogLevel, message: &String) -> (r: String)
    ensures
        exists|now: Seq<char>| #[trigger] is_log_line(r@, now, level, message@),
{
    let now = crate::host::local_now_string();
    let r = format_log_line(&now, level, message);
    proof {
        assert(is_log_line(r@, now@, level, message@));
    }
    r
}

} // verus!
