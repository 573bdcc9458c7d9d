//! Log levels, error codes and the rules of the debug level.
//!
//! The level in force is state of the running program; the functions here
//! take it and give it back as a plain value.

use vstd::prelude::*;

verus! {

pub const LOG_LEVEL_REQUEST: u32 = 0x0001;
pub const LOG_LEVEL_CONNECT: u32 = 0x0002;
pub const LOG_LEVEL_TAGGING: u32 = 0x0004;
pub const LOG_LEVEL_HEADER: u32 = 0x0008;
pub const LOG_LEVEL_WRITING: u32 = 0x0010;
pub const LOG_LEVEL_FORCE: u32 = 0x0020;
pub const LOG_LEVEL_RE_FILTER: u32 = 0x0040;
pub const LOG_LEVEL_REDIRECTS: u32 = 0x0080;
pub const LOG_LEVEL_DEANIMATE: u32 = 0x0100;
pub const LOG_LEVEL_CLF: u32 = 0x0200;
pub const LOG_LEVEL_CRUNCH: u32 = 0x0400;
pub const LOG_LEVEL_CGI: u32 = 0x0800;
pub const LOG_LEVEL_RECEIVED: u32 = 0x8000;
pub const LOG_LEVEL_ACTIONS: u32 = 0x10000;
pub const LOG_LEVEL_STFU: u32 = 0x20000;

/// Levels that are always on.
pub const LOG_LEVEL_INFO: u32 = 0x1000;
pub const LOG_LEVEL_ERROR: u32 = 0x2000;
pub const LOG_LEVEL_FATAL: u32 = 0x4000;

/// Fatal errors cannot be turned off.
pub const LOG_LEVEL_MINIMUM: u32 = 0x4000;

/// The debug level a program starts with.
pub const DEFAULT_DEBUG_LEVEL: u32 = 0x6000;

/// Error codes of the parsing and editing interfaces.
#[derive(Debug, Clone, Copy, PartialEq, Eq, Structural)]
pub enum JbErr {
    NoError,
    Memory,
    CgiParams,
    File,
    Parse,
    Modified,
    Compress,
}

pub open spec fn jb_err_text(e: JbErr) -> Seq<char> {
    match e {
        JbErr::NoError => "Success, no error"@,
        JbErr::Memory => "Out of memory"@,
        JbErr::CgiParams => "Missing or corrupt CGI parameters"@,
        JbErr::File => "Error opening, reading or writing a file"@,
        JbErr::Parse => "Parse error"@,
        JbErr::Modified => "File has been modified outside of the CGI actions editor."@,
        JbErr::Compress => "(De)compression failure"@,
    }
}

impl JbErr {
    /// The description of the error code.
    pub fn to_string(self) -> (r: &'static str)
        ensures
            r@ == jb_err_text(self),
    {
        match self {
            JbErr::NoError => "Success, no error",
            JbErr::Memory => "Out of memory",
            JbErr::CgiParams => "Missing or corrupt CGI parameters",
            JbErr::File => "Error opening, reading or writing a file",
            JbErr::Parse => "Parse error",
            JbErr::Modified => "File has been modified outside of the CGI actions editor.",
            JbErr::Compress => "(De)compression failure",
        }
    }
}

/// The name under which a single log level is shown.
pub open spec fn log_level_text(level: u32) -> Seq<char> {
    if level == LOG_LEVEL_ERROR {
        "Error"@
    } else if level == LOG_LEVEL_FATAL {
        "Fatal error"@
    } else if level == LOG_LEVEL_REQUEST {
        "Request"@
    } else if level == LOG_LEVEL_CONNECT {
        "Connect"@
    } else if level == LOG_LEVEL_TAGGING {
        "Tagging"@
    } else if level == LOG_LEVEL_WRITING {
        "Writing"@
    } else if level == LOG_LEVEL_FORCE {
        "Force"@
    } else if level == LOG_LEVEL_RE_FILTER {
        "Re-Filter"@
    } else if level == LOG_LEVEL_REDIRECTS {
        "Redirect"@
    } else if level == LOG_LEVEL_DEANIMATE {
        "Gif-Deanimate"@
    } else if level == LOG_LEVEL_CLF {
        "CLF"@
    } else if level == LOG_LEVEL_CRUNCH {
        "Crunch"@
    } else if level == LOG_LEVEL_CGI {
        "CGI"@
    } else if level == LOG_LEVEL_RECEIVED {
        "Received"@
    } else if level == LOG_LEVEL_HEADER {
        "Header"@
    } else if level == LOG_LEVEL_INFO {
        "Info"@
    } else if level == LOG_LEVEL_ACTIONS {
        "Actions"@
    } else {
        "Unknown log level"@
    }
}

/// The name of a single log level.
pub fn get_log_level_string(loglevel: u32) -> (r: &'static str)
    ensures
        r@ == log_level_text(loglevel),
{
    if loglevel == LOG_LEVEL_ERROR {
        "Error"
    } else if loglevel == LOG_LEVEL_FATAL {
        "Fatal error"
    } else if loglevel == LOG_LEVEL_REQUEST {
        "Request"
    } else if loglevel == LOG_LEVEL_CONNECT {
        "Connect"
    } else if loglevel == LOG_LEVEL_TAGGING {
        "Tagging"
    } else if loglevel == LOG_LEVEL_WRITING {
        "Writing"
    } else if loglevel == LOG_LEVEL_FORCE {
        "Force"
    } else if loglevel == LOG_LEVEL_RE_FILTER {
        "Re-Filter"
    } else if loglevel == LOG_LEVEL_REDIRECTS {
        "Redirect"
    } else if loglevel == LOG_LEVEL_DEANIMATE {
        "Gif-Deanimate"
    } else if loglevel == LOG_LEVEL_CLF {
        "CLF"
    } else if loglevel == LOG_LEVEL_CRUNCH {
        "Crunch"
    } else if loglevel == LOG_LEVEL_CGI {
        "CGI"
    } else if loglevel == LOG_LEVEL_RECEIVED {
        "Received"
    } else if loglevel == LOG_LEVEL_HEADER {
        "Header"
    } else if loglevel == LOG_LEVEL_INFO {
        "Info"
    } else if loglevel == LOG_LEVEL_ACTIONS {
        "Actions"
    } else {
        "Unknown log level"
    }
}

/// Whether messages of `loglevel` are shown under the debug level `current`.
pub fn is_log_level_enabled(loglevel: u32, current: u32) -> (r: bool)
    ensures
        r == (loglevel & current != 0),
{
    (loglevel & current) != 0
}

/// The debug level stored when `level` is asked for: fatal errors stay on.
pub fn set_debug_level(level: u32) -> (r: u32)
    ensures
        r == level | LOG_LEVEL_MINIMUM,
{
    level | LOG_LEVEL_MINIMUM
}

/// The debug level after the logging module starts: errors and fatal errors.
pub fn init_log_module() -> (r: u32)
    ensures
        r == (LOG_LEVEL_FATAL | LOG_LEVEL_ERROR) | LOG_LEVEL_MINIMUM,
{
    set_debug_level(LOG_LEVEL_FATAL | LOG_LEVEL_ERROR)
}

/// The debug level after logging is switched off: only fatal errors.
pub fn disable_logging() -> (r: u32)
    ensures
        r == LOG_LEVEL_MINIMUM,
{
    assert(0u32 | 0x4000u32 == 0x4000u32) by (bit_vector);
    set_debug_level(0)
}

/// The lines that announce the version and the program's name.
pub open spec fn version_lines(prog_name: Seq<char>) -> Seq<Seq<char>> {
    if prog_name.len() > 0 {
        seq!["Privoxy version "@ + crate::constants::VERSION@, "Program name: "@ + prog_name]
    } else {
        seq!["Privoxy version "@ + crate::constants::VERSION@]
    }
}

/// The informational lines announcing the version and, where it is given,
/// the program's name.
pub fn show_version(prog_name: &str) -> (r: Vec<String>)
    ensures
        crate::text::str_views(r@) == version_lines(prog_name@),
{
    let mut first = String::new();
    crate::text::push_str(&mut first, "Privoxy version ");
    crate::text::push_str(&mut first, crate::constants::VERSION);
    let mut r: Vec<String> = Vec::new();
    r.push(first);
    let pv = crate::text::chars_of(prog_name);
    if pv.len() > 0 {
        let mut second = String::new();
        crate::text::push_str(&mut second, "Program name: ");
        crate::text::push_str(&mut second, prog_name);
        r.push(second);
    }
    assert(crate::text::str_views(r@) =~= version_lines(prog_name@));
    r
}

/// Asking for a debug level never turns fatal errors off, and keeps every
/// level that was asked for.
pub proof fn law_fatal_errors_always_logged(level: u32)
    ensures
        (level | LOG_LEVEL_MINIMUM) & LOG_LEVEL_FATAL != 0,
        (level | LOG_LEVEL_MINIMUM) & level == level,
{
    assert((level | 0x4000u32) & 0x4000u32 != 0) by (bit_vector);
    assert((level | 0x4000u32) & level == level) by (bit_vector);
}


// ---------------------------------------------------------------------------
// Log lines

/// The lower-case hex digit for `d` (below 16).
pub open spec fn lower_hex_digit(d: nat) -> char {
    if d < 10 {
        ((48 + d) as u32) as char
    } else {
        ((87 + d) as u32) as char
    }
}

/// `n` in lower-case hex, without leading zeros.
pub open spec fn hex_digits(n: nat) -> Seq<char>
    decreases n,
{
    if n < 16 {
        seq![lower_hex_digit(n)]
    } else {
        hex_digits(n / 16).push(lower_hex_digit(n % 16))
    }
}

/// `s` with zeros in front up to `width` characters.
pub open spec fn zero_padded(s: Seq<char>, width: nat) -> Seq<char> {
    if s.len() < width {
        Seq::new((width - s.len()) as nat, |i: int| '0') + s
    } else {
        s
    }
}

fn push_hex(s: &mut String, n: u64)
    ensures
        final(s)@ == old(s)@ + hex_digits(n as nat),
    decreases n,
{
    if n >= 16 {
        push_hex(s, n / 16);
    }
    let d = (n % 16) as u8;
    let c = if d < 10 {
        (48u8 + d) as char
    } else {
        (87u8 + d) as char
    };
    s.push(c);
}

/// `n` in lower-case hex, at least eight digits wide.
fn hex_width8(n: u64) -> (r: String)
    ensures
        r@ == zero_padded(hex_digits(n as nat), 8),
{
    let mut h = String::new();
    push_hex(&mut h, n);
    let len = crate::text::chars_of(h.as_str()).len();
    let mut r = String::new();
    let mut i: usize = len;
    while i < 8
        invariant
            len == hex_digits(n as nat).len(),
            len <= i,
            i <= 8 || i == len,
            r@ == Seq::new((i - len) as nat, |j: int| '0'),
        decreases 8 - i,
    {
        r.push('0');
        assert(r@ =~= Seq::new((i + 1 - len) as nat, |j: int| '0'));
        i += 1;
    }
    crate::text::push_str(&mut r, h.as_str());
    assert(r@ =~= zero_padded(hex_digits(n as nat), 8));
    r
}

/// What becomes of a message under the debug level in force.
pub enum LogDecision {
    /// The line to write.
    Write(String),
    /// The level is not logged: nothing is written.
    Skip,
    /// A fatal error that the level does not log: the program stops.
    Abort,
}

/// The log line for `message` at `loglevel`: a common-log-format line is
/// its time stamp and the message; any other line has the time stamp, the
/// thread's number in hex (eight digits at least), the level's name and the
/// message.
pub open spec fn log_line(
    loglevel: u32,
    timestamp: Seq<char>,
    clf_timestamp: Seq<char>,
    thread_id: u64,
    message: Seq<char>,
) -> Seq<char> {
    if loglevel == LOG_LEVEL_CLF {
        clf_timestamp + " "@ + message
    } else {
        timestamp + " "@ + zero_padded(hex_digits(thread_id as nat), 8) + " "@ + log_level_text(loglevel) + ": "@
            + message
    }
}

/// Decides what is logged of `message` at `loglevel` while the levels in
/// `current` are on, given the time stamps and the thread's number.
pub fn log_error(
    loglevel: u32,
    current: u32,
    timestamp: &str,
    clf_timestamp: &str,
    thread_id: u64,
    message: &str,
) -> (r: LogDecision)
    ensures
        loglevel & current == 0 && loglevel == LOG_LEVEL_FATAL ==> r is Abort,
        loglevel & current == 0 && loglevel != LOG_LEVEL_FATAL ==> r is Skip,
        loglevel & current != 0 ==> (r matches LogDecision::Write(l) && l@ == log_line(
            loglevel,
            timestamp@,
            clf_timestamp@,
            thread_id,
            message@,
        )),
{
    if !is_log_level_enabled(loglevel, current) {
        if loglevel == LOG_LEVEL_FATAL {
            return LogDecision::Abort;
        }
        return LogDecision::Skip;
    }
    let mut line = crate::text::own(if loglevel == LOG_LEVEL_CLF { clf_timestamp } else { timestamp });
    crate::text::push_str(&mut line, " ");
    if loglevel != LOG_LEVEL_CLF {
        let h = hex_width8(thread_id);
        crate::text::push_str(&mut line, h.as_str());
        crate::text::push_str(&mut line, " ");
        crate::text::push_str(&mut line, get_log_level_string(loglevel));
        crate::text::push_str(&mut line, ": ");
    }
    crate::text::push_str(&mut line, message);
    LogDecision::Write(line)
}

} // verus!
