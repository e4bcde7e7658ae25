//! The text of the application's diagnostic logs: log lines, panic reports
//! and the description of a panic's payload.
use vstd::prelude::*;
use crate::text::{concat_str, decimal, push_char, push_decimal, push_str};

verus! {

/// Name of the application's directory for its data.
pub const APP_DIR_NAME: &'static str = "gvac";

/// Name of the directory of log files.
pub const LOGS_DIR_NAME: &'static str = "logs";

/// The general log file.
pub const APP_LOG_FILE: &'static str = "app.log";

/// The file panic reports go to.
pub const PANIC_LOG_FILE: &'static str = "panic.log";

/// The payload a panic carried.
pub enum PanicPayload {
    /// A string slice payload, as `panic!("literal")` gives.
    StaticStr(String),
    /// An owned string payload, as a formatted `panic!` gives.
    Owned(String),
    /// A payload of any other type.
    Other,
}

/// The text that describes a panic's payload.
pub open spec fn payload_text(p: PanicPayload) -> Seq<char> {
    match p {
        PanicPayload::StaticStr(s) => s@,
        PanicPayload::Owned(s) => s@,
        PanicPayload::Other => "non-string panic payload"@,
    }
}

/// The text that describes a panic's payload.
pub fn panic_payload_to_string(payload: &PanicPayload) -> (r: String)
    ensures
        r@ == payload_text(*payload),
{
    match payload {
        PanicPayload::StaticStr(s) => s.clone(),
        PanicPayload::Owned(s) => s.clone(),
        PanicPayload::Other => "non-string panic payload".to_owned(),
    }
}

/// A log line: the timestamp, a space and the message.
pub fn log_line(timestamp: &str, message: &str) -> (r: String)
    ensures
        r@ == timestamp@ + " "@ + message@,
{
    let head = concat_str(timestamp, " ");
    concat_str(head.as_str(), message)
}

/// The line logged when the application starts.
pub fn startup_line(timestamp: &str) -> (r: String)
    ensures
        r@ == "app starting at "@ + timestamp@,
{
    concat_str("app starting at ", timestamp)
}

/// What is appended to a log file for `line`: the line, ended by a newline
/// unless it already ends with one.
pub open spec fn log_record(line: Seq<char>) -> Seq<char> {
    if line.len() > 0 && line.last() == '\n' {
        line
    } else {
        line.push('\n')
    }
}

/// What is appended to a log file for `line`.
pub fn log_record_of(line: &str) -> (r: String)
    ensures
        r@ == log_record(line@),
{
    let mut content = line.to_owned();
    let v = crate::text::chars_of(line);
    if v.len() > 0 && v[v.len() - 1] == '\n' {
        return content;
    }
    push_char(&mut content, '\n');
    content
}

/// Where a panic happened: `file:line:column`, or `unknown`.
pub open spec fn location_text(location: Option<(Seq<char>, u32, u32)>) -> Seq<char> {
    match location {
        Some((file, line, column)) => file + ":"@ + decimal(line as nat) + ":"@ + decimal(
            column as nat,
        ),
        None => "unknown"@,
    }
}

/// The text of an optional name.
pub open spec fn name_view(n: Option<&str>) -> Option<Seq<char>> {
    match n {
        Some(n) => Some(n@),
        None => None,
    }
}

/// The text of an optional source location.
pub open spec fn location_view(l: Option<(&str, u32, u32)>) -> Option<(Seq<char>, u32, u32)> {
    match l {
        Some((f, line, c)) => Some((f@, line, c)),
        None => None,
    }
}

/// The report written for a panic.
pub open spec fn panic_report_text(
    timestamp: Seq<char>,
    thread_name: Option<Seq<char>>,
    location: Option<(Seq<char>, u32, u32)>,
    payload: Seq<char>,
    backtrace: Seq<char>,
) -> Seq<char> {
    let thread = match thread_name {
        Some(n) => n,
        None => "unnamed"@,
    };
    timestamp + " panic on thread '"@ + thread + "' at "@ + location_text(location)
        + "\nmessage: "@ + payload + "\nbacktrace:\n"@ + backtrace + "\n"@
}

/// The text of where a panic happened.
pub fn location_string(location: Option<(&str, u32, u32)>) -> (r: String)
    ensures
        r@ == location_text(
            match location {
                Some((f, l, c)) => Some((f@, l, c)),
                None => None,
            },
        ),
{
    match location {
        Some((file, line, column)) => {
            let mut s = concat_str(file, ":");
            push_decimal(&mut s, line as u64);
            push_str(&mut s, ":");
            push_decimal(&mut s, column as u64);
            s
        },
        None => "unknown".to_owned(),
    }
}

/// The report written for a panic: when, on which thread (`unnamed` where
/// it has no name), where, the payload's text and the backtrace.
pub fn panic_report(
    timestamp: &str,
    thread_name: Option<&str>,
    location: Option<(&str, u32, u32)>,
    payload: &PanicPayload,
    backtrace: &str,
) -> (r: String)
    ensures
        r@ == panic_report_text(
            timestamp@,
            match thread_name {
                Some(n) => Some(n@),
                None => None,
            },
            match location {
                Some((f, l, c)) => Some((f@, l, c)),
                None => None,
            },
            payload_text(*payload),
            backtrace@,
        ),
{
    let mut s = concat_str(timestamp, " panic on thread '");
    match thread_name {
        Some(n) => push_str(&mut s, n),
        None => push_str(&mut s, "unnamed"),
    }
    push_str(&mut s, "' at ");
    let loc = location_string(location);
    push_str(&mut s, loc.as_str());
    push_str(&mut s, "\nmessage: ");
    let p = panic_payload_to_string(payload);
    push_str(&mut s, p.as_str());
    push_str(&mut s, "\nbacktrace:\n");
    push_str(&mut s, backtrace);
    push_str(&mut s, "\n");
    s
}

/// Whether `c` may appear in an RFC 3339 time stamp.
pub open spec fn is_stamp_char(c: char) -> bool {
    ('0' <= c && c <= '9') || c == '-' || c == '+' || c == ':' || c == 'T' || c == '.'
}

/// Whether `t` has the shape of an RFC 3339 stamp in UTC as `chrono` writes
/// it: at least `YYYY-MM-DDTHH:MM:SS+00:00` long, made of digits and the
/// stamp's separators, and ending with the offset `+00:00`.
pub open spec fn is_utc_stamp(t: Seq<char>) -> bool {
    &&& t.len() >= 25
    &&& forall|i: int| 0 <= i < t.len() ==> is_stamp_char(#[trigger] t[i])
    &&& t.subrange(t.len() - 6, t.len() as int) == "+00:00"@
}

/// The current time in RFC 3339 form: `chrono`'s `Utc::now`, written with
/// `to_rfc3339` (date, `T`, time, an optional fraction of a second, then
/// the offset, which for UTC is `+00:00`). Which instant it names is not
/// claimed: it is the clock's.
#[verifier::external_body]
fn now_rfc3339() -> (r: String)
    ensures
        is_utc_stamp(r@),
{
    chrono::Utc::now().to_rfc3339()
}

/// A log line stamped with the current time.
pub fn log_line_now(message: &str) -> (r: String)
    ensures
        exists|t: Seq<char>| #[trigger] is_utc_stamp(t) && r@ == t + " "@ + message@,
{
    let ts = now_rfc3339();
    log_line(ts.as_str(), message)
}


/// The line logged when the application starts, stamped with the current
/// time.
pub fn startup_line_now() -> (r: String)
    ensures
        exists|t: Seq<char>| #[trigger] is_utc_stamp(t) && r@ == "app starting at "@ + t,
{
    let ts = now_rfc3339();
    startup_line(ts.as_str())
}

/// The report written for a panic happening now.
pub fn panic_report_now(
    thread_name: Option<&str>,
    location: Option<(&str, u32, u32)>,
    payload: &PanicPayload,
    backtrace: &str,
) -> (r: String)
    ensures
        exists|t: Seq<char>|
            #[trigger] is_utc_stamp(t) && r@ == panic_report_text(
                t,
                name_view(thread_name),
                location_view(location),
                payload_text(*payload),
                backtrace@,
            ),
{
    let ts = now_rfc3339();
    panic_report(ts.as_str(), thread_name, location, payload, backtrace)
}

} // verus!
