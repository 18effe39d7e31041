use vstd::prelude::*;
use crate::text::{decimal, push_char, push_chars, push_decimal, split_on, split_str, trim, trim_str};
use crate::friends::{lowercase, to_lowercase};

verus! {

/// The logging profile chosen on the command line.
#[derive(Clone, Copy, Debug, PartialEq, Eq, Structural)]
pub enum LogProfile {
    Normal,
    Debug,
    Trace,
    Trace2,
}

/// The most detailed level that is logged.
#[derive(Clone, Copy, Debug, PartialEq, Eq, Structural)]
pub enum LevelFilter {
    Debug,
    Trace,
}

/// How the logger is set up: which of its switches are turned on, and the
/// level it starts with.
#[derive(Clone, Copy, Debug, PartialEq, Eq, Structural)]
pub struct LoggerSettings {
    pub write_to_stdout: bool,
    pub display_trace: bool,
    pub display_warp: bool,
    pub level: LevelFilter,
}

/// Decides the logger's set-up for a profile: the debug profile writes to
/// the terminal; the trace profiles also show traces, and the second one
/// Warp's own logs too; without a profile, or with the normal one, nothing
/// is turned on and debug messages are logged.
pub fn logger_settings(profile: Option<LogProfile>) -> (r: LoggerSettings)
    ensures
        r.write_to_stdout == (profile == Some(LogProfile::Debug) || profile == Some(
            LogProfile::Trace,
        ) || profile == Some(LogProfile::Trace2)),
        r.display_trace == (profile == Some(LogProfile::Trace) || profile == Some(
            LogProfile::Trace2,
        )),
        r.display_warp == (profile == Some(LogProfile::Trace2)),
        r.level == (if profile == Some(LogProfile::Trace) || profile == Some(LogProfile::Trace2) {
            LevelFilter::Trace
        } else {
            LevelFilter::Debug
        }),
{
    match profile {
        Some(LogProfile::Debug) => LoggerSettings {
            write_to_stdout: true,
            display_trace: false,
            display_warp: false,
            level: LevelFilter::Debug,
        },
        Some(LogProfile::Trace) => LoggerSettings {
            write_to_stdout: true,
            display_trace: true,
            display_warp: false,
            level: LevelFilter::Trace,
        },
        Some(LogProfile::Trace2) => LoggerSettings {
            write_to_stdout: true,
            display_trace: true,
            display_warp: true,
            level: LevelFilter::Trace,
        },
        _ => LoggerSettings {
            write_to_stdout: false,
            display_trace: false,
            display_warp: false,
            level: LevelFilter::Debug,
        },
    }
}

/// The debug form of a text (`format!("{:?}", s)`): quoted, with special
/// characters escaped.
pub uninterp spec fn debug_text(s: Seq<char>) -> Seq<char>;

/// `<str as Debug>::fmt`. The escaping rules are not written out here; the
/// result is named as a function of the text.
#[verifier::external_body]
fn debug_format(s: &str) -> (r: String)
    ensures
        r@ == debug_text(s@),
{
    format!("{:?}", s)
}

/// "panic occurred"
pub open spec fn panic_intro() -> Seq<char> {
    seq!['p', 'a', 'n', 'i', 'c', ' ', 'o', 'c', 'c', 'u', 'r', 'r', 'e', 'd']
}

/// The crash report written when the program panics: what panicked (the
/// message in its debug form, when the panic carried a text), where (file
/// and line, when known), then the logs, each ended by a line feed.
pub fn crash_report(payload: Option<&str>, location: Option<(&str, u32)>, logs: &str) -> (r: String)
    ensures
        r@ == panic_intro() + (match payload {
            Some(s) => seq![':', ' '] + debug_text(s@),
            None => Seq::<char>::empty(),
        }) + (match location {
            Some((file, line)) => seq![' ', 'a', 't', ' ', 'f', 'i', 'l', 'e', ' '] + file@ + seq![
                ',',
                ' ',
                'l',
                'i',
                'n',
                'e',
                ' ',
            ] + decimal(line as nat),
            None => Seq::<char>::empty(),
        }) + seq!['\n'] + logs@ + seq!['\n'],
{
    let intro: Vec<char> = vec!['p', 'a', 'n', 'i', 'c', ' ', 'o', 'c', 'c', 'u', 'r', 'r', 'e', 'd'];
    let mut r = crate::text::string_from_chars(intro.as_slice());
    match payload {
        Some(s) => {
            push_char(&mut r, ':');
            push_char(&mut r, ' ');
            let d = debug_format(s);
            r.append(d.as_str());
        },
        None => {},
    }
    match location {
        Some((file, line)) => {
            let at: Vec<char> = vec![' ', 'a', 't', ' ', 'f', 'i', 'l', 'e', ' '];
            push_chars(&mut r, at.as_slice());
            r.append(file);
            let ln: Vec<char> = vec![',', ' ', 'l', 'i', 'n', 'e', ' '];
            push_chars(&mut r, ln.as_slice());
            push_decimal(&mut r, line as u64);
        },
        None => {},
    }
    push_char(&mut r, '\n');
    r.append(logs);
    push_char(&mut r, '\n');
    assert(r@ =~= panic_intro() + (match payload {
        Some(s) => seq![':', ' '] + debug_text(s@),
        None => Seq::<char>::empty(),
    }) + (match location {
        Some((file, line)) => seq![' ', 'a', 't', ' ', 'f', 'i', 'l', 'e', ' '] + file@ + seq![
            ',',
            ' ',
            'l',
            'i',
            'n',
            'e',
            ' ',
        ] + decimal(line as nat),
        None => Seq::<char>::empty(),
    }) + seq!['\n'] + logs@ + seq!['\n']);
    r
}

/// The `i`-th field of a log line, or nothing when it has fewer fields.
pub open spec fn log_field(line: Seq<char>, i: int) -> Seq<char> {
    if i < split_on(line, '|').len() {
        split_on(line, '|')[i]
    } else {
        Seq::<char>::empty()
    }
}

/// A line of the debug log, cut at '|' into its time, level and message.
pub struct LogLine {
    pub datetime: String,
    pub level: String,
    pub message: String,
    /// The CSS class of the level: the level trimmed, in lower case.
    pub level_class: String,
}

fn field_or_empty(parts: &Vec<String>, i: usize) -> (r: String)
    ensures
        i < parts@.len() ==> r@ == parts@[i as int]@,
        i >= parts@.len() ==> r@.len() == 0,
{
    if i < parts.len() {
        parts[i].clone()
    } else {
        String::new()
    }
}

/// Cuts a line of the debug log into the parts that are shown: the first
/// three fields between '|' (missing ones are empty; any further field is
/// not shown), and the class of the level.
pub fn parse_log_line(line: &str) -> (r: LogLine)
    ensures
        r.datetime@ == log_field(line@, 0),
        r.level@ == log_field(line@, 1),
        r.message@ == log_field(line@, 2),
        r.level_class@ == lowercase(trim(log_field(line@, 1))),
{
    let parts = split_str(line, '|');
    let datetime = field_or_empty(&parts, 0);
    let level = field_or_empty(&parts, 1);
    let message = field_or_empty(&parts, 2);
    let trimmed = trim_str(level.as_str());
    let level_class = to_lowercase(trimmed.as_str());
    LogLine { datetime, level, message, level_class }
}

} // verus!
