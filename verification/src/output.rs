use vstd::prelude::*;

verus! {

/// The output format of the command surface.
#[derive(Clone, Copy, Debug, PartialEq, Eq, Structural)]
pub enum Format {
    Human,
    Json,
}

/// Whether output is colorized.
#[derive(Clone, Copy, Debug, PartialEq, Eq, Structural)]
pub enum Color {
    Auto,
    Always,
    Never,
}

/// The log level for messages: only messages at or above the level are
/// emitted.
#[derive(Clone, Copy, Debug, PartialEq, Eq, Structural)]
pub enum LevelFilter {
    Off,
    Error,
    Warn,
    Info,
    Debug,
    Trace,
}

/// The input named no level.
#[derive(Debug)]
pub struct ParseLevelError {
    pub level: String,
}

pub open spec fn is_word_off(s: Seq<char>) -> bool {
    s.len() == 3 && (s[0] == 'o' || s[0] == 'O') && (s[1] == 'f' || s[1] == 'F') && (s[2] == 'f'
        || s[2] == 'F')
}

pub open spec fn is_word_error(s: Seq<char>) -> bool {
    s.len() == 5 && (s[0] == 'e' || s[0] == 'E') && (s[1] == 'r' || s[1] == 'R') && (s[2] == 'r'
        || s[2] == 'R') && (s[3] == 'o' || s[3] == 'O') && (s[4] == 'r' || s[4] == 'R')
}

pub open spec fn is_word_warn(s: Seq<char>) -> bool {
    s.len() == 4 && (s[0] == 'w' || s[0] == 'W') && (s[1] == 'a' || s[1] == 'A') && (s[2] == 'r'
        || s[2] == 'R') && (s[3] == 'n' || s[3] == 'N')
}

pub open spec fn is_word_info(s: Seq<char>) -> bool {
    s.len() == 4 && (s[0] == 'i' || s[0] == 'I') && (s[1] == 'n' || s[1] == 'N') && (s[2] == 'f'
        || s[2] == 'F') && (s[3] == 'o' || s[3] == 'O')
}

pub open spec fn is_word_debug(s: Seq<char>) -> bool {
    s.len() == 5 && (s[0] == 'd' || s[0] == 'D') && (s[1] == 'e' || s[1] == 'E') && (s[2] == 'b'
        || s[2] == 'B') && (s[3] == 'u' || s[3] == 'U') && (s[4] == 'g' || s[4] == 'G')
}

pub open spec fn is_word_trace(s: Seq<char>) -> bool {
    s.len() == 5 && (s[0] == 't' || s[0] == 'T') && (s[1] == 'r' || s[1] == 'R') && (s[2] == 'a'
        || s[2] == 'A') && (s[3] == 'c' || s[3] == 'C') && (s[4] == 'e' || s[4] == 'E')
}

/// The level a string names, compared case-insensitively against the six
/// level names.
pub open spec fn spec_parse_level(s: Seq<char>) -> Option<LevelFilter> {
    if is_word_off(s) {
        Some(LevelFilter::Off)
    } else if is_word_error(s) {
        Some(LevelFilter::Error)
    } else if is_word_warn(s) {
        Some(LevelFilter::Warn)
    } else if is_word_info(s) {
        Some(LevelFilter::Info)
    } else if is_word_debug(s) {
        Some(LevelFilter::Debug)
    } else if is_word_trace(s) {
        Some(LevelFilter::Trace)
    } else {
        None
    }
}

/// Parse a log level name, matching the six level names without regard to
/// letter case; anything else is rejected with the input echoed back.
pub fn parse_level(s: &str) -> (r: Result<LevelFilter, ParseLevelError>)
    ensures
        match r {
            Ok(l) => spec_parse_level(s@) == Some(l),
            Err(e) => spec_parse_level(s@) is None && e.level@ == s@,
        },
{
    let n = s.unicode_len();
    if n == 3 {
        let c0 = s.get_char(0);
        let c1 = s.get_char(1);
        let c2 = s.get_char(2);
        if (c0 == 'o' || c0 == 'O') && (c1 == 'f' || c1 == 'F') && (c2 == 'f' || c2 == 'F') {
            return Ok(LevelFilter::Off);
        }
    }
    if n == 4 {
        let c0 = s.get_char(0);
        let c1 = s.get_char(1);
        let c2 = s.get_char(2);
        let c3 = s.get_char(3);
        if (c0 == 'w' || c0 == 'W') && (c1 == 'a' || c1 == 'A') && (c2 == 'r' || c2 == 'R') && (c3
            == 'n' || c3 == 'N') {
            return Ok(LevelFilter::Warn);
        }
        if (c0 == 'i' || c0 == 'I') && (c1 == 'n' || c1 == 'N') && (c2 == 'f' || c2 == 'F') && (c3
            == 'o' || c3 == 'O') {
            return Ok(LevelFilter::Info);
        }
    }
    if n == 5 {
        let c0 = s.get_char(0);
        let c1 = s.get_char(1);
        let c2 = s.get_char(2);
        let c3 = s.get_char(3);
        let c4 = s.get_char(4);
        if (c0 == 'e' || c0 == 'E') && (c1 == 'r' || c1 == 'R') && (c2 == 'r' || c2 == 'R') && (c3
            == 'o' || c3 == 'O') && (c4 == 'r' || c4 == 'R') {
            return Ok(LevelFilter::Error);
        }
        if (c0 == 'd' || c0 == 'D') && (c1 == 'e' || c1 == 'E') && (c2 == 'b' || c2 == 'B') && (c3
            == 'u' || c3 == 'U') && (c4 == 'g' || c4 == 'G') {
            return Ok(LevelFilter::Debug);
        }
        if (c0 == 't' || c0 == 'T') && (c1 == 'r' || c1 == 'R') && (c2 == 'a' || c2 == 'A') && (c3
            == 'c' || c3 == 'C') && (c4 == 'e' || c4 == 'E') {
            return Ok(LevelFilter::Trace);
        }
    }
    Err(ParseLevelError { level: s.to_owned() })
}

/// The upper-case label a level is rendered with.
pub open spec fn spec_level_label(level: LevelFilter) -> Seq<char> {
    match level {
        LevelFilter::Off => "OFF"@,
        LevelFilter::Error => "ERROR"@,
        LevelFilter::Warn => "WARN"@,
        LevelFilter::Info => "INFO"@,
        LevelFilter::Debug => "DEBUG"@,
        LevelFilter::Trace => "TRACE"@,
    }
}

/// The label a log line carries for each level.
pub fn level_label(level: LevelFilter) -> (r: &'static str)
    ensures
        r@ == spec_level_label(level),
{
    match level {
        LevelFilter::Off => "OFF",
        LevelFilter::Error => "ERROR",
        LevelFilter::Warn => "WARN",
        LevelFilter::Info => "INFO",
        LevelFilter::Debug => "DEBUG",
        LevelFilter::Trace => "TRACE",
    }
}

/// Whether colorized output is wanted: `Auto` follows whether the error
/// stream is a terminal.
pub open spec fn spec_use_color(color: Color, stderr_is_tty: bool) -> bool {
    match color {
        Color::Auto => stderr_is_tty,
        Color::Always => true,
        Color::Never => false,
    }
}

/// Decide colorization from the configured choice and the terminal.
pub fn use_color(color: Color, stderr_is_tty: bool) -> (r: bool)
    ensures
        r == spec_use_color(color, stderr_is_tty),
{
    match color {
        Color::Auto => stderr_is_tty,
        Color::Always => true,
        Color::Never => false,
    }
}

} // verus!
