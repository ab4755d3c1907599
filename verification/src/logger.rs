//! Log levels and log-line formatting.
//!
//! A log line is `[timestamp] [LEVEL] message`. Building the line is
//! verified; the one trusted step is handing the finished line to an
//! output sink. Which lines are wanted at all (the minimum level) is a
//! policy of the surrounding program: the sink functions here write
//! unconditionally.

use vstd::prelude::*;
use crate::colorful::{Color, Colorful, Style, spec_ansi_escape, spec_color_code, spec_style_code};
use crate::strutil;
use crate::utils::{Utils, now_unix_parts, spec_log_datetime};

verus! {

/// A log severity, ordered from chattiest to gravest.
#[derive(Debug, Clone, Copy, PartialEq, Eq, Hash, Structural)]
pub enum LogLevel {
    DEBUG,
    INFO,
    WARN,
    ERROR,
}

/// The rank of a level: graver levels rank higher.
pub open spec fn spec_level_rank(l: LogLevel) -> nat {
    match l {
        LogLevel::DEBUG => 0,
        LogLevel::INFO => 1,
        LogLevel::WARN => 2,
        LogLevel::ERROR => 3,
    }
}

/// The fixed name of a level.
pub open spec fn spec_level_str(l: LogLevel) -> Seq<char> {
    match l {
        LogLevel::DEBUG => "DEBUG"@,
        LogLevel::INFO => "INFO"@,
        LogLevel::WARN => "WARN"@,
        LogLevel::ERROR => "ERROR"@,
    }
}

/// The level a name denotes: an exact match, or nothing.
pub open spec fn spec_level_from(s: Seq<char>) -> Option<LogLevel> {
    if s == "DEBUG"@ {
        Some(LogLevel::DEBUG)
    } else if s == "INFO"@ {
        Some(LogLevel::INFO)
    } else if s == "WARN"@ {
        Some(LogLevel::WARN)
    } else if s == "ERROR"@ {
        Some(LogLevel::ERROR)
    } else {
        None
    }
}

impl LogLevel {
    /// The fixed name of this level.
    pub fn as_str(&self) -> (r: &'static str)
        ensures
            r@ == spec_level_str(*self),
    {
        match self {
            LogLevel::DEBUG => "DEBUG",
            LogLevel::INFO => "INFO",
            LogLevel::WARN => "WARN",
            LogLevel::ERROR => "ERROR",
        }
    }

    /// A line at this level is wanted when the level is at least as grave
    /// as the configured minimum.
    pub fn should_log(&self, min_level: &LogLevel) -> (r: bool)
        ensures
            r == (spec_level_rank(*self) >= spec_level_rank(*min_level)),
    {
        let a: u8 = match self {
            LogLevel::DEBUG => 0,
            LogLevel::INFO => 1,
            LogLevel::WARN => 2,
            LogLevel::ERROR => 3,
        };
        let b: u8 = match min_level {
            LogLevel::DEBUG => 0,
            LogLevel::INFO => 1,
            LogLevel::WARN => 2,
            LogLevel::ERROR => 3,
        };
        a >= b
    }

    /// Recognize a level name; exact match only.
    pub fn from_str(level: &str) -> (r: Option<Self>)
        ensures
            r == spec_level_from(level@),
    {
        if strutil::str_eq(level, "DEBUG") {
            Some(LogLevel::DEBUG)
        } else if strutil::str_eq(level, "INFO") {
            Some(LogLevel::INFO)
        } else if strutil::str_eq(level, "WARN") {
            Some(LogLevel::WARN)
        } else if strutil::str_eq(level, "ERROR") {
            Some(LogLevel::ERROR)
        } else {
            None
        }
    }
}

/// A log line for `msg` at level `l`, stamped `t`.
pub open spec fn spec_log_line(t: u64, l: LogLevel, msg: Seq<char>) -> Seq<char> {
    seq!['['] + spec_log_datetime(t) + "] ["@ + spec_level_str(l) + "] "@ + msg
}

/// The log-line builder and sink.
pub struct Logger;

impl Logger {
    /// Format `message` as a log line at `level`, stamped with the clock's
    /// current reading.
    pub fn build_log_message(level: LogLevel, message: &str) -> (r: String)
        ensures
            exists|t: u64| r@ == spec_log_line(t, level, message@),
    {
        let (secs, _millis) = now_unix_parts();
        let at = Utils::log_datetime_of(secs);
        let mut out: String = String::from_str("[");
        out.append(at.as_str());
        out.append("] [");
        out.append(level.as_str());
        out.append("] ");
        out.append(message);
        proof {
            reveal_strlit("[");
            assert("["@ =~= seq!['[']);
            assert(out@ == spec_log_line(secs, level, message@));
        }
        out
    }

    /// The level name wrapped in its ANSI coloring: dim cyan for DEBUG,
    /// green for INFO, bold yellow for WARN, bold red for ERROR.
    pub fn colorful_log_level(level: LogLevel) -> (r: String)
        ensures
            r@ == spec_colorful_level(level),
    {
        match level {
            LogLevel::DEBUG => Colorful::new("DEBUG").foreground(Color::Cyan).style(
                Style::Dim,
            ).to_text(true),
            LogLevel::INFO => Colorful::new("INFO").foreground(Color::Green).to_text(true),
            LogLevel::WARN => Colorful::new("WARN").foreground(Color::Yellow).style(
                Style::Bold,
            ).to_text(true),
            LogLevel::ERROR => Colorful::new("ERROR").foreground(Color::Red).style(
                Style::Bold,
            ).to_text(true),
        }
    }

    /// Format `message` at `level` and write the line to `writer`.
    pub fn writer<W: std::io::Write>(level: LogLevel, message: &str, writer: &mut W) {
        let line = Self::build_log_message(level, message);
        write_str_to(writer, line.as_str());
    }
}

/// The ANSI-colored form of a level name.
pub open spec fn spec_colorful_level(l: LogLevel) -> Seq<char> {
    let reset = "\x1b[0m"@;
    match l {
        LogLevel::DEBUG => spec_ansi_escape(spec_style_code(Style::Dim)) + spec_ansi_escape(
            spec_color_code(Color::Cyan, false),
        ) + "DEBUG"@ + reset,
        LogLevel::INFO => spec_ansi_escape(spec_color_code(Color::Green, false)) + "INFO"@ + reset,
        LogLevel::WARN => spec_ansi_escape(spec_style_code(Style::Bold)) + spec_ansi_escape(
            spec_color_code(Color::Yellow, false),
        ) + "WARN"@ + reset,
        LogLevel::ERROR => spec_ansi_escape(spec_style_code(Style::Bold)) + spec_ansi_escape(
            spec_color_code(Color::Red, false),
        ) + "ERROR"@ + reset,
    }
}

/// Hand a finished line to an output sink.
///
/// Relies on `std::io::Write::write_all`; a sink error is ignored, as a
/// log line is best-effort.
#[verifier::external_body]
fn write_str_to<W: std::io::Write>(writer: &mut W, line: &str) {
    let _ = writer.write_all(line.as_bytes());
}

} // verus!
