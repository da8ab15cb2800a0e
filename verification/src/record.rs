//! Data model: severity levels, calendar timestamps, parsed log records
//! and parsed process-table records.

use vstd::prelude::*;

use crate::text::{chars_match_str, str_chars};

verus! {

/// Severity of a log record, from the catch-all `Unspecified` to `Assert`.
#[derive(Clone, Copy, Debug, PartialEq, Eq, Structural)]
pub enum Level {
    Unspecified,
    Trace,
    Verbose,
    Debug,
    Info,
    Warn,
    Error,
    Fatal,
    Assert,
}

impl Level {
    /// The one-character display form of a level.
    pub open spec fn spec_symbol(self) -> char {
        match self {
            Level::Unspecified => '-',
            Level::Trace => 'T',
            Level::Verbose => 'V',
            Level::Debug => 'D',
            Level::Info => 'I',
            Level::Warn => 'W',
            Level::Error => 'E',
            Level::Fatal => 'F',
            Level::Assert => 'A',
        }
    }

    /// The level a single severity character denotes; every unknown
    /// character denotes `Unspecified`.
    pub open spec fn spec_of_char(c: char) -> Level {
        match c {
            'T' => Level::Trace,
            'V' => Level::Verbose,
            'D' => Level::Debug,
            'I' => Level::Info,
            'W' => Level::Warn,
            'E' => Level::Error,
            'F' => Level::Fatal,
            'A' => Level::Assert,
            _ => Level::Unspecified,
        }
    }

    pub fn symbol(&self) -> (c: char)
        ensures
            c == self.spec_symbol(),
    {
        match self {
            Level::Unspecified => '-',
            Level::Trace => 'T',
            Level::Verbose => 'V',
            Level::Debug => 'D',
            Level::Info => 'I',
            Level::Warn => 'W',
            Level::Error => 'E',
            Level::Fatal => 'F',
            Level::Assert => 'A',
        }
    }

    /// The level a text denotes: a single severity character, or the
    /// long lowercase word; every other text denotes `Unspecified`.
    pub open spec fn spec_of_text(s: Seq<char>) -> Level {
        if s == "T"@ || s == "trace"@ {
            Level::Trace
        } else if s == "V"@ || s == "verbose"@ {
            Level::Verbose
        } else if s == "D"@ || s == "debug"@ {
            Level::Debug
        } else if s == "I"@ || s == "info"@ {
            Level::Info
        } else if s == "W"@ || s == "warn"@ {
            Level::Warn
        } else if s == "E"@ || s == "error"@ {
            Level::Error
        } else if s == "F"@ || s == "fatal"@ {
            Level::Fatal
        } else if s == "A"@ || s == "assert"@ {
            Level::Assert
        } else {
            Level::Unspecified
        }
    }

    pub fn of_str(s: &str) -> (l: Level)
        ensures
            l == Level::spec_of_text(s@),
    {
        let v = str_chars(s);
        if chars_match_str(&v, "T") || chars_match_str(&v, "trace") {
            Level::Trace
        } else if chars_match_str(&v, "V") || chars_match_str(&v, "verbose") {
            Level::Verbose
        } else if chars_match_str(&v, "D") || chars_match_str(&v, "debug") {
            Level::Debug
        } else if chars_match_str(&v, "I") || chars_match_str(&v, "info") {
            Level::Info
        } else if chars_match_str(&v, "W") || chars_match_str(&v, "warn") {
            Level::Warn
        } else if chars_match_str(&v, "E") || chars_match_str(&v, "error") {
            Level::Error
        } else if chars_match_str(&v, "F") || chars_match_str(&v, "fatal") {
            Level::Fatal
        } else if chars_match_str(&v, "A") || chars_match_str(&v, "assert") {
            Level::Assert
        } else {
            Level::Unspecified
        }
    }

    pub fn of_char(c: char) -> (l: Level)
        ensures
            l == Level::spec_of_char(c),
    {
        match c {
            'T' => Level::Trace,
            'V' => Level::Verbose,
            'D' => Level::Debug,
            'I' => Level::Info,
            'W' => Level::Warn,
            'E' => Level::Error,
            'F' => Level::Fatal,
            'A' => Level::Assert,
            _ => Level::Unspecified,
        }
    }
}

impl Default for Level {
    /// A record starts with no severity assigned.
    fn default() -> (l: Level)
        ensures
            l == Level::Unspecified,
    {
        Level::Unspecified
    }
}

/// Every level renders to a character that maps back to the same level:
/// the one-character display form and the character table are inverses.
pub proof fn lemma_level_symbol_round_trip()
    ensures
        forall|l: Level| Level::spec_of_char(#[trigger] l.spec_symbol()) == l,
{
    assert forall|l: Level| Level::spec_of_char(#[trigger] l.spec_symbol()) == l by {
        match l {
            Level::Unspecified => assert(Level::spec_of_char('-') == Level::Unspecified),
            Level::Trace => assert(Level::spec_of_char('T') == Level::Trace),
            Level::Verbose => assert(Level::spec_of_char('V') == Level::Verbose),
            Level::Debug => assert(Level::spec_of_char('D') == Level::Debug),
            Level::Info => assert(Level::spec_of_char('I') == Level::Info),
            Level::Warn => assert(Level::spec_of_char('W') == Level::Warn),
            Level::Error => assert(Level::spec_of_char('E') == Level::Error),
            Level::Fatal => assert(Level::spec_of_char('F') == Level::Fatal),
            Level::Assert => assert(Level::spec_of_char('A') == Level::Assert),
        }
    }
}

/// Every character that denotes a level other than `Unspecified` is
/// rendered back unchanged by that level's display form.
pub proof fn lemma_char_symbol_round_trip(c: char)
    requires
        Level::spec_of_char(c) != Level::Unspecified,
    ensures
        Level::spec_of_char(c).spec_symbol() == c,
{
}

/// A wall-clock calendar timestamp, without a time zone.
#[derive(Clone, Copy, Debug, PartialEq, Eq, Structural)]
pub struct Timestamp {
    pub year: i32,
    pub month: u32,
    pub day: u32,
    pub hour: u32,
    pub minute: u32,
    pub second: u32,
}

/// Gregorian leap-year rule.
pub open spec fn spec_is_leap_year(y: int) -> bool {
    (y % 4 == 0 && y % 100 != 0) || y % 400 == 0
}

/// Number of days of month `m` (1-based) of year `y`.
pub open spec fn spec_days_in_month(y: int, m: int) -> int {
    if m == 2 {
        if spec_is_leap_year(y) {
            29
        } else {
            28
        }
    } else if m == 4 || m == 6 || m == 9 || m == 11 {
        30
    } else {
        31
    }
}

pub fn is_leap_year(y: i32) -> (r: bool)
    ensures
        r == spec_is_leap_year(y as int),
{
    let m4: i32 = match y.checked_rem_euclid(4) {
        Some(m) => m,
        None => 0,
    };
    let m100: i32 = match y.checked_rem_euclid(100) {
        Some(m) => m,
        None => 0,
    };
    let m400: i32 = match y.checked_rem_euclid(400) {
        Some(m) => m,
        None => 0,
    };
    (m4 == 0 && m100 != 0) || m400 == 0
}

pub fn days_in_month(y: i32, m: u32) -> (r: u32)
    ensures
        r as int == spec_days_in_month(y as int, m as int),
{
    if m == 2 {
        if is_leap_year(y) {
            29
        } else {
            28
        }
    } else if m == 4 || m == 6 || m == 9 || m == 11 {
        30
    } else {
        31
    }
}

impl Timestamp {
    /// The timestamp denotes an existing wall-clock time of the calendar.
    pub open spec fn valid(self) -> bool {
        &&& 1 <= self.month <= 12
        &&& 1 <= self.day
        &&& self.day as int <= spec_days_in_month(self.year as int, self.month as int)
        &&& self.hour < 24
        &&& self.minute < 60
        &&& self.second < 60
    }

    pub fn check_valid(&self) -> (r: bool)
        ensures
            r == self.valid(),
    {
        1 <= self.month && self.month <= 12 && 1 <= self.day && self.day <= days_in_month(
            self.year,
            self.month,
        ) && self.hour < 24 && self.minute < 60 && self.second < 60
    }
}

/// A parsed log line.
#[derive(Debug, Clone)]
pub struct LogcatRecord {
    pub level: Level,
    pub tag: String,
    pub message: String,
    pub pid: u32,
    pub tid: u32,
    pub raw: String,
    pub process_name: String,
    pub timestamp: Option<Timestamp>,
}

/// The mathematical value of a `LogcatRecord`.
pub struct LogcatRecordV {
    pub level: Level,
    pub tag: Seq<char>,
    pub message: Seq<char>,
    pub pid: u32,
    pub tid: u32,
    pub raw: Seq<char>,
    pub process_name: Seq<char>,
    pub timestamp: Option<Timestamp>,
}

impl View for LogcatRecord {
    type V = LogcatRecordV;

    open spec fn view(&self) -> LogcatRecordV {
        LogcatRecordV {
            level: self.level,
            tag: self.tag@,
            message: self.message@,
            pid: self.pid,
            tid: self.tid,
            raw: self.raw@,
            process_name: self.process_name@,
            timestamp: self.timestamp,
        }
    }
}

/// A parsed process-table line.
#[derive(Debug, Clone)]
pub struct ProcessRecord {
    pub user: String,
    pub pid: u32,
    pub ppid: u32,
    pub name: String,
    pub rss: u32,
    pub pc: String,
}

/// The mathematical value of a `ProcessRecord`.
pub struct ProcessRecordV {
    pub user: Seq<char>,
    pub pid: u32,
    pub ppid: u32,
    pub name: Seq<char>,
    pub rss: u32,
    pub pc: Seq<char>,
}

impl View for ProcessRecord {
    type V = ProcessRecordV;

    open spec fn view(&self) -> ProcessRecordV {
        ProcessRecordV {
            user: self.user@,
            pid: self.pid,
            ppid: self.ppid,
            name: self.name@,
            rss: self.rss,
            pc: self.pc@,
        }
    }
}

impl ProcessRecord {
    /// A copy whose mathematical value is the same.
    pub fn duplicate(&self) -> (r: ProcessRecord)
        ensures
            r@ == self@,
    {
        ProcessRecord {
            user: self.user.clone(),
            pid: self.pid,
            ppid: self.ppid,
            name: self.name.clone(),
            rss: self.rss,
            pc: self.pc.clone(),
        }
    }
}

impl Default for ProcessRecord {
    /// The empty record: zero ids and sizes, empty texts.
    fn default() -> (r: ProcessRecord)
        ensures
            r@.user == Seq::<char>::empty(),
            r@.pid == 0u32,
            r@.ppid == 0u32,
            r@.name == Seq::<char>::empty(),
            r@.rss == 0u32,
            r@.pc == Seq::<char>::empty(),
    {
        ProcessRecord {
            user: String::new(),
            pid: 0,
            ppid: 0,
            name: String::new(),
            rss: 0,
            pc: String::new(),
        }
    }
}

} // verus!
