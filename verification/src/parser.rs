//! The line grammars: a timestamped log line and a process-table line.
//! Each parse is total: a line that does not match yields no record.

use vstd::prelude::*;

use crate::record::{Level, LogcatRecord, LogcatRecordV, ProcessRecord, ProcessRecordV, Timestamp};
use crate::text::{
    chars_to_string, digit_run_end, digit_val, digits_val, exec_is_digit, is_digit, is_ws,
    lemma_digit_run_end, scan_digit_run, scan_u32, scan_ws_run, str_chars, sub_chars, ws_run_end,
};

verus! {

// ---------------------------------------------------------------------------
// Log-line grammar
// ---------------------------------------------------------------------------
/// An explicit 4-digit year prefix, as in `2018-08-30 ...`.
pub open spec fn year_present(s: Seq<char>) -> bool {
    s.len() >= 5 && is_digit(s[0]) && is_digit(s[1]) && is_digit(s[2]) && is_digit(s[3]) && s[4]
        == '-'
}

/// Where the month-first part of the line begins.
pub open spec fn body_start(s: Seq<char>) -> int {
    if year_present(s) {
        5
    } else {
        0
    }
}

/// `MM-DD HH:MM:SS.` with two digits each, at the body start.
pub open spec fn header_ok(s: Seq<char>) -> bool {
    let p = body_start(s);
    &&& s.len() >= p + 15
    &&& is_digit(s[p])
    &&& is_digit(s[p + 1])
    &&& s[p + 2] == '-'
    &&& is_digit(s[p + 3])
    &&& is_digit(s[p + 4])
    &&& s[p + 5] == ' '
    &&& is_digit(s[p + 6])
    &&& is_digit(s[p + 7])
    &&& s[p + 8] == ':'
    &&& is_digit(s[p + 9])
    &&& is_digit(s[p + 10])
    &&& s[p + 11] == ':'
    &&& is_digit(s[p + 12])
    &&& is_digit(s[p + 13])
    &&& s[p + 14] == '.'
}

pub open spec fn ms_start(s: Seq<char>) -> int {
    body_start(s) + 15
}

pub open spec fn ms_end(s: Seq<char>) -> int {
    digit_run_end(s, ms_start(s))
}

pub open spec fn ws1_end(s: Seq<char>) -> int {
    ws_run_end(s, ms_end(s))
}

pub open spec fn pid_end(s: Seq<char>) -> int {
    digit_run_end(s, ws1_end(s))
}

pub open spec fn ws2_end(s: Seq<char>) -> int {
    ws_run_end(s, pid_end(s))
}

pub open spec fn tid_end(s: Seq<char>) -> int {
    digit_run_end(s, ws2_end(s))
}

pub open spec fn level_pos(s: Seq<char>) -> int {
    ws_run_end(s, tid_end(s))
}

pub open spec fn tag_start(s: Seq<char>) -> int {
    ws_run_end(s, level_pos(s) + 1)
}

/// First position at or after `from` where `": "` stands, else -1.
pub open spec fn colon_space_pos(s: Seq<char>, from: int) -> int
    decreases s.len() - from,
{
    if 0 <= from && from + 2 <= s.len() {
        if s[from] == ':' && s[from + 1] == ' ' {
            from
        } else {
            colon_space_pos(s, from + 1)
        }
    } else {
        -1
    }
}

pub open spec fn tag_end(s: Seq<char>) -> int {
    colon_space_pos(s, tag_start(s))
}

/// The whole shape of a log line, aside from calendar validity.
pub open spec fn grammar_ok(s: Seq<char>) -> bool {
    &&& header_ok(s)
    &&& ms_end(s) > ms_start(s)
    &&& ws1_end(s) > ms_end(s)
    &&& pid_end(s) > ws1_end(s)
    &&& digits_val(s.subrange(ws1_end(s), pid_end(s))) <= u32::MAX as int
    &&& ws2_end(s) > pid_end(s)
    &&& tid_end(s) > ws2_end(s)
    &&& digits_val(s.subrange(ws2_end(s), tid_end(s))) <= u32::MAX as int
    &&& level_pos(s) > tid_end(s)
    &&& level_pos(s) < s.len()
    &&& tag_start(s) > level_pos(s) + 1
    &&& tag_end(s) > tag_start(s)
}

/// The year of the line: explicit when present, else the supplied one.
pub open spec fn parsed_year(s: Seq<char>, default_year: int) -> int {
    if year_present(s) {
        digit_val(s[0]) * 1000 + digit_val(s[1]) * 100 + digit_val(s[2]) * 10 + digit_val(s[3])
    } else {
        default_year
    }
}

pub open spec fn parsed_timestamp(s: Seq<char>, default_year: int) -> Timestamp {
    let p = body_start(s);
    Timestamp {
        year: parsed_year(s, default_year) as i32,
        month: (digit_val(s[p]) * 10 + digit_val(s[p + 1])) as u32,
        day: (digit_val(s[p + 3]) * 10 + digit_val(s[p + 4])) as u32,
        hour: (digit_val(s[p + 6]) * 10 + digit_val(s[p + 7])) as u32,
        minute: (digit_val(s[p + 9]) * 10 + digit_val(s[p + 10])) as u32,
        second: (digit_val(s[p + 12]) * 10 + digit_val(s[p + 13])) as u32,
    }
}

pub open spec fn parsed_pid(s: Seq<char>) -> int {
    digits_val(s.subrange(ws1_end(s), pid_end(s)))
}

pub open spec fn parsed_tid(s: Seq<char>) -> int {
    digits_val(s.subrange(ws2_end(s), tid_end(s)))
}

pub open spec fn parsed_level(s: Seq<char>) -> Level {
    Level::spec_of_char(s[level_pos(s)])
}

pub open spec fn parsed_tag(s: Seq<char>) -> Seq<char> {
    s.subrange(tag_start(s), tag_end(s))
}

pub open spec fn parsed_message(s: Seq<char>) -> Seq<char> {
    s.subrange(tag_end(s) + 2, s.len() as int)
}

/// A line parses when its shape matches and its timestamp names an
/// existing calendar date and time (given the substituted year).
pub open spec fn spec_log_ok(s: Seq<char>, default_year: int) -> bool {
    grammar_ok(s) && parsed_timestamp(s, default_year).valid()
}

/// The record a valid line denotes. The raw text is the line itself and
/// the process name starts empty, to be assigned once by enrichment.
pub open spec fn spec_log_record(s: Seq<char>, default_year: int) -> LogcatRecordV {
    LogcatRecordV {
        level: parsed_level(s),
        tag: parsed_tag(s),
        message: parsed_message(s),
        pid: parsed_pid(s) as u32,
        tid: parsed_tid(s) as u32,
        raw: s,
        process_name: Seq::<char>::empty(),
        timestamp: Some(parsed_timestamp(s, default_year)),
    }
}

/// A line that carries no explicit year takes the supplied year, and
/// nothing else of the record depends on the supplied year.
pub proof fn lemma_year_substitution(s: Seq<char>, y1: i32, y2: i32)
    ensures
        !year_present(s) ==> parsed_timestamp(s, y1 as int).year == y1,
        year_present(s) ==> parsed_timestamp(s, y1 as int) == parsed_timestamp(s, y2 as int),
        grammar_ok(s) ==> {
            let r1 = spec_log_record(s, y1 as int);
            let r2 = spec_log_record(s, y2 as int);
            &&& r1.level == r2.level
            &&& r1.tag == r2.tag
            &&& r1.message == r2.message
            &&& r1.pid == r2.pid
            &&& r1.tid == r2.tid
            &&& r1.raw == r2.raw
            &&& r1.timestamp->0.month == r2.timestamp->0.month
            &&& r1.timestamp->0.day == r2.timestamp->0.day
            &&& r1.timestamp->0.hour == r2.timestamp->0.hour
            &&& r1.timestamp->0.minute == r2.timestamp->0.minute
            &&& r1.timestamp->0.second == r2.timestamp->0.second
        },
{
}

fn scan_colon_space(v: &Vec<char>, from: usize) -> (r: Option<usize>)
    requires
        from <= v@.len(),
    ensures
        r matches Some(x) ==> from <= x && x as int == colon_space_pos(v@, from as int) && x + 2
            <= v@.len(),
        (r is Some) == (colon_space_pos(v@, from as int) >= 0),
{
    let mut i: usize = from;
    while v.len() >= 2 && i <= v.len() - 2
        invariant
            from <= i <= v@.len(),
            colon_space_pos(v@, i as int) == colon_space_pos(v@, from as int),
        decreases v@.len() - i,
    {
        if v[i] == ':' && v[i + 1] == ' ' {
            return Some(i);
        }
        assert(colon_space_pos(v@, i as int) == colon_space_pos(v@, i + 1));
        i = i + 1;
    }
    assert(colon_space_pos(v@, i as int) == -1);
    None
}

fn digit_of(c: char) -> (d: u32)
    requires
        is_digit(c),
    ensures
        d as int == digit_val(c),
        d < 10,
{
    c as u32 - '0' as u32
}

/// Relies on chrono's `Local::now` and `Datelike::year`: the current
/// local calendar year. The value depends on the clock; nothing is
/// promised of it.
#[verifier::external_body]
fn current_local_year() -> i32 {
    chrono::Datelike::year(&chrono::Local::now())
}

/// Relies on chrono's `TimeZone::with_ymd_and_hms` on `Local`: whether
/// the wall-clock time exists in the machine's local time zone. An
/// ambiguous time counts as existing; the earlier of its two instants
/// has the same wall-clock fields, so the record is unaffected by the
/// choice. The answer depends on the machine; nothing is promised of it.
#[verifier::external_body]
fn local_timestamp_resolvable(t: &Timestamp) -> bool {
    match chrono::TimeZone::with_ymd_and_hms(
        &chrono::Local,
        t.year,
        t.month,
        t.day,
        t.hour,
        t.minute,
        t.second,
    ) {
        chrono::LocalResult::None => false,
        _ => true,
    }
}

/// Parser for timestamped log lines.
pub struct LogcatParser {}

impl LogcatParser {
    /// Parses a log line against the grammar, substituting
    /// `default_year` when the line carries no explicit year.
    pub fn parse_with_year(line: &str, default_year: i32) -> (r: Option<LogcatRecord>)
        ensures
            (r is Some) == spec_log_ok(line@, default_year as int),
            r matches Some(rec) ==> rec@ == spec_log_record(line@, default_year as int),
    {
        let v = str_chars(line);
        let ghost s = v@;
        let yp: bool = v.len() >= 5 && exec_is_digit(v[0]) && exec_is_digit(v[1]) && exec_is_digit(
            v[2],
        ) && exec_is_digit(v[3]) && v[4] == '-';
        assert(yp == year_present(s));
        let p: usize = if yp {
            5
        } else {
            0
        };
        assert(p as int == body_start(s));
        if v.len() < p + 15 {
            return None;
        }
        let shape_ok: bool = exec_is_digit(v[p]) && exec_is_digit(v[p + 1]) && v[p + 2] == '-'
            && exec_is_digit(v[p + 3]) && exec_is_digit(v[p + 4]) && v[p + 5] == ' '
            && exec_is_digit(v[p + 6]) && exec_is_digit(v[p + 7]) && v[p + 8] == ':'
            && exec_is_digit(v[p + 9]) && exec_is_digit(v[p + 10]) && v[p + 11] == ':'
            && exec_is_digit(v[p + 12]) && exec_is_digit(v[p + 13]) && v[p + 14] == '.';
        if !shape_ok {
            assert(!header_ok(s));
            return None;
        }
        assert(header_ok(s));
        let year: i32 = if yp {
            (digit_of(v[0]) * 1000 + digit_of(v[1]) * 100 + digit_of(v[2]) * 10 + digit_of(
                v[3],
            )) as i32
        } else {
            default_year
        };
        assert(year as int == parsed_year(s, default_year as int));
        let month: u32 = digit_of(v[p]) * 10 + digit_of(v[p + 1]);
        let day: u32 = digit_of(v[p + 3]) * 10 + digit_of(v[p + 4]);
        let hour: u32 = digit_of(v[p + 6]) * 10 + digit_of(v[p + 7]);
        let minute: u32 = digit_of(v[p + 9]) * 10 + digit_of(v[p + 10]);
        let second: u32 = digit_of(v[p + 12]) * 10 + digit_of(v[p + 13]);
        let ts = Timestamp { year, month, day, hour, minute, second };
        assert(ts == parsed_timestamp(s, default_year as int));
        let mse = scan_digit_run(&v, p + 15);
        assert(mse as int == ms_end(s));
        if mse == p + 15 {
            return None;
        }
        let w1 = scan_ws_run(&v, mse);
        assert(w1 as int == ws1_end(s));
        if w1 == mse {
            return None;
        }
        let (pe, pid_o) = scan_u32(&v, w1);
        assert(pe as int == pid_end(s));
        if pe == w1 {
            return None;
        }
        let pid: u32 = match pid_o {
            Some(x) => x,
            None => {
                return None;
            },
        };
        let w2 = scan_ws_run(&v, pe);
        assert(w2 as int == ws2_end(s));
        if w2 == pe {
            return None;
        }
        let (te, tid_o) = scan_u32(&v, w2);
        assert(te as int == tid_end(s));
        if te == w2 {
            return None;
        }
        let tid: u32 = match tid_o {
            Some(x) => x,
            None => {
                return None;
            },
        };
        let lp = scan_ws_run(&v, te);
        assert(lp as int == level_pos(s));
        if lp == te {
            return None;
        }
        if lp >= v.len() {
            return None;
        }
        let level = Level::of_char(v[lp]);
        let tgs = scan_ws_run(&v, lp + 1);
        assert(tgs as int == tag_start(s));
        if tgs == lp + 1 {
            return None;
        }
        let tge: usize = match scan_colon_space(&v, tgs) {
            Some(x) => x,
            None => {
                assert(tag_end(s) < 0);
                return None;
            },
        };
        assert(tge as int == tag_end(s));
        if tge == tgs {
            return None;
        }
        assert(grammar_ok(s));
        if !ts.check_valid() {
            return None;
        }
        assert(spec_log_ok(s, default_year as int));
        let tag_v = sub_chars(&v, tgs, tge);
        let msg_v = sub_chars(&v, tge + 2, v.len());
        let rec = LogcatRecord {
            level,
            tag: chars_to_string(&tag_v),
            message: chars_to_string(&msg_v),
            pid,
            tid,
            raw: line.to_owned(),
            process_name: String::new(),
            timestamp: Some(ts),
        };
        assert(rec@ =~= spec_log_record(s, default_year as int));
        Some(rec)
    }

    /// Parses a log line, substituting the machine's current local year
    /// when the line carries none, and dropping a line whose wall-clock
    /// time does not exist in the local time zone.
    pub fn try_parse(&self, line: &str) -> (r: Option<LogcatRecord>)
        ensures
            (forall|y: int| !spec_log_ok(line@, y)) ==> r is None,
            r matches Some(rec) ==> exists|y: int|
                spec_log_ok(line@, y) && rec@ == spec_log_record(line@, y),
            r matches Some(rec) ==> rec@.raw == line@,
    {
        let year = current_local_year();
        match Self::parse_with_year(line, year) {
            None => None,
            Some(rec) => {
                let keep: bool = match &rec.timestamp {
                    Some(t) => local_timestamp_resolvable(t),
                    None => false,
                };
                if keep {
                    assert(spec_log_ok(line@, year as int) && rec@ == spec_log_record(
                        line@,
                        year as int,
                    ));
                    Some(rec)
                } else {
                    None
                }
            },
        }
    }
}

// ---------------------------------------------------------------------------
// Process-line grammar
// ---------------------------------------------------------------------------
/// First position at or after `from` holding a space, else -1.
pub open spec fn space_pos(s: Seq<char>, from: int) -> int
    decreases s.len() - from,
{
    if 0 <= from && from < s.len() {
        if s[from] == ' ' {
            from
        } else {
            space_pos(s, from + 1)
        }
    } else {
        -1
    }
}

pub open spec fn ps_user_end(s: Seq<char>) -> int {
    space_pos(s, 0)
}

pub open spec fn ps_w0(s: Seq<char>) -> int {
    ws_run_end(s, ps_user_end(s))
}

pub open spec fn ps_pid_end(s: Seq<char>) -> int {
    digit_run_end(s, ps_w0(s))
}

pub open spec fn ps_w1(s: Seq<char>) -> int {
    ws_run_end(s, ps_pid_end(s))
}

pub open spec fn ps_ppid_end(s: Seq<char>) -> int {
    digit_run_end(s, ps_w1(s))
}

pub open spec fn ps_w2(s: Seq<char>) -> int {
    ws_run_end(s, ps_ppid_end(s))
}

pub open spec fn ps_vsize_end(s: Seq<char>) -> int {
    digit_run_end(s, ps_w2(s))
}

pub open spec fn ps_w3(s: Seq<char>) -> int {
    ws_run_end(s, ps_vsize_end(s))
}

pub open spec fn ps_rss_end(s: Seq<char>) -> int {
    digit_run_end(s, ps_w3(s))
}

pub open spec fn ps_w4(s: Seq<char>) -> int {
    ws_run_end(s, ps_rss_end(s))
}

pub open spec fn ps_wchan_end(s: Seq<char>) -> int {
    space_pos(s, ps_w4(s))
}

pub open spec fn ps_w5(s: Seq<char>) -> int {
    ws_run_end(s, ps_wchan_end(s))
}

pub open spec fn ps_addr_end(s: Seq<char>) -> int {
    space_pos(s, ps_w5(s))
}

pub open spec fn ps_w6(s: Seq<char>) -> int {
    ws_run_end(s, ps_addr_end(s))
}

pub open spec fn ps_pc_end(s: Seq<char>) -> int {
    space_pos(s, ps_w6(s))
}

pub open spec fn ps_w7(s: Seq<char>) -> int {
    ws_run_end(s, ps_pc_end(s))
}

/// The whole shape of a process-table line:
/// `user pid ppid vsize rss wchan addr pc name`, where the name is the
/// rest of the line and may hold spaces or be empty.
pub open spec fn ps_ok(s: Seq<char>) -> bool {
    &&& ps_user_end(s) >= 1
    &&& ps_w0(s) > ps_user_end(s)
    &&& ps_pid_end(s) > ps_w0(s)
    &&& digits_val(s.subrange(ps_w0(s), ps_pid_end(s))) <= u32::MAX as int
    &&& ps_w1(s) > ps_pid_end(s)
    &&& ps_ppid_end(s) > ps_w1(s)
    &&& digits_val(s.subrange(ps_w1(s), ps_ppid_end(s))) <= u32::MAX as int
    &&& ps_w2(s) > ps_ppid_end(s)
    &&& ps_vsize_end(s) > ps_w2(s)
    &&& digits_val(s.subrange(ps_w2(s), ps_vsize_end(s))) <= u32::MAX as int
    &&& ps_w3(s) > ps_vsize_end(s)
    &&& ps_rss_end(s) > ps_w3(s)
    &&& digits_val(s.subrange(ps_w3(s), ps_rss_end(s))) <= u32::MAX as int
    &&& ps_w4(s) > ps_rss_end(s)
    &&& ps_wchan_end(s) > ps_w4(s)
    &&& ps_w5(s) > ps_wchan_end(s)
    &&& ps_addr_end(s) > ps_w5(s)
    &&& ps_w6(s) > ps_addr_end(s)
    &&& ps_pc_end(s) > ps_w6(s)
    &&& ps_w7(s) > ps_pc_end(s)
}

pub open spec fn ps_user(s: Seq<char>) -> Seq<char> {
    s.subrange(0, ps_user_end(s))
}

pub open spec fn ps_pid(s: Seq<char>) -> int {
    digits_val(s.subrange(ps_w0(s), ps_pid_end(s)))
}

pub open spec fn ps_ppid(s: Seq<char>) -> int {
    digits_val(s.subrange(ps_w1(s), ps_ppid_end(s)))
}

pub open spec fn ps_rss(s: Seq<char>) -> int {
    digits_val(s.subrange(ps_w3(s), ps_rss_end(s)))
}

pub open spec fn ps_pc(s: Seq<char>) -> Seq<char> {
    s.subrange(ps_w6(s), ps_pc_end(s))
}

pub open spec fn ps_name(s: Seq<char>) -> Seq<char> {
    s.subrange(ps_w7(s), s.len() as int)
}

/// The record a valid process-table line denotes.
pub open spec fn spec_ps_record(s: Seq<char>) -> ProcessRecordV {
    ProcessRecordV {
        user: ps_user(s),
        pid: ps_pid(s) as u32,
        ppid: ps_ppid(s) as u32,
        name: ps_name(s),
        rss: ps_rss(s) as u32,
        pc: ps_pc(s),
    }
}

fn scan_space(v: &Vec<char>, from: usize) -> (r: Option<usize>)
    requires
        from <= v@.len(),
    ensures
        r matches Some(x) ==> from <= x && x as int == space_pos(v@, from as int) && x < v@.len(),
        (r is Some) == (space_pos(v@, from as int) >= 0),
{
    let mut i: usize = from;
    while i < v.len()
        invariant
            from <= i <= v@.len(),
            space_pos(v@, i as int) == space_pos(v@, from as int),
        decreases v@.len() - i,
    {
        if v[i] == ' ' {
            return Some(i);
        }
        assert(space_pos(v@, i as int) == space_pos(v@, i + 1));
        i = i + 1;
    }
    assert(space_pos(v@, i as int) == -1);
    None
}

/// Parses one process-table row from its characters.
pub fn parse_ps_chars(v: &Vec<char>) -> (r: Option<ProcessRecord>)
    ensures
        (r is Some) == ps_ok(v@),
        r matches Some(rec) ==> rec@ == spec_ps_record(v@),
{
    let ghost s = v@;
    let ue: usize = match scan_space(v, 0) {
        Some(x) => x,
        None => {
            return None;
        },
    };
    assert(ue as int == ps_user_end(s));
    if ue < 1 {
        return None;
    }
    let w0 = scan_ws_run(v, ue);
    assert(w0 as int == ps_w0(s));
    if w0 == ue {
        return None;
    }
    let (pe, pid_o) = scan_u32(v, w0);
    assert(pe as int == ps_pid_end(s));
    if pe == w0 {
        return None;
    }
    let pid: u32 = match pid_o {
        Some(x) => x,
        None => {
            return None;
        },
    };
    let w1 = scan_ws_run(v, pe);
    if w1 == pe {
        return None;
    }
    let (ppe, ppid_o) = scan_u32(v, w1);
    if ppe == w1 {
        return None;
    }
    let ppid: u32 = match ppid_o {
        Some(x) => x,
        None => {
            return None;
        },
    };
    let w2 = scan_ws_run(v, ppe);
    if w2 == ppe {
        return None;
    }
    let (vse, vs_o) = scan_u32(v, w2);
    if vse == w2 {
        return None;
    }
    if vs_o.is_none() {
        return None;
    }
    let w3 = scan_ws_run(v, vse);
    if w3 == vse {
        return None;
    }
    let (rse, rss_o) = scan_u32(v, w3);
    if rse == w3 {
        return None;
    }
    let rss: u32 = match rss_o {
        Some(x) => x,
        None => {
            return None;
        },
    };
    let w4 = scan_ws_run(v, rse);
    if w4 == rse {
        return None;
    }
    let wce: usize = match scan_space(v, w4) {
        Some(x) => x,
        None => {
            return None;
        },
    };
    if wce == w4 {
        return None;
    }
    let w5 = scan_ws_run(v, wce);
    if w5 == wce {
        return None;
    }
    let ade: usize = match scan_space(v, w5) {
        Some(x) => x,
        None => {
            return None;
        },
    };
    if ade == w5 {
        return None;
    }
    let w6 = scan_ws_run(v, ade);
    if w6 == ade {
        return None;
    }
    let pce: usize = match scan_space(v, w6) {
        Some(x) => x,
        None => {
            return None;
        },
    };
    if pce == w6 {
        return None;
    }
    let w7 = scan_ws_run(v, pce);
    if w7 == pce {
        return None;
    }
    assert(ps_ok(s));
    let user_v = sub_chars(v, 0, ue);
    let pc_v = sub_chars(v, w6, pce);
    let name_v = sub_chars(v, w7, v.len());
    let rec = ProcessRecord {
        user: chars_to_string(&user_v),
        pid,
        ppid,
        name: chars_to_string(&name_v),
        rss,
        pc: chars_to_string(&pc_v),
    };
    assert(rec@ =~= spec_ps_record(s));
    Some(rec)
}

/// Parser for process-table rows.
pub struct PSParser {}

impl PSParser {
    /// Parses one row of the bulk process listing; the caller skips the
    /// header row.
    pub fn try_parse(&self, line: &str) -> (r: Option<ProcessRecord>)
        ensures
            (r is Some) == ps_ok(line@),
            r matches Some(rec) ==> rec@ == spec_ps_record(line@),
    {
        let v = str_chars(line);
        parse_ps_chars(&v)
    }
}

} // verus!
