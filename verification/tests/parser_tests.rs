use logcat::parser::{LogcatParser, PSParser};
use logcat::record::Level;

#[test]
fn parse_logcat_line() {
    let line = "08-30 18:10:53.566  1904  6916 D NetworkMonitor/139: PROBE_DNS connect.rom.miui.com 27ms OK";
    let res = LogcatParser {}.try_parse(line).unwrap();
    println!("{:?}", res);
    let ts = res.timestamp.unwrap();
    assert_eq!(ts.day, 30);
    assert_eq!(ts.hour, 18);
    assert_eq!(ts.minute, 10);
    assert_eq!(ts.second, 53);

    assert_eq!(res.pid, 1904);
    assert_eq!(res.tid, 6916);
    assert_eq!(res.level, Level::Debug);
    assert_eq!(res.tag, "NetworkMonitor/139");
    assert_eq!(res.message, "PROBE_DNS connect.rom.miui.com 27ms OK");
}

#[test]
fn parse_logcat_line_y() {
    let line = "2018-08-30 18:10:53.566  1904  6916 D NetworkMonitor/139: PROBE_DNS connect.rom.miui.com 27ms OK";
    let res = LogcatParser {}.try_parse(line).unwrap();
    println!("{:?}", res);
    let ts = res.timestamp.unwrap();
    assert_eq!(ts.day, 30);
    assert_eq!(ts.hour, 18);
    assert_eq!(ts.minute, 10);
    assert_eq!(ts.second, 53);

    assert_eq!(res.pid, 1904);
    assert_eq!(res.tid, 6916);
    assert_eq!(res.level, Level::Debug);
    assert_eq!(res.tag, "NetworkMonitor/139");
    assert_eq!(res.message, "PROBE_DNS connect.rom.miui.com 27ms OK");
}

#[test]
fn parse_ps_line() {
    let line = "u0_a153      24103   772 16935184 232896 0                  0 S com.google.android.GoogleCamera";
    let res = PSParser {}.try_parse(line).unwrap();
    println!("{:?}", res);
    assert_eq!(res.user, "u0_a153");
    assert_eq!(res.pid, 24103);
    assert_eq!(res.ppid, 772);
    assert_eq!(res.rss, 232896);
    assert_eq!(res.name, "com.google.android.GoogleCamera");
    assert_eq!(res.pc, "S");
}

#[test]
fn explicit_year_is_kept() {
    let line = "2018-08-30 18:10:53.566  1904  6916 D NetworkMonitor/139: PROBE_DNS connect.rom.miui.com 27ms OK";
    let res = LogcatParser::parse_with_year(line, 1999).unwrap();
    assert_eq!(res.timestamp.unwrap().year, 2018);
}

#[test]
fn missing_year_takes_the_supplied_year() {
    let line = "08-30 18:10:53.566  1904  6916 D Tag: msg";
    let res = LogcatParser::parse_with_year(line, 2012).unwrap();
    assert_eq!(res.timestamp.unwrap().year, 2012);
}

#[test]
fn missing_year_takes_the_current_local_year() {
    let line = "08-30 18:10:53.566  1904  6916 D Tag: msg";
    let res = LogcatParser {}.try_parse(line).unwrap();
    assert_eq!(res.timestamp.unwrap().year, chrono::Datelike::year(&chrono::Local::now()));
}

#[test]
fn year_only_changes_the_year() {
    let with_year = "2018-08-30 18:10:53.566  1904  6916 D NetworkMonitor/139: PROBE_DNS connect.rom.miui.com 27ms OK";
    let without = "08-30 18:10:53.566  1904  6916 D NetworkMonitor/139: PROBE_DNS connect.rom.miui.com 27ms OK";
    let a = LogcatParser::parse_with_year(with_year, 2018).unwrap();
    let b = LogcatParser::parse_with_year(without, 2018).unwrap();
    assert_eq!(a.pid, b.pid);
    assert_eq!(a.tid, b.tid);
    assert_eq!(a.level, b.level);
    assert_eq!(a.tag, b.tag);
    assert_eq!(a.message, b.message);
    assert_eq!(a.timestamp.unwrap(), b.timestamp.unwrap());
}

#[test]
fn raw_is_the_line_itself() {
    let line = "08-30 18:10:53.566  1904  6916 D Tag: some message: with colons";
    let res = LogcatParser::parse_with_year(line, 2020).unwrap();
    assert_eq!(res.raw, line);
    assert_eq!(res.message, "some message: with colons");
    assert_eq!(res.process_name, "");
}

#[test]
fn tag_runs_to_the_first_colon_space() {
    let line = "08-30 18:10:53.566  1904  6916 I a:b: c";
    let res = LogcatParser::parse_with_year(line, 2020).unwrap();
    assert_eq!(res.tag, "a:b");
    assert_eq!(res.message, "c");
    assert_eq!(res.level, Level::Info);
}

#[test]
fn unknown_severity_char_is_unspecified() {
    let line = "08-30 18:10:53.566  1904  6916 Q Tag: msg";
    let res = LogcatParser::parse_with_year(line, 2020).unwrap();
    assert_eq!(res.level, Level::Unspecified);
}

#[test]
fn malformed_log_lines_yield_no_record() {
    assert!(LogcatParser::parse_with_year("", 2020).is_none());
    assert!(LogcatParser::parse_with_year("garbage", 2020).is_none());
    // non-numeric pid
    assert!(LogcatParser::parse_with_year("08-30 18:10:53.566  abc  6916 D Tag: m", 2020).is_none());
    // missing tag separator
    assert!(LogcatParser::parse_with_year("08-30 18:10:53.566  1904  6916 D no separator", 2020).is_none());
    // missing milliseconds
    assert!(LogcatParser::parse_with_year("08-30 18:10:53  1904  6916 D Tag: m", 2020).is_none());
    // pid too large for an unsigned 32-bit integer
    assert!(LogcatParser::parse_with_year("08-30 18:10:53.566  99999999999  6916 D Tag: m", 2020).is_none());
}

#[test]
fn impossible_calendar_dates_yield_no_record() {
    assert!(LogcatParser::parse_with_year("13-01 10:00:00.000  1 2 D T: m", 2020).is_none());
    assert!(LogcatParser::parse_with_year("02-30 10:00:00.000  1 2 D T: m", 2020).is_none());
    // Feb 29 exists in leap years alone
    assert!(LogcatParser::parse_with_year("02-29 10:00:00.000  1 2 D T: m", 2019).is_none());
    assert!(LogcatParser::parse_with_year("02-29 10:00:00.000  1 2 D T: m", 2020).is_some());
    assert!(LogcatParser::parse_with_year("01-01 24:00:00.000  1 2 D T: m", 2020).is_none());
}

#[test]
fn malformed_ps_lines_yield_no_record() {
    let parser = PSParser {};
    assert!(parser.try_parse("").is_none());
    assert!(parser.try_parse("USER PID").is_none());
    // non-numeric pid
    assert!(parser.try_parse("u0_a153 notanum 772 16935184 232896 0 0 S name").is_none());
    // missing columns
    assert!(parser.try_parse("u0_a153 24103 772 16935184").is_none());
}

#[test]
fn ps_name_may_hold_spaces() {
    let res = PSParser {}.try_parse("root 1 0 100 200 0 0 S init with args").unwrap();
    assert_eq!(res.name, "init with args");
    assert_eq!(res.pc, "S");
    assert_eq!(res.user, "root");
}

#[test]
fn severity_characters_round_trip() {
    for c in ['T', 'V', 'D', 'I', 'W', 'E', 'F', 'A'] {
        let level = Level::of_char(c);
        assert_ne!(level, Level::Unspecified);
        assert_eq!(level.symbol(), c);
    }
    assert_eq!(Level::of_char('-'), Level::Unspecified);
    assert_eq!(Level::Unspecified.symbol(), '-');
    assert_eq!(Level::of_char('z'), Level::Unspecified);
}

#[test]
fn severity_words_map_to_levels() {
    assert_eq!(Level::of_str("trace"), Level::Trace);
    assert_eq!(Level::of_str("debug"), Level::Debug);
    assert_eq!(Level::of_str("W"), Level::Warn);
    assert_eq!(Level::of_str("fatal"), Level::Fatal);
    assert_eq!(Level::of_str("Fatal"), Level::Unspecified);
    assert_eq!(Level::of_str(""), Level::Unspecified);
    assert_eq!(Level::default(), Level::Unspecified);
}
