use logcat::record::{Level, LogcatRecord, Timestamp};
use logcat::render::{hashed_color, OutColor, Terminal};

fn sample_record(message: &str) -> LogcatRecord {
    LogcatRecord {
        level: Level::Debug,
        tag: "NetworkMonitor/139".to_string(),
        message: message.to_string(),
        pid: 1904,
        tid: 6916,
        raw: "raw".to_string(),
        process_name: "np".to_string(),
        timestamp: Some(Timestamp { year: 2018, month: 8, day: 30, hour: 18, minute: 10, second: 53 }),
    }
}

// Tag 30, name 20, no timestamp column: the preamble takes
// 0 + 1 + 30 + 2 + 20 + 2 + 3 = 58 columns, the marker 3 more,
// so 19 columns of an 80-wide terminal carry payload.
fn narrow_layout() -> Terminal {
    let mut t = Terminal::default();
    t.hide_timestamp = true;
    t
}

#[test]
fn message_filling_the_payload_exactly_stays_on_one_line() {
    let t = narrow_layout();
    let msg = "0123456789012345678";
    assert_eq!(msg.chars().count(), 19);
    let lines = t.render(&sample_record(msg));
    assert_eq!(lines.len(), 1);
    assert_eq!(lines[0][7].text, "   ");
    assert_eq!(lines[0][8].text, msg);
}

#[test]
fn message_one_char_over_the_payload_wraps_to_two_lines() {
    let t = narrow_layout();
    let msg = "01234567890123456789";
    assert_eq!(msg.chars().count(), 20);
    let lines = t.render(&sample_record(msg));
    assert_eq!(lines.len(), 2);
    assert_eq!(lines[0][7].text, " ┌ ");
    assert_eq!(lines[1][7].text, " └ ");
    assert_eq!(lines[0][8].text, "0123456789012345678");
    assert_eq!(lines[1][8].text, "9");
}

#[test]
fn long_messages_repeat_the_preamble_on_every_line() {
    let t = narrow_layout();
    let msg = "a".repeat(19 * 3 + 1);
    let lines = t.render(&sample_record(&msg));
    assert_eq!(lines.len(), 4);
    assert_eq!(lines[1][7].text, " ├ ");
    assert_eq!(lines[2][7].text, " ├ ");
    for line in &lines {
        assert_eq!(line.len(), 9);
        assert_eq!(line[2].text, format!("{:<30}", "NetworkMonitor/139"));
        assert_eq!(line[4].text, format!("{:>20}", "np"));
    }
}

#[test]
fn empty_message_renders_one_line() {
    let t = narrow_layout();
    let lines = t.render(&sample_record(""));
    assert_eq!(lines.len(), 1);
    assert_eq!(lines[0][7].text, "   ");
    assert_eq!(lines[0][8].text, "");
}

#[test]
fn tabs_are_removed_from_the_message() {
    let t = narrow_layout();
    let lines = t.render(&sample_record("a\tb\tc"));
    assert_eq!(lines[0][8].text, "abc");
}

#[test]
fn datetime_column_follows_the_flags() {
    let rec = sample_record("m");
    let mut t = Terminal::default();
    // Dates hidden by default: time alone.
    let lines = t.render(&rec);
    assert_eq!(lines[0][0].text, "18:10:53");
    // Dates shown.
    t.hide_date = false;
    let lines = t.render(&rec);
    assert_eq!(lines[0][0].text, "08-30 18:10:53");
    // Timestamps hidden entirely.
    t.hide_timestamp = true;
    let lines = t.render(&rec);
    assert_eq!(lines[0][0].text, "");
}

#[test]
fn missing_timestamp_renders_spaces_of_the_active_width() {
    let mut rec = sample_record("m");
    rec.timestamp = None;
    let mut t = Terminal::default();
    let lines = t.render(&rec);
    assert_eq!(lines[0][0].text, " ".repeat(8));
    t.hide_date = false;
    let lines = t.render(&rec);
    assert_eq!(lines[0][0].text, " ".repeat(14));
}

#[test]
fn tag_is_right_aligned_when_timestamps_show() {
    let t = Terminal::default();
    let lines = t.render(&sample_record("m"));
    assert_eq!(lines[0][2].text, format!("{:>30}", "NetworkMonitor/139"));
}

#[test]
fn overlong_tag_and_name_are_truncated_to_their_widths() {
    let mut t = Terminal::default();
    t.tag_width = 4;
    t.process_name_width = 3;
    let mut rec = sample_record("m");
    rec.tag = "abcdefgh".to_string();
    rec.process_name = "longname".to_string();
    let lines = t.render(&rec);
    assert_eq!(lines[0][2].text, "abcd");
    assert_eq!(lines[0][4].text, "lon");
}

#[test]
fn pid_fallback_column_when_names_are_off() {
    let mut t = Terminal::default();
    t.use_process_name = false;
    let lines = t.render(&sample_record("m"));
    assert_eq!(lines[0][4].text, format!("{:>10}", "1904:1904"));
}

#[test]
fn severity_highlights_are_fixed() {
    let t = Terminal::default();
    let mut rec = sample_record("m");

    rec.level = Level::Info;
    let lines = t.render(&rec);
    assert_eq!(lines[0][6].text, " I ");
    assert_eq!(lines[0][6].bg, Some(OutColor::Green));
    assert_eq!(lines[0][6].fg, Some(OutColor::Black));
    assert_eq!(lines[0][8].fg, Some(OutColor::Green));
    assert!(lines[0][8].intense);

    rec.level = Level::Warn;
    let lines = t.render(&rec);
    assert_eq!(lines[0][6].bg, Some(OutColor::Yellow));

    rec.level = Level::Error;
    let lines = t.render(&rec);
    assert_eq!(lines[0][6].bg, Some(OutColor::Red));

    rec.level = Level::Debug;
    let lines = t.render(&rec);
    assert_eq!(lines[0][6].text, " D ");
    assert_eq!(lines[0][6].bg, None);
    assert_eq!(lines[0][6].fg, None);
    assert_eq!(lines[0][8].fg, None);
}

#[test]
fn colors_are_deterministic_in_the_text() {
    assert_eq!(hashed_color(""), 42);
    assert_eq!(hashed_color("A"), 107);
    assert_eq!(hashed_color("NetworkMonitor/139"), hashed_color("NetworkMonitor/139"));
    let t = Terminal::default();
    let rec = sample_record("m");
    let a = t.render(&rec);
    let b = t.render(&rec);
    assert_eq!(a[0][2].fg, b[0][2].fg);
    assert_eq!(a[0][2].fg, Some(OutColor::Palette(hashed_color("NetworkMonitor/139"))));
    // The identity column hashes the padded column text.
    assert_eq!(a[0][4].fg, Some(OutColor::Palette(hashed_color(&format!("{:>20}", "np")))));
}

#[test]
fn display_string_lays_out_the_fixed_columns() {
    let rec = sample_record("PROBE_DNS ok");
    let shown = rec.to_display_string();
    let expected = format!(
        "08-30 18:10:53.000 {:>5} {:>10} {:>5} {:>20}: {}",
        1904, "np", "D", "NetworkMonitor/139", "PROBE_DNS ok"
    );
    assert_eq!(shown, expected);
}

#[test]
fn display_string_without_timestamp_has_an_empty_column() {
    let mut rec = sample_record("m");
    rec.timestamp = None;
    let shown = rec.to_display_string();
    assert!(shown.starts_with(&format!(" {:>5}", 1904)));
}
