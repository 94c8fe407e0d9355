use std::time::Duration;

use barista::ps::{Proc, State};
use barista::status::{duration_fmt, Audience, Feed, Status};

#[test]
fn test() {
    assert_eq!("down", Status::Down.to_str(Audience::Machine));
    assert_eq!("up off", Status::UpOff.to_str(Audience::Machine));
}

#[test]
fn down_is_default() {
    assert!(matches!(Status::default(), Status::Down));
}

// Machine ages are seconds with two decimals, rounded half up; an
// absent age is "-1.00".
#[test]
fn machine_durations() {
    assert_eq!("-1.00", duration_fmt(None, Audience::Machine));
    assert_eq!("0.00", duration_fmt(Some(0), Audience::Machine));
    assert_eq!("0.05", duration_fmt(Some(50), Audience::Machine));
    assert_eq!("1.99", duration_fmt(Some(1994), Audience::Machine));
    assert_eq!("2.00", duration_fmt(Some(1999), Audience::Machine));
    assert_eq!("12.34", duration_fmt(Some(12_340), Audience::Machine));
}

// Human ages drop sub-second detail and read like "2h 37m"; an absent
// age is "never".
#[test]
fn human_durations() {
    assert_eq!("never", duration_fmt(None, Audience::Human));
    assert_eq!("2h 37m", duration_fmt(Some(9_420_000), Audience::Human));
    assert_eq!(
        humantime::format_duration(Duration::from_secs(3)).to_string(),
        duration_fmt(Some(3_250), Audience::Human)
    );
}

fn sample_feed() -> Feed {
    Feed {
        position: 1,
        name: "clock".to_string(),
        dir: "/tmp/work/feeds/00-clock".to_string(),
        age_of_output_ms: Some(2_000),
        age_of_log_ms: None,
        log_size_bytes: 1_048_576,
        log_lines: 42,
        pid: 321,
        state: Some(State::SleepInterruptible),
        pdescendants: vec![
            Proc {
                pid: 400,
                ppid: 321,
                pgrp: 321,
                state: State::RunQueue,
            },
            Proc {
                pid: 322,
                ppid: 321,
                pgrp: 321,
                state: State::SleepInterruptible,
            },
        ],
    }
}

// The feed table carries every column; descendants are sorted by PID
// and rendered as pid:STATE pairs.
#[test]
fn feed_table_machine() {
    let status = Status::UpOn {
        feeds: vec![sample_feed()],
    };
    let text = status.to_str(Audience::Machine);
    assert!(text.contains("POSITION"));
    assert!(text.contains("PROC_DESCENDANTS"));
    assert!(text.contains("clock"));
    assert!(text.contains("/tmp/work/feeds/00-clock"));
    assert!(text.contains("2.00"));
    assert!(text.contains("-1.00"));
    assert!(text.contains("1048576"));
    assert!(text.contains("42"));
    assert!(text.contains("321"));
    assert!(text.contains("322:S,400:R"));
}

// Human mode humanizes sizes the way the size formatter does.
#[test]
fn feed_table_human() {
    let status = Status::UpOn {
        feeds: vec![sample_feed()],
    };
    let text = status.to_str(Audience::Human);
    let expected_size = bytesize::ByteSize(1_048_576).to_string();
    assert!(
        text.contains(&expected_size),
        "table {:?} lacks {:?}",
        text,
        expected_size
    );
    assert!(text.contains("never"));
}

// The table body matches what the table crate itself renders for the
// same cells.
#[test]
fn table_matches_direct_rendering() {
    let mut feed = sample_feed();
    feed.pdescendants.clear();
    let status = Status::UpOn { feeds: vec![feed] };
    let text = status.to_str(Audience::Machine);

    let mut table = comfy_table::Table::new();
    table.load_style(comfy_table::presets::NOTHING);
    table.set_header(vec![
        "POSITION",
        "NAME",
        "DIR",
        "LAST_OUTPUTTED",
        "LAST_LOGGED",
        "LOG_SIZE",
        "LOG_LINES",
        "PID",
        "PROC_STATE",
        "PROC_DESCENDANTS",
    ]);
    table.add_row(vec![
        "1",
        "clock",
        "/tmp/work/feeds/00-clock",
        "2.00",
        "-1.00",
        "1048576",
        "42",
        "321",
        "S",
        "-",
    ]);
    assert_eq!(table.to_string(), text);
}
