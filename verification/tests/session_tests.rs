use chrono::Datelike;
use tictock::calendar::Now;
use tictock::config::{Alarm, Config, Face, Recurrence};
use tictock::session::{move_selection, next_wake, persist_session, Overrides};

fn at(date: &str, h: u32, m: u32, s: u32, ms: u32) -> Now {
    let d = chrono::NaiveDate::parse_from_str(date, "%Y-%m-%d").unwrap().num_days_from_ce();
    let ms_of_day = ((h * 60 + m) * 60 + s) * 1000 + ms;
    Now { day: d, ms_of_day, epoch_ms: (d as i64 - 719_163) * 86_400_000 + ms_of_day as i64 }
}

fn no_overrides() -> Overrides {
    Overrides {
        face: None,
        hour12: false,
        hour24: false,
        seconds: false,
        no_seconds: false,
        date: false,
        no_date: false,
        color: None,
        accent_color: None,
        scale: None,
        alarm: None,
    }
}

#[test]
fn overrides_apply_for_one_run() {
    let mut o = no_overrides();
    o.face = Some(Face::Lcd);
    o.hour12 = true;
    o.hour24 = true;
    o.no_date = true;
    o.color = Some("green".to_string());
    o.scale = Some(4);
    let cfg = o.apply(Config::default());
    assert_eq!(cfg.face, Face::Lcd);
    assert!(!cfg.hour12);
    assert!(!cfg.show_date);
    assert!(cfg.show_seconds);
    assert_eq!(cfg.color, "green");
    assert_eq!(cfg.scale, 4);
    assert_eq!(cfg.accent_color, "none");
    let same = no_overrides().apply(Config::default());
    assert_eq!(same.face, Face::Digital);
    assert!(same.hour12);
}

#[test]
fn session_changes_are_saved_without_overrides() {
    let stored = Config::default();
    let mut o = no_overrides();
    o.color = Some("red".to_string());
    o.no_date = true;
    let before = o.apply(stored.clone());
    let mut after = before.clone();
    after.face = Face::Grid;
    let saved = persist_session(&before, &after, Some(stored.clone())).unwrap();
    assert_eq!(saved.face, Face::Grid);
    // The color the session ran with is written back, the date override is not.
    assert_eq!(saved.color, "red");
    assert!(saved.show_date);
    assert!(persist_session(&before, &before, Some(stored.clone())).is_none());
    assert!(persist_session(&before, &after, None).is_none());
}

#[test]
fn picker_selection_stays_on_the_grid() {
    assert_eq!(move_selection(4, 1, 0), 5);
    assert_eq!(move_selection(5, 1, 0), 5);
    assert_eq!(move_selection(3, -1, 0), 3);
    assert_eq!(move_selection(1, 0, -1), 1);
    assert_eq!(move_selection(14, 0, 1), 17);
    assert_eq!(move_selection(17, 0, 5), 17);
}

#[test]
fn wake_up_on_the_next_boundary() {
    let mut cfg = Config::default();
    cfg.face = Face::Warp;
    assert_eq!(next_wake(&cfg, at("2026-08-17", 10, 0, 0, 0), false), 16);
    cfg.face = Face::Snake;
    assert_eq!(next_wake(&cfg, at("2026-08-17", 10, 0, 0, 0), false), 130);
    // The digital face blinks its colon: 500 ms boundaries.
    cfg.face = Face::Digital;
    assert_eq!(next_wake(&cfg, at("2026-08-17", 10, 0, 0, 120), false), 380);
    // A ringing alarm wakes every 250 ms.
    assert_eq!(next_wake(&cfg, at("2026-08-17", 10, 0, 0, 120), true), 130);
    // Seconds hidden, no blinking, a still face: once a minute.
    cfg.face = Face::Word;
    cfg.show_seconds = false;
    assert_eq!(next_wake(&cfg, at("2026-08-17", 10, 0, 30, 0), false), 30_000);
    // Right before a boundary the sleep is at least 10 ms.
    assert_eq!(next_wake(&cfg, at("2026-08-17", 10, 0, 59, 995), false), 10);
}

#[test]
fn wake_early_for_an_alarm() {
    let mut cfg = Config::default();
    cfg.face = Face::Word;
    cfg.show_seconds = false;
    cfg.alarms.push(Alarm {
        name: "Soon".to_string(),
        time: "10:05".to_string(),
        recurrence: Recurrence::Daily,
        start_date: "2026-08-01".to_string(),
        day_of_week: None,
        trigger_offset_min: 4,
        enabled: true,
    });
    // Rings from 10:01:00; at 10:00:50 that is 10 s away.
    assert_eq!(next_wake(&cfg, at("2026-08-17", 10, 0, 50, 0), false), 10_000);
}

#[test]
fn a_seconds_readout_wakes_once_a_second() {
    let mut cfg = Config::default();
    cfg.face = Face::Word;
    cfg.show_seconds = true;
    assert_eq!(next_wake(&cfg, at("2026-08-17", 10, 0, 0, 120), false), 880);
    assert_eq!(next_wake(&cfg, at("2026-08-17", 10, 0, 7, 0), false), 1000);
    assert_eq!(next_wake(&cfg, at("2026-08-17", 10, 0, 7, 999), false), 10);
}

#[test]
fn an_idle_clock_sleeps_until_the_display_changes() {
    let mut cfg = Config::default();
    cfg.face = Face::Word;
    cfg.show_seconds = false;
    assert_eq!(next_wake(&cfg, at("2026-08-17", 10, 0, 30, 0), false), 30_000);
    let epoch = Now { day: 719_163, ms_of_day: 0, epoch_ms: 0 };
    assert_eq!(next_wake(&cfg, epoch, false), 60_000);
}
