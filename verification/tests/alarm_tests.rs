use tictock::alarm::{
    active_alarm_still_valid, check_active_alarm, duration_until_next_trigger, legacy_alarm_active,
    next_upcoming_alarm,
};
use chrono::Datelike;
use tictock::calendar::Now;
use tictock::config::{Alarm, Config, Recurrence};

fn day(s: &str) -> i32 {
    chrono::NaiveDate::parse_from_str(s, "%Y-%m-%d").unwrap().num_days_from_ce()
}

/// Local wall-clock time on the given date.
fn at(date: &str, h: u32, m: u32, s: u32) -> Now {
    let d = day(date);
    let ms_of_day = ((h * 60 + m) * 60 + s) * 1000;
    // The epoch offset plays no part in alarm timing; keep it consistent anyway.
    let epoch_ms = (d as i64 - 719_163) * 86_400_000 + ms_of_day as i64;
    Now { day: d, ms_of_day, epoch_ms }
}

fn alarm(name: &str, time: &str, recurrence: Recurrence, start: &str, dow: Option<&str>, offset: u32) -> Alarm {
    Alarm {
        name: name.to_string(),
        time: time.to_string(),
        recurrence,
        start_date: start.to_string(),
        day_of_week: dow.map(|d| d.to_string()),
        trigger_offset_min: offset,
        enabled: true,
    }
}

#[test]
fn test_check_active_alarm_once() {
    let mut cfg = Config::default();
    cfg.alarms.push(alarm("Once Alarm", "08:00", Recurrence::Once, "2026-08-17", None, 1));

    // 1. Right on the triggering time (1 min before scheduled)
    let now = at("2026-08-17", 7, 59, 0);
    let active = check_active_alarm(&cfg, now, &[]);
    assert!(active.is_some());
    let active = active.unwrap();
    assert_eq!(active.index, 0);
    assert_eq!(active.candidate_date, day("2026-08-17"));

    // 2. Already dismissed
    let active_dismissed = check_active_alarm(&cfg, now, &[(0, day("2026-08-17"))]);
    assert!(active_dismissed.is_none());

    // 3. Before triggering window
    let now_before = at("2026-08-17", 7, 58, 59);
    assert!(check_active_alarm(&cfg, now_before, &[]).is_none());

    // 4. After triggering window (5 min after scheduled time)
    let now_after = at("2026-08-17", 8, 5, 0);
    assert!(check_active_alarm(&cfg, now_after, &[]).is_none());
}

#[test]
fn test_active_alarm_stays_valid_for_configured_offset() {
    let mut cfg = Config::default();
    cfg.alarms.push(alarm("Early warning", "08:00", Recurrence::Once, "2026-08-17", None, 3));

    let now = at("2026-08-17", 7, 57, 30);
    let active = check_active_alarm(&cfg, now, &[]).unwrap();
    assert!(active_alarm_still_valid(&cfg, &active, now));
}

#[test]
fn test_legacy_alarm_enters_active_state_only_in_matching_minute() {
    let mut cfg = Config::default();
    cfg.alarm = Some("08:00".to_string());

    let during = at("2026-08-17", 8, 0, 30);
    let after = at("2026-08-17", 8, 1, 0);
    assert!(legacy_alarm_active(&cfg, during));
    assert!(!legacy_alarm_active(&cfg, after));
}

#[test]
fn test_check_active_alarm_daily() {
    let mut cfg = Config::default();
    cfg.alarms.push(alarm("Daily Alarm", "12:30", Recurrence::Daily, "2026-08-15", None, 1));

    let now1 = at("2026-08-15", 12, 29, 0);
    assert!(check_active_alarm(&cfg, now1, &[]).is_some());

    let now2 = at("2026-08-20", 12, 29, 30);
    assert!(check_active_alarm(&cfg, now2, &[]).is_some());

    let now_before = at("2026-08-14", 12, 29, 0);
    assert!(check_active_alarm(&cfg, now_before, &[]).is_none());
}

#[test]
fn test_check_active_alarm_weekday_weekend() {
    let mut cfg = Config::default();
    cfg.alarms.push(alarm("Weekday", "09:00", Recurrence::Weekday, "2026-08-17", None, 1));
    cfg.alarms.push(alarm("Weekend", "10:00", Recurrence::Weekend, "2026-08-17", None, 1));

    // 2026-08-17 is Monday. Weekday alarm should trigger.
    let mon = at("2026-08-17", 8, 59, 0);
    let act = check_active_alarm(&cfg, mon, &[]);
    assert!(act.is_some());
    assert_eq!(act.unwrap().index, 0);

    // Monday 10:00 weekend alarm should NOT trigger
    let mon_we = at("2026-08-17", 9, 59, 0);
    assert!(check_active_alarm(&cfg, mon_we, &[]).is_none());

    // 2026-08-22 is Saturday. Weekend alarm should trigger.
    let sat = at("2026-08-22", 9, 59, 0);
    let act = check_active_alarm(&cfg, sat, &[]);
    assert!(act.is_some());
    assert_eq!(act.unwrap().index, 1);
}

#[test]
fn test_check_active_alarm_weekly_custom_day() {
    let mut cfg = Config::default();
    cfg.alarms.push(alarm("Weekly Mon", "09:00", Recurrence::Weekly, "2026-08-17", Some("Monday"), 1));

    let mon = at("2026-08-17", 8, 59, 0);
    assert!(check_active_alarm(&cfg, mon, &[]).is_some());

    let tue = at("2026-08-18", 8, 59, 0);
    assert!(check_active_alarm(&cfg, tue, &[]).is_none());
}

#[test]
fn test_duration_until_next_trigger() {
    let mut cfg = Config::default();
    cfg.alarms.push(alarm("Once Alarm", "08:00", Recurrence::Once, "2026-08-17", None, 1));

    // 10 minutes before trigger (which is at 07:59:00)
    let now = at("2026-08-17", 7, 49, 0);
    let dur = duration_until_next_trigger(&cfg, now);
    assert!(dur.is_some());
    assert_eq!(dur.unwrap(), 600_000);
}

#[test]
fn test_next_upcoming_alarm_formatting() {
    let mut cfg = Config::default();
    cfg.alarms.push(alarm("My Alarm", "15:00", Recurrence::Weekly, "2026-08-17", Some("Tuesday"), 3));

    // Monday 15:00. The next trigger should be Tuesday 15:00.
    let now = at("2026-08-17", 15, 0, 0);
    let summary = next_upcoming_alarm(&cfg, now);
    assert!(summary.is_some());
    assert_eq!(summary.unwrap(), "Alarm: Tue 15:00 (My Alarm) [weekly]");
}

#[test]
fn ringing_tomorrow_reports_tomorrows_date() {
    let mut cfg = Config::default();
    // 00:02 tomorrow with a 5-minute warning starts ringing at 23:57 today.
    cfg.alarms.push(alarm("Midnight", "00:02", Recurrence::Daily, "2026-08-01", None, 5));
    let now = at("2026-08-17", 23, 58, 0);
    let act = check_active_alarm(&cfg, now, &[]).unwrap();
    assert_eq!(act.candidate_date, day("2026-08-18"));
    // Dismissing tomorrow's occurrence silences it.
    assert!(check_active_alarm(&cfg, now, &[(0, day("2026-08-18"))]).is_none());
}

#[test]
fn disabled_or_unparseable_alarms_never_ring() {
    let mut cfg = Config::default();
    let mut a = alarm("Off", "08:00", Recurrence::Daily, "2026-08-01", None, 1);
    a.enabled = false;
    cfg.alarms.push(a);
    cfg.alarms.push(alarm("Bad time", "25:00", Recurrence::Daily, "2026-08-01", None, 1));
    cfg.alarms.push(alarm("Bad date", "08:00", Recurrence::Daily, "tomorrow", None, 1));
    let now = at("2026-08-17", 7, 59, 30);
    assert!(check_active_alarm(&cfg, now, &[]).is_none());
    assert!(duration_until_next_trigger(&cfg, at("2026-08-17", 6, 0, 0)).is_none());
    assert!(next_upcoming_alarm(&cfg, now).is_none());
}

#[test]
fn biweekly_rings_every_fourteen_days() {
    let mut cfg = Config::default();
    cfg.alarms.push(alarm("Payday", "09:00", Recurrence::BiWeekly, "2026-08-03", None, 0));
    assert!(check_active_alarm(&cfg, at("2026-08-17", 9, 0, 0), &[]).is_some());
    assert!(check_active_alarm(&cfg, at("2026-08-10", 9, 0, 0), &[]).is_none());
    assert!(check_active_alarm(&cfg, at("2026-08-31", 9, 4, 59), &[]).is_some());
    assert!(check_active_alarm(&cfg, at("2026-08-31", 9, 5, 0), &[]).is_none());
}

#[test]
fn soonest_of_several_triggers_wins() {
    let mut cfg = Config::default();
    cfg.alarms.push(alarm("Late", "18:00", Recurrence::Daily, "2026-08-01", None, 0));
    cfg.alarms.push(alarm("Soon", "09:00", Recurrence::Daily, "2026-08-01", None, 10));
    // 08:00: Soon starts ringing at 08:50, in 50 minutes.
    let now = at("2026-08-17", 8, 0, 0);
    assert_eq!(duration_until_next_trigger(&cfg, now), Some(50 * 60_000));
    assert_eq!(next_upcoming_alarm(&cfg, now).unwrap(), "Alarm: Mon 09:00 (Soon) [daily]");
}

#[test]
fn upcoming_tie_goes_to_the_first_alarm() {
    let mut cfg = Config::default();
    cfg.alarms.push(alarm("First", "09:00", Recurrence::Daily, "2026-08-01", None, 0));
    cfg.alarms.push(alarm("Second", "09:00", Recurrence::Weekday, "2026-08-01", None, 0));
    let now = at("2026-08-17", 8, 0, 0);
    assert_eq!(next_upcoming_alarm(&cfg, now).unwrap(), "Alarm: Mon 09:00 (First) [daily]");
}
