use tictock::cli::{list_lines, run_alarm, AlarmAction};
use tictock::config::{Config, Recurrence};

fn add(cfg: &mut Config, time: &str, start: Option<&str>) -> Result<Vec<String>, String> {
    run_alarm(
        AlarmAction::Add {
            time: time.to_string(),
            name: "Tea".to_string(),
            recurrence: Recurrence::Daily,
            start_date: start.map(|s| s.to_string()),
        },
        cfg,
        "2026-08-17",
    )
    .map(|r| r.lines)
    .map_err(|e| e.message)
}

#[test]
fn adding_checks_time_and_date() {
    let mut cfg = Config::default();
    assert_eq!(add(&mut cfg, "16:00", None), Ok(vec!["Alarm added successfully.".to_string()]));
    assert_eq!(cfg.alarms[0].start_date, "2026-08-17");
    assert_eq!(cfg.alarms[0].trigger_offset_min, 3);
    assert_eq!(add(&mut cfg, "7:00", None), Err("Time must be in \"HH:MM\" 24-hour format.".to_string()));
    assert_eq!(add(&mut cfg, "12:3:", None), Err("Time must be in \"HH:MM\" format.".to_string()));
    assert_eq!(add(&mut cfg, "ab:00", None), Err("Invalid hour".to_string()));
    assert_eq!(add(&mut cfg, "10:xx", None), Err("Invalid minute".to_string()));
    assert_eq!(add(&mut cfg, "24:00", None), Err("Hour must be 0-23 and minute 0-59.".to_string()));
    assert_eq!(add(&mut cfg, "10:00", Some("17/08/2026")), Err("Start date must be in \"YYYY-MM-DD\" format.".to_string()));
    assert_eq!(add(&mut cfg, "10:00", Some("2026-09-01")), Ok(vec!["Alarm added successfully.".to_string()]));
    assert_eq!(cfg.alarms.len(), 2);
}

#[test]
fn listing_enabling_and_removing() {
    let mut cfg = Config::default();
    assert_eq!(list_lines(&cfg), vec!["No alarms configured.".to_string()]);
    add(&mut cfg, "16:00", None).unwrap();
    let lines = list_lines(&cfg);
    assert_eq!(lines.len(), 3);
    assert_eq!(lines[0], "ID    Name            Time       Recurrence   Start Date   Status  ");
    assert_eq!(lines[1], "-".repeat(65));
    assert_eq!(lines[2], "0     Tea             16:00      daily        2026-08-17   Enabled ");
    let r = run_alarm(AlarmAction::Disable { index: 0 }, &mut cfg, "2026-08-17").unwrap();
    assert!(r.save);
    assert_eq!(r.lines, vec!["Alarm 0 disabled.".to_string()]);
    assert!(!cfg.alarms[0].enabled);
    let e = run_alarm(AlarmAction::Enable { index: 3 }, &mut cfg, "2026-08-17").err().unwrap();
    assert_eq!(e.message, "Invalid alarm index: 3.");
    let r = run_alarm(AlarmAction::Remove { index: 0 }, &mut cfg, "2026-08-17").unwrap();
    assert_eq!(r.lines, vec!["Alarm removed.".to_string()]);
    assert!(cfg.alarms.is_empty());
    add(&mut cfg, "16:00", None).unwrap();
    let r = run_alarm(AlarmAction::Clear, &mut cfg, "2026-08-17").unwrap();
    assert_eq!(r.lines, vec!["All alarms cleared.".to_string()]);
    assert!(cfg.alarms.is_empty());
}

#[test]
fn a_time_is_two_digits_a_colon_and_two_digits() {
    let mut cfg = Config::default();
    assert_eq!(add(&mut cfg, "+1:30", None), Err("Invalid hour".to_string()));
    assert_eq!(add(&mut cfg, "12:+3", None), Err("Invalid minute".to_string()));
    assert_eq!(add(&mut cfg, "1:+30", None), Err("Time must be in \"HH:MM\" format.".to_string()));
    assert_eq!(add(&mut cfg, "1:059", None), Err("Time must be in \"HH:MM\" format.".to_string()));
    assert_eq!(add(&mut cfg, "-1:30", None), Err("Invalid hour".to_string()));
    assert!(cfg.alarms.is_empty());
    assert_eq!(add(&mut cfg, "00:00", None), Ok(vec!["Alarm added successfully.".to_string()]));
    assert_eq!(add(&mut cfg, "23:59", None), Ok(vec!["Alarm added successfully.".to_string()]));
    assert_eq!(cfg.alarms.len(), 2);
}
