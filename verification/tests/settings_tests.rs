use tictock::config::{Config, Face};
use tictock::settings::{parse_bool, set_field, SetError};

#[test]
fn booleans_in_any_case() {
    assert!(matches!(parse_bool("YES"), Ok(true)));
    assert!(matches!(parse_bool("off"), Ok(false)));
    assert!(matches!(parse_bool("0"), Ok(false)));
    match parse_bool("Maybe") {
        Err(e) => assert_eq!(e.message(), "expected true/false, got 'maybe'"),
        Ok(_) => panic!("accepted"),
    }
}

#[test]
fn config_set_changes_one_setting() {
    let mut cfg = Config::default();
    assert!(set_field(&mut cfg, "face", "Analog").is_ok());
    assert_eq!(cfg.face, Face::Analog);
    assert!(set_field(&mut cfg, "hour12", "false").is_ok());
    assert!(!cfg.hour12);
    assert!(set_field(&mut cfg, "second_step", "120").is_ok());
    assert_eq!(cfg.second_step, 60);
    assert!(set_field(&mut cfg, "second_step", "0").is_ok());
    assert_eq!(cfg.second_step, 1);
    assert!(set_field(&mut cfg, "scale", "200").is_ok());
    assert_eq!(cfg.scale, 9);
    assert!(set_field(&mut cfg, "color", "#33ccff").is_ok());
    assert_eq!(cfg.color, "#33ccff");
    assert!(set_field(&mut cfg, "alarm", "07:30").is_ok());
    assert_eq!(cfg.alarm.as_deref(), Some("07:30"));
    assert!(set_field(&mut cfg, "alarm", "NONE").is_ok());
    assert_eq!(cfg.alarm, None);
    assert_eq!(cfg.face, Face::Analog);
}

#[test]
fn config_set_refusals() {
    let mut cfg = Config::default();
    let msg = |r: Result<(), SetError>| r.err().map(|e| e.message()).unwrap();
    assert_eq!(
        msg(set_field(&mut cfg, "face", "Clocky")),
        "unknown face 'clocky' (expected one of: digital, analog, binary, word, matrix, flip, waves, rings, roman, lcd, hourglass, blocks, cuckoo, radar, ship, grid, warp, snake)"
    );
    assert_eq!(msg(set_field(&mut cfg, "show_date", "sure")), "expected true/false, got 'sure'");
    assert_eq!(msg(set_field(&mut cfg, "alarm", "25:00")), "alarm must be in \"HH:MM\" 24-hour format (or \"none\" to disable)");
    assert_eq!(msg(set_field(&mut cfg, "second_step", "-5")), "second_step must be a number 1-60");
    assert_eq!(msg(set_field(&mut cfg, "scale", "300")), "scale must be 0 (auto) or 1-9");
    assert_eq!(
        msg(set_field(&mut cfg, "colour", "red")),
        "unknown key 'colour' (expected one of: face, hour12, show_seconds, show_date, blink_colon, tick_marks, ghost_segments, alarm, second_step, scale, color, accent_color)"
    );
    // Nothing changed.
    assert_eq!(cfg.face, Face::Digital);
    assert!(cfg.show_date);
    assert_eq!(cfg.scale, 0);
}
