use tictock::config::{Config, Face, Weekday, Alarm, Recurrence, FACE_COUNT};

#[test]
fn test_face_deserialization_fallback() {
    // 1. Valid face variant -> Should deserialize correctly
    assert_eq!(Face::from_name("waves"), Face::Waves);

    // 2. Unknown/obsolete face variant -> Should fallback to Digital
    assert_eq!(Face::from_name("obsolete_or_typo_face"), Face::Digital);
}

#[test]
fn resolve_alarm_rejects_invalid_clock_times() {
    let mut cfg = Config::default();
    cfg.alarm = Some("23:59".to_string());
    assert_eq!(cfg.resolve_alarm().as_deref(), Some("23:59"));

    cfg.alarm = Some("99:99".to_string());
    assert_eq!(cfg.resolve_alarm(), None);
}

#[test]
fn resolve_alarm_ignores_none_and_empty() {
    let mut cfg = Config::default();
    assert_eq!(cfg.resolve_alarm(), None);
    cfg.alarm = Some("NoNe".to_string());
    assert_eq!(cfg.resolve_alarm(), None);
    cfg.alarm = Some(String::new());
    assert_eq!(cfg.resolve_alarm(), None);
}

#[test]
fn faces_cycle_both_ways() {
    assert_eq!(Face::Digital.next(), Face::Analog);
    assert_eq!(Face::Snake.next(), Face::Digital);
    assert_eq!(Face::Digital.prev(), Face::Snake);
    for i in 0..FACE_COUNT {
        let f = Face::from_index(i);
        assert_eq!(f.next().prev(), f);
        assert_eq!(f.prev().next(), f);
        assert_eq!(f.index(), i);
        assert_eq!(Face::from_name(f.name()), f);
    }
    let mut f = Face::Grid;
    for _ in 0..FACE_COUNT {
        f = f.next();
    }
    assert_eq!(f, Face::Grid);
}

#[test]
fn face_names_ignore_ascii_case() {
    assert_eq!(Face::parse_name("HourGlass"), Some(Face::Hourglass));
    assert_eq!(Face::parse_name("lcd "), None);
    assert_eq!(Face::from_name("SNAKE"), Face::Snake);
}

#[test]
fn defaults_match_the_documented_config() {
    let c = Config::default();
    assert_eq!(c.face, Face::Digital);
    assert!(c.hour12 && c.show_seconds && c.show_date && c.blink_colon && c.tick_marks);
    assert_eq!(c.scale, 0);
    assert_eq!(c.color, "#38d9e8");
    assert_eq!(c.accent_color, "none");
    assert!(!c.ghost_segments);
    assert_eq!(c.second_step, 1);
    assert!(c.alarm.is_none() && c.alarms.is_empty());
    let a = Alarm::default();
    assert_eq!(a.name, "Alarm");
    assert_eq!(a.time, "08:00");
    assert_eq!(a.recurrence, Recurrence::Once);
    assert_eq!(a.trigger_offset_min, 3);
    assert!(a.enabled);
}

#[test]
fn scale_and_seconds_rounding() {
    let mut c = Config::default();
    assert_eq!(c.resolve_scale(0), 1);
    assert_eq!(c.resolve_scale(7), 7);
    assert!(c.is_auto_scale());
    c.scale = 12;
    assert_eq!(c.resolve_scale(3), 9);
    c.scale = 4;
    assert_eq!(c.resolve_scale(3), 4);
    assert!(!c.is_auto_scale());

    assert_eq!(c.step_second(37), 37);
    c.second_step = 5;
    assert_eq!(c.step_second(37), 35);
    c.second_step = 0;
    assert_eq!(c.step_second(37), 37);
    c.second_step = 600;
    assert_eq!(c.step_second(59), 0);
}

#[test]
fn accent_falls_back_to_primary() {
    let mut c = Config::default();
    assert_eq!(c.resolve_accent(), "#38d9e8");
    c.accent_color = "NONE".to_string();
    assert_eq!(c.resolve_accent(), "#38d9e8");
    c.accent_color = String::new();
    assert_eq!(c.resolve_accent(), "#38d9e8");
    c.accent_color = "red".to_string();
    assert_eq!(c.resolve_accent(), "red");
}

#[test]
fn weekday_of_alarm() {
    let mut a = Alarm::default();
    a.start_date = "2026-08-22".to_string(); // a Saturday
    assert_eq!(a.get_day_of_week(), Weekday::Sat);
    a.day_of_week = Some("thu".to_string());
    assert_eq!(a.get_day_of_week(), Weekday::Thu);
    a.day_of_week = Some("Funday".to_string());
    assert_eq!(a.get_day_of_week(), Weekday::Mon);
    a.day_of_week = None;
    a.start_date = "not a date".to_string();
    assert_eq!(a.get_day_of_week(), Weekday::Mon);
    assert_eq!(a.get_time(), Some((8, 0)));
    assert_eq!(a.get_start_date(), None);
}
