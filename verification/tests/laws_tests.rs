use tictock::alarm::{active_alarm_still_valid, check_active_alarm, duration_until_next_trigger};
use chrono::Datelike;
use tictock::calendar::Now;
use tictock::config::{Alarm, Config, Face, Recurrence};
use tictock::keys::{main_key, Key};
use tictock::manager::{adjust_field, AlarmField};

fn at(date: &str, h: u32, m: u32, s: u32) -> Now {
    let d = chrono::NaiveDate::parse_from_str(date, "%Y-%m-%d").unwrap().num_days_from_ce();
    let ms_of_day = ((h * 60 + m) * 60 + s) * 1000;
    Now { day: d, ms_of_day, epoch_ms: (d as i64 - 719_163) * 86_400_000 + ms_of_day as i64 }
}

fn daily(time: &str) -> Alarm {
    Alarm {
        name: "A".to_string(),
        time: time.to_string(),
        recurrence: Recurrence::Daily,
        start_date: "2026-08-01".to_string(),
        day_of_week: None,
        trigger_offset_min: 2,
        enabled: true,
    }
}

#[test]
fn every_face_is_one_step_from_its_neighbours() {
    let mut f = Face::Lcd;
    for _ in 0..18 {
        assert_eq!(f.next().prev(), f);
        assert_eq!(f.prev().next(), f);
        f = f.next();
    }
    assert_eq!(f, Face::Lcd);
    let mut seen = Vec::new();
    let mut g = Face::Digital;
    for _ in 0..18 {
        assert!(!seen.contains(&g));
        seen.push(g);
        g = g.next();
    }
}

#[test]
fn every_face_name_reads_back() {
    let mut f = Face::Digital;
    for _ in 0..18 {
        assert_eq!(Face::parse_name(f.name()), Some(f));
        assert_eq!(Face::parse_name(&f.name().to_uppercase()), Some(f));
        f = f.next();
    }
}

#[test]
fn a_firing_alarm_stays_valid_until_dismissed() {
    let mut cfg = Config::default();
    cfg.alarms.push(daily("09:00"));
    let now = at("2026-08-17", 8, 59, 0);
    let active = check_active_alarm(&cfg, now, &[]).unwrap();
    assert!(active_alarm_still_valid(&cfg, &active, now));
    let dismissed = vec![(active.index, active.candidate_date)];
    assert!(check_active_alarm(&cfg, now, &dismissed).is_none());
}

#[test]
fn the_next_trigger_is_in_the_future() {
    let mut cfg = Config::default();
    cfg.alarms.push(daily("09:00"));
    let d = duration_until_next_trigger(&cfg, at("2026-08-17", 8, 57, 59)).unwrap();
    assert_eq!(d, 1000);
    let d2 = duration_until_next_trigger(&cfg, at("2026-08-17", 8, 58, 0)).unwrap();
    assert!(d2 > 0);
}

#[test]
fn plus_then_minus_restores_a_field() {
    let mut a = daily("23:59");
    a.recurrence = Recurrence::Weekend;
    let before = a.clone();
    for field in [AlarmField::Hour, AlarmField::Minute, AlarmField::Recurrence] {
        adjust_field(&mut a, field, 1);
        adjust_field(&mut a, field, -1);
    }
    assert_eq!(a.time, before.time);
    assert_eq!(a.recurrence, before.recurrence);
    adjust_field(&mut a, AlarmField::Hour, 1);
    assert_eq!(a.time, "00:59");
}

#[test]
fn grow_then_shrink_restores_the_size() {
    let mut cfg = Config::default();
    cfg.scale = 4;
    main_key(&mut cfg, Key::Char('+'), false, 1);
    main_key(&mut cfg, Key::Char('-'), false, 1);
    assert_eq!(cfg.scale, 4);
}

#[test]
fn seconds_round_down_to_the_step() {
    let mut cfg = Config::default();
    cfg.second_step = 5;
    for s in 0..60 {
        let r = cfg.step_second(s);
        assert_eq!(r % 5, 0);
        assert!(r <= s && s < r + 5);
    }
    cfg.second_step = 0;
    assert_eq!(cfg.step_second(37), 37);
    cfg.second_step = 100;
    assert_eq!(cfg.step_second(37), 0);
}
