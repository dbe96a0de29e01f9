use tictock::alarm::ActiveAlarm;
use tictock::config::{Alarm, Config, Face, Recurrence};
use tictock::keys::{dismiss_alarm, fitted_scale, main_key, manager_key, next_preset, picker_key, should_beep, Key};

fn weekly() -> Alarm {
    Alarm {
        name: "Gym".to_string(),
        time: "06:30".to_string(),
        recurrence: Recurrence::Weekly,
        start_date: "2026-08-17".to_string(),
        day_of_week: Some("Monday".to_string()),
        trigger_offset_min: 3,
        enabled: true,
    }
}

#[test]
fn arrows_cycle_faces_and_tab_opens_the_picker() {
    let mut cfg = Config::default();
    let step = main_key(&mut cfg, Key::Left, false, 3);
    assert_eq!(cfg.face, Face::Snake);
    assert!(step.needs_clear);
    main_key(&mut cfg, Key::Right, false, 3);
    main_key(&mut cfg, Key::Right, false, 3);
    assert_eq!(cfg.face, Face::Analog);
    let tab = main_key(&mut cfg, Key::Tab, false, 3);
    assert_eq!(tab.picker, Some(1));
    assert!(!tab.quit);
}

#[test]
fn quit_keys() {
    let mut cfg = Config::default();
    assert!(main_key(&mut cfg, Key::Char('q'), false, 3).quit);
    assert!(main_key(&mut cfg, Key::Esc, false, 3).quit);
    assert!(main_key(&mut cfg, Key::Char('c'), true, 3).quit);
    assert!(!main_key(&mut cfg, Key::Char('x'), false, 3).quit);
}

#[test]
fn size_keys_start_from_the_size_on_screen() {
    let mut cfg = Config::default();
    assert_eq!(cfg.scale, 0);
    main_key(&mut cfg, Key::Char('+'), false, 4);
    assert_eq!(cfg.scale, 5);
    main_key(&mut cfg, Key::Char('-'), false, 4);
    main_key(&mut cfg, Key::Char('-'), false, 4);
    assert_eq!(cfg.scale, 3);
    for _ in 0..10 {
        main_key(&mut cfg, Key::Char('='), false, 4);
    }
    assert_eq!(cfg.scale, 9);
    main_key(&mut cfg, Key::Char('0'), false, 4);
    assert_eq!(cfg.scale, 0);
    main_key(&mut cfg, Key::Char('-'), false, 1);
    assert_eq!(cfg.scale, 1);
}

#[test]
fn toggles_and_color_presets() {
    let mut cfg = Config::default();
    main_key(&mut cfg, Key::Char('t'), false, 1);
    assert!(!cfg.hour12);
    main_key(&mut cfg, Key::Char('s'), false, 1);
    assert!(!cfg.show_seconds);
    main_key(&mut cfg, Key::Char('c'), false, 1);
    assert_eq!(cfg.color, "#10b981");
    assert_eq!(next_preset("  #FFFFFF "), "#38d9e8");
    assert_eq!(next_preset("green"), "#10b981");
    let a = main_key(&mut cfg, Key::Char('a'), false, 1);
    assert_eq!(a.manager, Some(0));
}

#[test]
fn picker_keys_move_and_choose() {
    assert_eq!(picker_key(0, Key::Right).picker, Some(1));
    assert_eq!(picker_key(0, Key::Left).picker, Some(0));
    assert_eq!(picker_key(0, Key::Down).picker, Some(3));
    assert_eq!(picker_key(16, Key::Down).picker, Some(16));
    assert_eq!(picker_key(15, Key::Right).picker, Some(16));
    assert_eq!(picker_key(17, Key::Right).picker, Some(17));
    let enter = picker_key(10, Key::Enter);
    assert_eq!(enter.chosen, Some(Face::Hourglass));
    assert_eq!(enter.picker, None);
    let esc = picker_key(10, Key::Char('q'));
    assert_eq!(esc.picker, None);
    assert_eq!(esc.chosen, None);
}

#[test]
fn manager_adds_edits_and_deletes() {
    let mut cfg = Config::default();
    let add = manager_key(&mut cfg, 0, 0, Key::Char('a'), "2026-08-17");
    assert_eq!(cfg.alarms.len(), 1);
    assert_eq!(cfg.alarms[0].time, "08:00");
    assert_eq!(cfg.alarms[0].start_date, "2026-08-17");
    assert_eq!(add.manager, Some(0));
    assert!(add.save);
    // Column 1 is the hour.
    let up = manager_key(&mut cfg, 0, 1, Key::Char('+'), "2026-08-17");
    assert!(up.save);
    assert_eq!(cfg.alarms[0].time, "09:00");
    manager_key(&mut cfg, 0, 2, Key::Char('-'), "2026-08-17");
    // Minutes wrap within the hour.
    assert_eq!(cfg.alarms[0].time, "09:59");
    // Space on the status column toggles it.
    manager_key(&mut cfg, 0, 0, Key::Char(' '), "2026-08-17");
    assert!(!cfg.alarms[0].enabled);
    // Enter on the name column asks for a name.
    let name = manager_key(&mut cfg, 0, 6, Key::Enter, "2026-08-17");
    assert_eq!(name.edit_name, Some(0));
    let del = manager_key(&mut cfg, 0, 3, Key::Char('d'), "2026-08-17");
    assert!(cfg.alarms.is_empty());
    assert_eq!(del.manager, Some(0));
    assert_eq!(del.selected_col, 0);
    let back = manager_key(&mut cfg, 0, 0, Key::Esc, "2026-08-17");
    assert_eq!(back.manager, None);
}

#[test]
fn manager_columns_wrap_and_rows_clamp() {
    let mut cfg = Config::default();
    cfg.alarms.push(weekly());
    let mut daily = weekly();
    daily.recurrence = Recurrence::Daily;
    daily.day_of_week = None;
    cfg.alarms.push(daily);
    // A weekly alarm has seven columns; a daily one six.
    assert_eq!(manager_key(&mut cfg, 0, 0, Key::Left, "2026-08-17").selected_col, 6);
    assert_eq!(manager_key(&mut cfg, 0, 6, Key::Right, "2026-08-17").selected_col, 0);
    let down = manager_key(&mut cfg, 0, 6, Key::Down, "2026-08-17");
    assert_eq!(down.manager, Some(1));
    assert_eq!(down.selected_col, 5);
    let down_again = manager_key(&mut cfg, 1, 2, Key::Down, "2026-08-17");
    assert_eq!(down_again.manager, Some(1));
    let up = manager_key(&mut cfg, 0, 2, Key::Up, "2026-08-17");
    assert_eq!(up.manager, Some(0));
    // The weekday column steps through the week.
    manager_key(&mut cfg, 0, 4, Key::Char('-'), "2026-08-17");
    assert_eq!(cfg.alarms[0].day_of_week.as_deref(), Some("Sunday"));
    // The recurrence column cycles.
    manager_key(&mut cfg, 1, 3, Key::Char('+'), "2026-08-17");
    assert_eq!(cfg.alarms[1].recurrence, Recurrence::Weekly);
    assert_eq!(cfg.alarms[1].day_of_week.as_deref(), Some("Monday"));
}

#[test]
fn dismissing_switches_off_a_one_off_alarm() {
    let mut cfg = Config::default();
    let mut once = weekly();
    once.recurrence = Recurrence::Once;
    cfg.alarms.push(once);
    cfg.alarms.push(weekly());
    let mut dismissed = Vec::new();
    let save = dismiss_alarm(&mut cfg, Some(ActiveAlarm { index: 0, candidate_date: 739_000 }), &mut dismissed);
    assert!(save);
    assert!(!cfg.alarms[0].enabled);
    assert_eq!(dismissed, vec![(0, 739_000)]);
    let save2 = dismiss_alarm(&mut cfg, Some(ActiveAlarm { index: 1, candidate_date: 739_001 }), &mut dismissed);
    assert!(!save2);
    assert!(cfg.alarms[1].enabled);
    assert_eq!(dismissed.len(), 2);
    assert!(!dismiss_alarm(&mut cfg, None, &mut dismissed));
}

#[test]
fn bell_rings_on_even_seconds_once() {
    assert!(should_beep(true, 10, None));
    assert!(!should_beep(true, 10, Some(10)));
    assert!(should_beep(true, 12, Some(10)));
    assert!(!should_beep(true, 11, None));
    assert!(!should_beep(false, 10, None));
}

#[test]
fn auto_size_follows_the_terminal() {
    // 22 rows leave 20 for the digits; 80 columns fit unit 2.
    assert_eq!(fitted_scale("12:34", false, false, true, 80, 22), 2);
    // A suffix and a date take two rows each.
    assert_eq!(fitted_scale("12:34", true, true, true, 80, 26), 2);
    // Sized as "12:34:00" with seconds hidden.
    assert_eq!(fitted_scale("12:34", false, false, false, 80, 22), 1);
    // Nothing fits: 1.
    assert_eq!(fitted_scale("12:34", false, false, true, 10, 12), 1);
    // Never past the largest size.
    assert_eq!(fitted_scale("1", false, false, true, 60_000, 60_000), 9);
}
