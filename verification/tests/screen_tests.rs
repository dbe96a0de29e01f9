use tictock::alarm_screen::{manager_row, rows_shown, separator, Style};
use tictock::color::Color;
use tictock::compact::{compact_card, Tint};
use chrono::Datelike;
use tictock::calendar::Now;
use tictock::config::{Alarm, Face, Recurrence};
use tictock::keys::PickerStep;
use tictock::screen::{
    shows_drawn,
    block_fits, card_at, card_origin, center_x, centered, clip_texts, hint_line, picker_click, picker_layout, place_block,
    status_line,
};

fn now_on(date: &str) -> Now {
    let d = chrono::NaiveDate::parse_from_str(date, "%Y-%m-%d").unwrap().num_days_from_ce();
    Now { day: d, ms_of_day: 10 * 3_600_000, epoch_ms: (d as i64 - 719_163) * 86_400_000 + 36_000_000 }
}

#[test]
fn picker_layout_on_a_standard_terminal() {
    let l = picker_layout(80, 24);
    // (76 - 4) / 3 = 24 wide; (20 / 6) - 1 = 2 rows, raised to the minimum of 6.
    assert_eq!(l.box_w, 24);
    assert_eq!(l.box_h, 6);
    assert_eq!(l.cell_w, 22);
    assert_eq!(l.cell_h, 4);
    assert_eq!(l.total_w, 76);
    assert_eq!(l.total_h, 42);
    assert_eq!(l.start_col, 2);
    assert_eq!(l.start_row, 0);
}

#[test]
fn picker_layout_caps_card_size_on_a_huge_terminal() {
    let l = picker_layout(300, 120);
    assert_eq!(l.box_w, 46);
    assert_eq!(l.box_h, 14);
    assert_eq!(l.total_w, 142);
    assert_eq!(l.start_col, (300 - 142) / 2);
    assert_eq!(l.start_row, (120 - 91) / 2);
}

#[test]
fn clicks_land_on_the_card_under_them() {
    let l = picker_layout(80, 24);
    assert_eq!(card_origin(l, 0), (2, 0));
    assert_eq!(card_origin(l, 4), (2 + 26, 7));
    assert_eq!(card_at(l, 2, 0), Some(0));
    assert_eq!(card_at(l, 30, 8), Some(4));
    // The label row under a card belongs to it.
    assert_eq!(card_at(l, 2, 6), Some(0));
    // The gap between two cards belongs to neither.
    assert_eq!(card_at(l, 26, 0), None);
    assert_eq!(card_at(l, 0, 0), None);
}

#[test]
fn clicking_the_selected_card_picks_it() {
    let l = picker_layout(80, 24);
    let PickerStep { picker, chosen, needs_clear } = picker_click(4, l, 30, 8);
    assert_eq!(picker, None);
    assert_eq!(chosen, Some(Face::Matrix));
    assert!(needs_clear);
    let step = picker_click(0, l, 30, 8);
    assert_eq!(step.picker, Some(4));
    assert_eq!(step.chosen, None);
    let miss = picker_click(3, l, 0, 0);
    assert_eq!(miss.picker, Some(3));
}

#[test]
fn hint_bar_drops_trailing_hints_when_narrow() {
    let wide = hint_line(100);
    assert_eq!(wide, "\u{2190}\u{2192} face  \u{b7}  tab picker  \u{b7}  c color  \u{b7}  t 12/24h  \u{b7}  +/- size  \u{b7}  a alarms  \u{b7}  q quit");
    let narrow = hint_line(80);
    assert_eq!(narrow, "\u{2190}\u{2192} face \u{b7} tab picker \u{b7} c color \u{b7} t 12/24h \u{b7} +/- size \u{b7} a alarms \u{b7} q quit");
    assert_eq!(hint_line(40), "\u{2190}\u{2192} face \u{b7} tab picker \u{b7} c color");
    assert_eq!(hint_line(3), "\u{2190}\u{2192} face");
}

#[test]
fn status_line_fills_the_row_and_ends_with_the_spinner() {
    let s = status_line(100, 0);
    assert_eq!(s.chars().count(), 100);
    assert!(s.ends_with('|'));
    assert!(status_line(100, 300).ends_with('/'));
    assert!(status_line(100, 600).ends_with('-'));
    assert!(status_line(100, 900).ends_with('\\'));
    assert!(s.starts_with("        "));
    // Exactly as wide as the text: no room for the spinner.
    let exact = status_line(7, 0);
    assert_eq!(exact, "\u{2190}\u{2192} face");
}

#[test]
fn blocks_are_centered_line_by_line() {
    let p = place_block(20, 10, &vec![4, 8, 6]);
    assert_eq!(p.shown, 3);
    assert_eq!(p.start_row, 3);
    // The block is 8 wide and starts at column 6; each line is centered in it.
    assert_eq!(p.lefts, vec![8, 6, 7]);
    let tall = place_block(5, 2, &vec![9, 1, 1]);
    assert_eq!(tall.shown, 2);
    assert_eq!(tall.start_row, 0);
    assert_eq!(tall.lefts, vec![0, 2]);
}

#[test]
fn clipping_stops_when_the_room_runs_out() {
    let texts = vec!["abc".to_string(), "defg".to_string(), "h".to_string()];
    assert_eq!(clip_texts(&texts, 5), vec!["abc".to_string(), "de".to_string()]);
    assert_eq!(clip_texts(&texts, 10), texts);
    assert!(clip_texts(&texts, 0).is_empty());
}

#[test]
fn centered_text_pads_both_sides() {
    assert_eq!(centered("abc", 8), Some("  abc   ".to_string()));
    assert_eq!(centered("abcdefgh", 8), None);
    assert_eq!(center_x(80, 21), 29);
    assert_eq!(center_x(10, 21), 0);
}

fn sample_alarm() -> Alarm {
    Alarm {
        name: "Wake".to_string(),
        time: "07:05".to_string(),
        recurrence: Recurrence::Weekly,
        start_date: "2026-08-17".to_string(),
        day_of_week: Some("Friday".to_string()),
        trigger_offset_min: 5,
        enabled: true,
    }
}

#[test]
fn alarm_row_shows_every_column() {
    let a = sample_alarm();
    let accent = Color::Cyan;
    let row = manager_row(&a, true, 1, accent, 80);
    let texts: Vec<&str> = row.pieces.iter().map(|p| p.text.as_str()).collect();
    assert_eq!(
        texts,
        vec![">  ", "[ ON ]", "  ", "07", ":", "05", "  ", "weekly    ", "  ", "Friday      ", "  ", " 5m before  ", "  ", "Wake"]
    );
    // Line length 44 + 4 (name) + 14 (detail) = 62; (80 - 62) / 2 = 9.
    assert_eq!(row.x, 9);
    // The hour has the cursor.
    assert_eq!(row.pieces[3].style, Style { fg: Color::Black, bg: Some(accent) });
    assert_eq!(row.pieces[5].style, Style { fg: Color::White, bg: None });
    assert_eq!(row.pieces[1].style, Style { fg: Color::Green, bg: None });
}

#[test]
fn alarm_row_unselected_and_disabled() {
    let mut a = sample_alarm();
    a.enabled = false;
    a.recurrence = Recurrence::Daily;
    a.trigger_offset_min = 0;
    a.time = "bad".to_string();
    let row = manager_row(&a, false, 0, Color::Cyan, 40);
    let texts: Vec<&str> = row.pieces.iter().map(|p| p.text.as_str()).collect();
    assert_eq!(texts, vec!["   ", "[OFF]", "  ", "00", ":", "00", "  ", "daily     ", "  ", "At Event    ", "  ", "Wake"]);
    assert_eq!(row.pieces[0].style, Style { fg: Color::DarkGrey, bg: None });
    assert_eq!(row.pieces[1].style, Style { fg: Color::Red, bg: None });
    assert_eq!(row.pieces[11].style, Style { fg: Color::DarkGrey, bg: None });
    assert_eq!(row.x, 0);
}

#[test]
fn focused_status_and_name_are_marked() {
    let a = sample_alarm();
    let on_status = manager_row(&a, true, 0, Color::Blue, 80);
    assert_eq!(on_status.pieces[1].style, Style { fg: Color::Black, bg: Some(Color::Green) });
    let on_name = manager_row(&a, true, 6, Color::Blue, 80);
    assert_eq!(on_name.pieces[13].style, Style { fg: Color::Black, bg: Some(Color::Blue) });
    let offset = manager_row(&a, true, 5, Color::Blue, 80);
    assert_eq!(offset.pieces[11].style, Style { fg: Color::Black, bg: Some(Color::Blue) });
}

#[test]
fn alarm_list_stops_above_the_help_box() {
    assert_eq!(rows_shown(24, 3), 3);
    assert_eq!(rows_shown(24, 40), 14);
    assert_eq!(rows_shown(8, 5), 0);
    assert_eq!(separator(30), "-".repeat(30));
    assert_eq!(separator(200), "-".repeat(50));
}

#[test]
fn compact_card_frames_the_time() {
    let now = now_on("2026-08-17");
    let card = compact_card(Face::Snake, now, "10:42:07", "PM", 20, 6, true);
    let rows: Vec<String> = card.iter().map(|l| l.iter().map(|s| s.text.as_str()).collect()).collect();
    assert_eq!(rows[0], format!("\u{256d}\u{2500} SNAKE {}\u{256e}", "\u{2500}".repeat(10)));
    assert_eq!(rows[1], "\u{2502}   10:42:07 PM    \u{2502}");
    assert_eq!(rows[2], format!("\u{2570}{}\u{256f}", "\u{2500}".repeat(18)));
    assert_eq!(rows[3], "");
    assert_eq!(rows[4], "Mon, Aug 17");
    assert_eq!(card[1][2].tint, Tint::Accent);
    assert_eq!(card[0][0].tint, Tint::Border);
    assert_eq!(card[4][0].tint, Tint::Faint);
}

#[test]
fn compact_card_shortens_and_shrinks() {
    let now = now_on("2026-08-17");
    // Too narrow for the whole time: "HH:MM" and the suffix.
    let card = compact_card(Face::Digital, now, "10:42:07", "PM", 12, 3, true);
    let rows: Vec<String> = card.iter().map(|l| l.iter().map(|s| s.text.as_str()).collect()).collect();
    assert_eq!(rows.len(), 3);
    assert_eq!(rows[1], "\u{2502} 10:42 PM \u{2502}");
    // Too small for a frame: one line.
    let tiny = compact_card(Face::Digital, now, "10:42:07", "", 4, 2, false);
    assert_eq!(tiny.len(), 1);
    assert_eq!(tiny[0][0].text, "10:4");
    assert!(compact_card(Face::Digital, now, "10:42:07", "", 0, 5, false).is_empty());
}

#[test]
fn a_tiny_card_cuts_the_name_short() {
    // The name is cut so that the top edge stays as wide as the card.
    let now = now_on("2026-08-17");
    let card = compact_card(Face::Digital, now, "10:42", "", 8, 3, false);
    let top: String = card[0].iter().map(|s| s.text.as_str()).collect();
    assert_eq!(top, "\u{256d}\u{2500} DIG \u{256e}");
    assert_eq!(top.chars().count(), 8);
    let lcd = compact_card(Face::Lcd, now, "10:42", "", 6, 3, false);
    assert_eq!(lcd.len(), 3);
    for line in &lcd {
        let width: usize = line.iter().map(|s| s.text.chars().count()).sum();
        assert!(width <= 6);
    }
    let lcd_top: String = lcd[0].iter().map(|s| s.text.as_str()).collect();
    assert_eq!(lcd_top, "\u{256d}\u{2500} L \u{256e}");
}

#[test]
fn fitting_a_block() {
    assert!(block_fits(&vec![3, 5], 5, 2));
    assert!(!block_fits(&vec![3, 6], 5, 2));
    assert!(!block_fits(&vec![1, 1, 1], 5, 2));
    assert!(block_fits(&vec![], 0, 0));
}

#[test]
fn a_face_drawing_is_shown_only_when_it_fits() {
    assert!(!shows_drawn(&None, 80, 24));
    assert!(shows_drawn(&Some(vec![3, 5]), 5, 2));
    assert!(!shows_drawn(&Some(vec![3, 6]), 5, 2));
    assert!(!shows_drawn(&Some(vec![1, 1, 1]), 5, 2));
}
