use tictock::bcd::{bcd_columns, bcd_fit, bcd_lines, BcdKind};
use tictock::blocks::{block_cell, blocks_layout, choose_step, label, BlockCell};
use tictock::flip::{card_row, colon_dot, flip_unit, CardRow};
use tictock::grid::{digit_grid, grid_lines, grid_unit};
use tictock::matrix::{canvas_size, draw, fit_scale, segments, total_px_w, usable_rows, Stroke};
use tictock::seg7::compose;
use tictock::snake::simulate;
use tictock::snake_face::{board_size, board_tiles, date_rows, hud_gaps, length_label, next_run_ms, tile_str, Tile};

/// 2026-08-17 10:09:42 as milliseconds since the epoch.
const MORNING_MS: i64 = 1_786_961_382_000;

#[test]
fn day_blocks_pick_the_finest_step_that_fits() {
    assert_eq!(choose_step(40, 10), (300, 288));
    assert_eq!(choose_step(0, 0), (600, 144));
    assert_eq!(choose_step(200, 1000).0, 1);
    assert_eq!(label(300), "5m");
    assert_eq!(label(45), "45s");
    assert_eq!(label(60), "1m");
    assert_eq!(label(90), "90s");
    assert_eq!(block_cell(3, 10, 5), BlockCell::Spent);
    assert_eq!(block_cell(5, 10, 5), BlockCell::Current);
    assert_eq!(block_cell(7, 10, 5), BlockCell::Ahead);
    assert_eq!(block_cell(12, 10, 5), BlockCell::Pad);
}

#[test]
fn grid_digits_and_rows() {
    let one = digit_grid('1');
    assert_eq!(one[0], [false, false, true]);
    assert_eq!(digit_grid(':')[1], [false, true, false]);
    assert_eq!(digit_grid('x'), [[false; 3]; 5]);
    assert_eq!(grid_unit(8, true, true, 0, 80, 24), 1);
    assert_eq!(grid_unit(8, true, true, 0, 400, 60), 3);
    assert_eq!(grid_unit(5, false, true, 0, 400, 60), 3);
    assert_eq!(grid_unit(8, true, false, 9, 10, 10), 6);
    let rows = grid_lines("1", &vec![], 1);
    assert_eq!(rows.len(), 9);
    assert_eq!(rows[0], "        \u{2588}\u{2588}");
    assert_eq!(rows[1], " ".repeat(10));
    let blank = grid_lines("1:1", &vec![false, true, false], 1);
    assert_eq!(blank[2], format!("{}{}{}", "        \u{2588}\u{2588}", " ".repeat(4 + 10 + 4), "        \u{2588}\u{2588}"));
}

#[test]
fn test_matrix_digits() {
    for scale in 1..=4 {
        println!("=== SCALE {scale} ===");
        for &digit in &["0", "4"] {
            println!("=== Digit {digit} ===");
            let plain = draw(digit, scale, &[]);
            for line in plain {
                println!("{line:?}");
            }
        }
    }
}

#[test]
fn matrix_geometry() {
    assert_eq!(segments('4'), [false, true, true, false, false, true, true]);
    assert_eq!(segments('x'), [false; 7]);
    // 10:42 at scale 1: four digits (8) and a colon (4), four gaps of 4.
    assert_eq!(total_px_w("10:42", 1), 52);
    assert_eq!(total_px_w("10:42", 3), 156);
    assert_eq!(total_px_w("", 2), 0);
    assert_eq!(canvas_size("10:42", 1), (27, 5));
    // Sized with ":00" added: 10:42:00 is 84 sub-pixels per unit.
    assert_eq!(fit_scale("10:42", false, 80, 20), 1);
    assert_eq!(fit_scale("10:42:07", true, 200, 40), 4);
    assert_eq!(fit_scale("10:42", true, 1, 1), 1);
    assert_eq!(usable_rows(20, true, true), 16);
    assert_eq!(usable_rows(3, true, true), 0);
    let zero = draw("0", 1, &[]);
    assert_eq!(zero.len(), 6);
    assert_eq!(zero[0], Stroke { x0: 0, y0: 0, x1: 80, y1: 0 });
    let colon = draw("1:", 2, &[]);
    assert_eq!(colon.len(), 4);
    assert_eq!(colon[2], Stroke { x0: 280, y0: 76, x1: 280, y1: 116 });
    assert!(draw("1:", 2, &[false, true]).len() == 2);
}

#[test]
fn seven_segment_block_size() {
    let c = compose("1:2", 2, &[], false);
    assert_eq!(c.width, 40);
    assert_eq!(c.height, 14);
    assert_eq!(c.lit.len(), 40 * 14);
    assert!(c.lit.iter().any(|b| *b));
    assert!(!c.faint.iter().any(|b| *b));
    let e = compose("", 2, &[], false);
    assert_eq!((e.width, e.height), (0, 0));
}

#[test]
fn snake_replays_deterministically() {
    let a = simulate(MORNING_MS, 39, 16);
    let b = simulate(MORNING_MS, 39, 16);
    assert_eq!(a, b);
    let (body, food) = a;
    let body: Vec<(i32, i32)> = body.into_iter().collect();
    assert!(!body.is_empty());
    assert!(body.iter().all(|&(x, y)| (0..39).contains(&x) && (0..16).contains(&y)));
    assert!(!body.contains(&food));
    for w in body.windows(2) {
        assert_eq!((w[0].0 - w[1].0).abs() + (w[0].1 - w[1].1).abs(), 1);
    }
    assert_eq!(next_run_ms(MORNING_MS) % 900_000, 0);
    assert!(next_run_ms(MORNING_MS) > MORNING_MS);
}

#[test]
fn polished_board_uses_square_cells_and_fits() {
    let extra = date_rows(true, 24);
    let (cols, rows) = board_size(80, 24, extra).unwrap();
    assert_eq!((cols, rows), (39, 16));
    let (body, food) = simulate(MORNING_MS, cols, rows);
    let tiles = board_tiles(cols, rows, &body, food);
    let board_w = cols * 2 + 2;
    // Heads-up line, blank, frame top, the rows, frame bottom, blank, footer, date.
    let line_count = 1 + 1 + 1 + rows + 1 + 1 + 1 + extra;
    assert!(line_count <= 24);
    assert!(board_w <= 80);
    for row in &tiles {
        let text: String = row.iter().map(|t| tile_str(*t)).collect();
        assert!(text.chars().count() + 2 <= 80);
    }
    assert!(tiles.iter().any(|row| row.iter().any(|t| matches!(t, Tile::Head(_)))));
    assert!(tiles.iter().any(|row| row.iter().any(|t| *t == Tile::Food)));
    let right = length_label(body.len());
    let gaps = hud_gaps("10:09:42 AM".chars().count(), right.chars().count(), board_w);
    assert!(gaps.is_some());
}

#[test]
fn small_areas_have_no_board() {
    assert_eq!(board_size(17, 24, 0), None);
    assert_eq!(board_size(80, 9, 0), None);
    assert_eq!(board_size(200, 100, 0), Some((48, 24)));
    assert_eq!(date_rows(true, 11), 0);
    assert_eq!(length_label(7), "LENGTH 07");
    assert_eq!(length_label(12), "LENGTH 12");
    assert_eq!(hud_gaps(11, 9, 30), None);
    assert_eq!(hud_gaps(5, 9, 40), Some((9, 10)));
}

#[test]
fn blocks_layout_for_a_day() {
    let l = blocks_layout(42, 14, true, 36_000);
    // 40 columns and 10 rows: five-minute blocks, 288 of them in 8 rows.
    assert_eq!(l.cols, 40);
    assert_eq!(l.step, 300);
    assert_eq!(l.total, 288);
    assert_eq!(l.rows, 8);
    assert_eq!(l.done, 120);
    let tiny = blocks_layout(1, 1, false, 59);
    assert_eq!(tiny.cols, 1);
    assert_eq!(tiny.step, 600);
    assert_eq!(tiny.done, 0);
}

#[test]
fn binary_columns_and_dots() {
    let (digits, groups) = bcd_columns(15, 7, 42, true, true);
    assert_eq!(digits, vec![0, 3, 0, 7, 4, 2]);
    assert_eq!(groups, vec![0, 0, 1, 1, 2, 2]);
    let (d24, g24) = bcd_columns(0, 5, 0, false, false);
    assert_eq!(d24, vec![0, 0, 0, 5]);
    assert_eq!(g24.len(), 4);
    assert_eq!(bcd_columns(0, 0, 0, true, false).0, vec![1, 2, 0, 0]);
    // Six columns at cell 6 need 66 columns and 4*3+3 = 15 rows plus 4.
    assert_eq!(bcd_fit(6, 66, 19, true), 6);
    assert_eq!(bcd_fit(6, 65, 19, true), 5);
    assert_eq!(bcd_fit(6, 5, 5, false), 1);
    let lines = bcd_lines(&vec![9, 5], &vec![1, 1], 1);
    // Labels, a blank line, then one line per weight.
    assert_eq!(lines.len(), 6);
    let text = |i: usize| lines[i].iter().map(|c| c.text.as_str()).collect::<String>();
    assert_eq!(text(0), "M M");
    assert!(lines[1].is_empty());
    assert_eq!(text(2), "\u{2588} \u{b7}");
    assert_eq!(text(3), "\u{b7} \u{2588}");
    assert_eq!(text(4), "\u{b7} \u{b7}");
    assert_eq!(text(5), "\u{2588} \u{2588}");
    assert_eq!(lines[2][0].kind, BcdKind::Lit(1));
    assert_eq!(lines[2][1].kind, BcdKind::Gap);
    assert_eq!(lines[2][2].kind, BcdKind::Unlit);
    // Tall dots get a blank line between weights.
    let tall = bcd_lines(&vec![8], &vec![0], 3);
    assert_eq!(tall.len(), 2 + 4 * 2 + 3);
    assert_eq!(tall[0][0].text, " H ");
    assert_eq!(tall[2][0].text, "\u{2588}\u{2588}\u{2588}");
    assert_eq!(tall[6][0].text, " \u{b7} ");
}

#[test]
fn flip_cards() {
    // Six cards at unit 1 are 72 wide plus two 3-column colons.
    assert_eq!(flip_unit(6, true, true, 0, 78, 10), 1);
    assert_eq!(flip_unit(6, true, true, 0, 77, 10), 1);
    assert_eq!(flip_unit(4, true, true, 0, 200, 40), 5);
    assert_eq!(flip_unit(4, false, true, 0, 200, 40), 3);
    assert_eq!(flip_unit(4, true, false, 20, 10, 10), 12);
    assert_eq!(card_row(0, 2), CardRow::Top);
    assert_eq!(card_row(16, 2), CardRow::Bottom);
    assert_eq!(card_row(8, 2), CardRow::Seam);
    assert_eq!(card_row(3, 2), CardRow::Glyph(2));
    assert_eq!(card_row(9, 2), CardRow::Glyph(7));
    assert!(colon_dot(5, 2, false, 0));
    assert!(colon_dot(11, 2, false, 0));
    assert!(!colon_dot(6, 2, false, 0));
    assert!(!colon_dot(5, 2, true, 0));
    assert!(colon_dot(5, 2, true, 500));
    assert!(colon_dot(5, 2, true, -501));
    assert!(!colon_dot(5, 2, true, -499));
}

#[test]
fn each_snake_frame_moves_on_from_the_last() {
    let (before, _) = simulate(MORNING_MS, 39, 16);
    let (after, _) = simulate(MORNING_MS + 130, 39, 16);
    // The old head is now the neck: the snake moved one cell.
    assert_eq!(after[1], before[0]);
    let (d0, d1) = (after[0].0 - before[0].0, after[0].1 - before[0].1);
    assert_eq!(d0.abs() + d1.abs(), 1);
}

#[test]
fn the_snake_keeps_its_shape_through_a_window() {
    // 2026-08-17 10:00:00.000 starts a 15-minute window.
    let start: i64 = MORNING_MS - (MORNING_MS % 900_000);
    let (body, _) = simulate(start, 20, 8);
    assert_eq!(body, vec![(10, 4), (9, 4), (8, 4), (7, 4), (6, 4)]);
    assert_eq!(simulate(start + 129, 20, 8), simulate(start, 20, 8));
    // max_len for 20 x 8 is 53.
    let mut t: i64 = 0;
    while t < 900_000 {
        let (body, food) = simulate(start + t, 20, 8);
        let body: Vec<(i32, i32)> = body.into_iter().collect();
        assert!(body.len() >= 5 && body.len() < 53);
        assert!(!body.contains(&food));
        assert!((0..20).contains(&food.0) && (0..8).contains(&food.1));
        for w in body.windows(2) {
            assert_eq!((w[0].0 - w[1].0).abs() + (w[0].1 - w[1].1).abs(), 1);
        }
        t += 130 * 97;
    }
}
