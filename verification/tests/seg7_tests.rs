use tictock::seg7::{compose, digit_h, digit_w, draw_glyph, fit_unit, segments, width_of};

#[test]
fn test_digit_layout_regression() {
    // Use scale u = 2 so chamfering is inactive, enabling exact block checks.
    let u = 2;
    let tv = 2 * u; // 4 columns
    let w = digit_w(u); // 16 columns
    let h = digit_h(u); // 14 rows

    let get_grid = |digit_char: char| -> Vec<bool> {
        let mut grid = vec![false; w * h];
        let mut ghost_grid = vec![false; w * h];
        draw_glyph(&mut grid, &mut ghost_grid, w, 0, digit_char, u, false);
        grid
    };

    for &digit_char in &[
        '0', '1', '2', '3', '4', '5', '6', '7', '8', '9', 'A', 'P', 'M',
    ] {
        let grid = get_grid(digit_char);
        let s = segments(digit_char).unwrap();

        let has_active_top = (0..w).any(|col| grid[col]);
        assert!(has_active_top, "Digit '{digit_char}' is missing active pixels on the top row (row 0), meaning it's too short!");

        let has_active_bottom = (0..w).any(|col| grid[(h - 1) * w + col]);
        assert!(has_active_bottom, "Digit '{}' is missing active pixels on the bottom row (row {}), meaning it's too short!", digit_char, h - 1);

        if s[1] {
            for r in 0..(4 * u) {
                let is_filled = ((w - tv)..w).any(|col| grid[r * w + col]);
                assert!(is_filled, "Digit '{digit_char}' has a gap or discontinuity in upper-right segment 'b' at row {r}");
            }
        }

        if s[2] {
            for r in (3 * u)..(7 * u) {
                let is_filled = ((w - tv)..w).any(|col| grid[r * w + col]);
                assert!(is_filled, "Digit '{digit_char}' has a gap or discontinuity in lower-right segment 'c' at row {r}");
            }
        }

        if s[4] {
            for r in (3 * u)..(7 * u) {
                let is_filled = (0..tv).any(|col| grid[r * w + col]);
                assert!(
                    is_filled,
                    "Digit '{digit_char}' has a gap or discontinuity in lower-left segment 'e' at row {r}"
                );
            }
        }

        if s[5] {
            for r in 0..(4 * u) {
                let is_filled = (0..tv).any(|col| grid[r * w + col]);
                assert!(
                    is_filled,
                    "Digit '{digit_char}' has a gap or discontinuity in upper-left segment 'f' at row {r}"
                );
            }
        }
    }
}

#[test]
fn digit_box_is_eight_by_seven_units() {
    assert_eq!(digit_w(3), 24);
    assert_eq!(digit_h(3), 21);
}

#[test]
fn width_counts_glyphs_and_gaps() {
    // "12:34" = 4 digits (8u) + colon (2u) + 4 gaps (u) = 38u
    assert_eq!(width_of("12:34", 1), 38);
    assert_eq!(width_of("12:34", 2), 76);
    assert_eq!(width_of("", 5), 0);
    assert_eq!(width_of("8", 4), 32);
}

#[test]
fn fit_unit_picks_largest_fitting_size() {
    // With seconds hidden "12:34" is sized as "12:34:00": 6*8 + 2*2 + 7 = 59 units.
    assert_eq!(fit_unit("12:34", false, 120, 100, 9), 2);
    assert_eq!(fit_unit("12:34", true, 120, 100, 9), 3);
    // Height limits too: 7u <= 20 => u <= 2.
    assert_eq!(fit_unit("12:34", true, 1000, 20, 9), 2);
    // Nothing fits: falls back to 1.
    assert_eq!(fit_unit("12:34", true, 5, 5, 9), 1);
    // max_u of 0 is treated as 1.
    assert_eq!(fit_unit("12:34", true, 1000, 1000, 0), 1);
    assert_eq!(fit_unit("12:34", true, 80, 20, 9), 2);
    assert_eq!(fit_unit("12:34", false, 80, 20, 9), 1);
    assert_eq!(fit_unit("12:34", true, 10, 10, 9), 1);
    assert_eq!(fit_unit("1", true, 1000, 1000, 0), 1);
}

#[test]
fn segments_cover_digits_and_am_pm_letters() {
    assert_eq!(segments('8'), Some([true; 7]));
    assert_eq!(segments('1'), Some([false, true, true, false, false, false, false]));
    assert_eq!(segments('p'), segments('P'));
    assert_eq!(segments('x'), None);
    assert_eq!(segments(':'), None);
}

#[test]
fn colon_draws_two_square_dots() {
    let u = 3;
    let (w, h) = (digit_w(u), digit_h(u));
    let mut grid = vec![false; w * h];
    let mut ghost = vec![false; w * h];
    draw_glyph(&mut grid, &mut ghost, w, 0, ':', u, false);
    let lit: Vec<(usize, usize)> = (0..h)
        .flat_map(|r| (0..w).map(move |c| (r, c)))
        .filter(|&(r, c)| grid[r * w + c])
        .collect();
    // Two dots of 2u columns by u rows.
    assert_eq!(lit.len(), 2 * (2 * u * u));
    assert!(lit.iter().all(|&(r, c)| c < 2 * u && ((2 * u..3 * u).contains(&r) || (5 * u..6 * u).contains(&r))));
    assert!(ghost.iter().all(|g| !g));
}

#[test]
fn ghost_segments_show_unlit_bars_and_chamfer_cuts_corners() {
    let u = 3; // u / 3 = 1: corners chamfered
    let (w, h) = (digit_w(u), digit_h(u));
    let mut grid = vec![false; w * h];
    let mut ghost = vec![false; w * h];
    draw_glyph(&mut grid, &mut ghost, w, 0, '1', u, true);
    // '1' leaves the top bar unlit: it shows in the ghost layer.
    assert!(!grid[w / 2]);
    assert!(ghost[w / 2]);
    // The top-left corner cell is cut from both layers.
    assert!(!grid[0] && !ghost[0]);
    // A lit cell of the right bars.
    assert!(grid[2 * w + (w - 1)]);
}

#[test]
fn test_print_digits() {
    let u = 2;
    for &ghost in &[false, true] {
        println!("=== GHOST SEGMENTS = {ghost} ===");
        for &digit in &["0", "1", "2", "3", "4", "5", "6", "7", "8", "9"] {
            println!("=== Digit {digit} ===");
            let block = compose(digit, u, &[], ghost);
            for r in 0..block.height {
                let row: String = (0..block.width)
                    .map(|x| {
                        let i = r * block.width + x;
                        if block.lit[i] || block.faint[i] {
                            '\u{2588}'
                        } else {
                            ' '
                        }
                    })
                    .collect();
                println!("{r:02}: |{row}|");
            }
        }
    }
}
