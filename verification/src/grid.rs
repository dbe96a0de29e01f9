//! The grid face: a retro 3x5 block matrix clock drawn with solid blocks.
use crate::text::{chars_vec, push_char};
use vstd::prelude::*;

verus! {

/// The 3x5 block pattern of a digit or colon, row by row; blank for
/// anything else.
pub open spec fn glyph_rows(c: char) -> Seq<Seq<bool>> {
    if c == '0' { seq![seq![true, true, true], seq![true, false, true], seq![true, false, true], seq![true, false, true], seq![true, true, true]] }
    else if c == '1' { seq![seq![false, false, true], seq![false, false, true], seq![false, false, true], seq![false, false, true], seq![false, false, true]] }
    else if c == '2' { seq![seq![true, true, true], seq![false, false, true], seq![true, true, true], seq![true, false, false], seq![true, true, true]] }
    else if c == '3' { seq![seq![true, true, true], seq![false, false, true], seq![true, true, true], seq![false, false, true], seq![true, true, true]] }
    else if c == '4' { seq![seq![true, false, true], seq![true, false, true], seq![true, true, true], seq![false, false, true], seq![false, false, true]] }
    else if c == '5' { seq![seq![true, true, true], seq![true, false, false], seq![true, true, true], seq![false, false, true], seq![true, true, true]] }
    else if c == '6' { seq![seq![true, true, true], seq![true, false, false], seq![true, true, true], seq![true, false, true], seq![true, true, true]] }
    else if c == '7' { seq![seq![true, true, true], seq![false, false, true], seq![false, false, true], seq![false, false, true], seq![false, false, true]] }
    else if c == '8' { seq![seq![true, true, true], seq![true, false, true], seq![true, true, true], seq![true, false, true], seq![true, true, true]] }
    else if c == '9' { seq![seq![true, true, true], seq![true, false, true], seq![true, true, true], seq![false, false, true], seq![true, true, true]] }
    else if c == ':' { seq![seq![false, false, false], seq![false, true, false], seq![false, false, false], seq![false, true, false], seq![false, false, false]] }
    else { seq![seq![false, false, false], seq![false, false, false], seq![false, false, false], seq![false, false, false], seq![false, false, false]] }
}

/// The block pattern of a character.
pub fn digit_grid(c: char) -> (g: [[bool; 3]; 5])
    ensures
        forall|r: int, k: int| 0 <= r < 5 && 0 <= k < 3 ==> #[trigger] g@[r]@[k] == glyph_rows(c)[r][k],
{
    let g: [[bool; 3]; 5] = match c {
        '0' => [[true, true, true], [true, false, true], [true, false, true], [true, false, true], [true, true, true]],
        '1' => [[false, false, true], [false, false, true], [false, false, true], [false, false, true], [false, false, true]],
        '2' => [[true, true, true], [false, false, true], [true, true, true], [true, false, false], [true, true, true]],
        '3' => [[true, true, true], [false, false, true], [true, true, true], [false, false, true], [true, true, true]],
        '4' => [[true, false, true], [true, false, true], [true, true, true], [false, false, true], [false, false, true]],
        '5' => [[true, true, true], [true, false, false], [true, true, true], [false, false, true], [true, true, true]],
        '6' => [[true, true, true], [true, false, false], [true, true, true], [true, false, true], [true, true, true]],
        '7' => [[true, true, true], [false, false, true], [false, false, true], [false, false, true], [false, false, true]],
        '8' => [[true, true, true], [true, false, true], [true, true, true], [true, false, true], [true, true, true]],
        '9' => [[true, true, true], [true, false, true], [true, true, true], [false, false, true], [true, true, true]],
        ':' => [[false, false, false], [false, true, false], [false, false, false], [false, true, false], [false, false, false]],
        _ => [[false; 3]; 5],
    };
    proof {
        assert forall|r: int, k: int| 0 <= r < 5 && 0 <= k < 3 implies #[trigger] g@[r]@[k] == glyph_rows(c)[r][k] by {
            if r == 0 {} else if r == 1 {} else if r == 2 {} else if r == 3 {} else {}
        }
    }
    g
}

/// The largest unit in `1..=6` at which `fit_n` glyphs (14 units wide each
/// with gaps, 9 tall) fit the area; 1 when none does.
pub open spec fn grid_fits(fit_n: int, u: int, avail_w: int, usable_h: int) -> bool {
    (14 * fit_n - 4) * u <= avail_w && 9 * u <= usable_h
}

/// The glyphs the grid face sizes for: with seconds hidden, room for three
/// more.
pub open spec fn glyphs_sized(n: int, show_seconds: bool) -> int {
    if show_seconds { n } else { n + 3 }
}

/// The unit the grid face draws at: the fitted one when auto-sizing, else
/// the pinned scale clamped to 1..=6. With seconds hidden the fit leaves
/// room for three more glyphs.
pub fn grid_unit(n: usize, show_seconds: bool, auto: bool, scale: u8, avail_w: usize, usable_h: usize) -> (u: usize)
    requires
        1 <= n <= 1000,
    ensures
        1 <= u <= 6,
        !auto ==> u == (if scale < 1 { 1 } else if scale > 6 { 6 } else { scale as int }),
        auto ==> {
            let fit_n = glyphs_sized(n as int, show_seconds);
            &&& ((exists|v: int| 1 <= v <= 6 && grid_fits(fit_n, v, avail_w as int, usable_h as int)) ==> grid_fits(fit_n, u as int, avail_w as int, usable_h as int))
            &&& forall|v: int| u < v <= 6 ==> !grid_fits(fit_n, v, avail_w as int, usable_h as int)
            &&& (forall|v: int| 1 <= v <= 6 ==> !grid_fits(fit_n, v, avail_w as int, usable_h as int)) ==> u == 1
        },
{
    if !auto {
        return if scale < 1 { 1 } else if scale > 6 { 6 } else { scale as usize };
    }
    let fit_n = if show_seconds { n } else { n + 3 };
    let mut u: usize = 6;
    while u >= 1
        invariant
            u <= 6,
            auto,
            fit_n == (if show_seconds { n as int } else { n + 3 }),
            1 <= fit_n <= 1003,
            forall|v: int| u < v <= 6 ==> !grid_fits(fit_n as int, v, avail_w as int, usable_h as int),
        decreases u,
    {
        assert((14 * fit_n - 4) * u <= 14 * 1003 * 6) by (nonlinear_arith)
            requires
                1 <= fit_n <= 1003,
                u <= 6,
        ;
        if (14 * fit_n - 4) * u <= avail_w && 9 * u <= usable_h {
            assert(grid_fits(glyphs_sized(n as int, show_seconds), u as int, avail_w as int, usable_h as int));
            return u;
        }
        u -= 1;
    }
    1
}

/// `n` copies of `c`.
pub open spec fn rep(c: char, n: int) -> Seq<char> {
    Seq::new(if n < 0 { 0 } else { n as nat }, |i: int| c)
}

/// One glyph's share of row `r` at unit `u`: three blocks `2u` wide, `2u`
/// apart, solid where the pattern is lit and the row is not a gap row.
pub open spec fn glyph_row_text(rows: Seq<Seq<bool>>, u: int, r: int) -> Seq<char> {
    let block_row = r / (2 * u);
    let gap_row = r % (2 * u) >= u;
    let cell = |k: int| if !gap_row && rows[block_row][k] { rep('\u{2588}', 2 * u) } else { rep(' ', 2 * u) };
    cell(0) + rep(' ', 2 * u) + cell(1) + rep(' ', 2 * u) + cell(2)
}

/// The pattern drawn for glyph `i`: blank while its colon blinks off.
pub open spec fn shown_rows(text: Seq<char>, blank: Seq<bool>, i: int) -> Seq<Seq<bool>> {
    if i < blank.len() && blank[i] { glyph_rows(' ') } else { glyph_rows(text[i]) }
}

/// Row `r` of the whole clock: glyphs separated by `4u` spaces.
pub open spec fn clock_row(text: Seq<char>, blank: Seq<bool>, u: int, r: int, upto: int) -> Seq<char>
    decreases upto,
{
    if upto <= 0 {
        Seq::empty()
    } else if upto == 1 {
        glyph_row_text(shown_rows(text, blank, 0), u, r)
    } else {
        clock_row(text, blank, u, r, upto - 1) + rep(' ', 4 * u) + glyph_row_text(shown_rows(text, blank, upto - 1), u, r)
    }
}

fn push_rep(s: &mut String, c: char, n: usize)
    ensures
        final(s)@ == old(s)@ + rep(c, n as int),
{
    let mut k: usize = 0;
    while k < n
        invariant
            k <= n,
            s@ == old(s)@ + rep(c, k as int),
        decreases n - k,
    {
        push_char(s, c);
        assert(rep(c, k + 1) =~= rep(c, k as int).push(c));
        k += 1;
    }
}

fn push_glyph_row(s: &mut String, g: &[[bool; 3]; 5], rows: Ghost<Seq<Seq<bool>>>, u: usize, r: usize)
    requires
        1 <= u <= 6,
        r < 9 * u,
        rows@.len() == 5,
        forall|i: int| 0 <= i < 5 ==> (#[trigger] rows@[i]).len() == 3,
        forall|i: int, k: int| 0 <= i < 5 && 0 <= k < 3 ==> #[trigger] g@[i]@[k] == rows@[i][k],
    ensures
        final(s)@ == old(s)@ + glyph_row_text(rows@, u as int, r as int),
{
    let block_row = r / (2 * u);
    let gap_row = r % (2 * u) >= u;
    assert(block_row < 5) by (nonlinear_arith)
        requires
            block_row == (r as int) / (2 * (u as int)),
            r < 9 * u,
            u >= 1,
    ;
    let mut k: usize = 0;
    let ghost start = s@;
    while k < 3
        invariant
            k <= 3,
            block_row < 5,
            block_row == (r as int) / (2 * (u as int)),
            gap_row == ((r as int) % (2 * (u as int)) >= u),
            1 <= u <= 6,
            rows@.len() == 5,
            forall|i: int, kk: int| 0 <= i < 5 && 0 <= kk < 3 ==> #[trigger] g@[i]@[kk] == rows@[i][kk],
            s@ == start + (if k == 0 { Seq::empty() } else if k == 1 {
                (if !gap_row && rows@[block_row as int][0] { rep('\u{2588}', 2 * u) } else { rep(' ', 2 * u) })
            } else if k == 2 {
                (if !gap_row && rows@[block_row as int][0] { rep('\u{2588}', 2 * u) } else { rep(' ', 2 * u) }) + rep(' ', 2 * u)
                    + (if !gap_row && rows@[block_row as int][1] { rep('\u{2588}', 2 * u) } else { rep(' ', 2 * u) })
            } else {
                glyph_row_text(rows@, u as int, r as int)
            }),
        decreases 3 - k,
    {
        if k > 0 {
            push_rep(s, ' ', 2 * u);
        }
        let active = !gap_row && g[block_row][k];
        push_rep(s, if active { '\u{2588}' } else { ' ' }, 2 * u);
        proof {
            let cell = |kk: int| if !gap_row && rows@[block_row as int][kk] { rep('\u{2588}', 2 * u) } else { rep(' ', 2 * u) };
            assert(rep(if active { '\u{2588}' } else { ' ' }, 2 * u) == cell(k as int));
        }
        k += 1;
        proof {
            if k == 1 {
                assert(s@ =~= start + (if !gap_row && rows@[block_row as int][0] { rep('\u{2588}', 2 * u) } else { rep(' ', 2 * u) }));
            } else if k == 2 {
                assert(s@ =~= start + (if !gap_row && rows@[block_row as int][0] { rep('\u{2588}', 2 * u) } else { rep(' ', 2 * u) }) + rep(' ', 2 * u)
                    + (if !gap_row && rows@[block_row as int][1] { rep('\u{2588}', 2 * u) } else { rep(' ', 2 * u) }));
            } else {
                assert(s@ =~= start + glyph_row_text(rows@, u as int, r as int));
            }
        }
    }
}

/// The rows of the grid clock for `text` at unit `u`: `9u` rows, glyph
/// `i` left blank where `blank[i]` is set (a colon blinking off).
pub fn grid_lines(text: &str, blank: &Vec<bool>, u: usize) -> (v: Vec<String>)
    requires
        1 <= u <= 6,
    ensures
        v@.len() == 9 * u,
        forall|r: int| 0 <= r < 9 * u ==> (#[trigger] v@[r])@ == clock_row(text@, blank@, u as int, r, text@.len() as int),
{
    let chars = chars_vec(text);
    let n = chars.len();
    let mut lines: Vec<String> = Vec::new();
    let mut r: usize = 0;
    while r < 9 * u
        invariant
            1 <= u <= 6,
            chars@ == text@,
            n == text@.len(),
            r <= 9 * u,
            lines@.len() == r,
            forall|q: int| 0 <= q < r ==> (#[trigger] lines@[q])@ == clock_row(text@, blank@, u as int, q, n as int),
        decreases 9 * u - r,
    {
        let mut s = String::new();
        let mut i: usize = 0;
        while i < n
            invariant
                1 <= u <= 6,
                r < 9 * u,
                chars@ == text@,
                n == text@.len(),
                i <= n,
                s@ == clock_row(text@, blank@, u as int, r as int, i as int),
            decreases n - i,
        {
            if i > 0 {
                push_rep(&mut s, ' ', 4 * u);
            }
            let is_blank = i < blank.len() && blank[i];
            let c = if is_blank { ' ' } else { chars[i] };
            let g = digit_grid(c);
            let ghost rows = shown_rows(text@, blank@, i as int);
            proof {
                lemma_glyph_rows_shape(c);
            }
            push_glyph_row(&mut s, &g, Ghost(rows), u, r);
            i += 1;
        }
        lines.push(s);
        r += 1;
    }
    lines
}

proof fn lemma_glyph_rows_shape(c: char)
    ensures
        glyph_rows(c).len() == 5,
        forall|i: int| 0 <= i < 5 ==> (#[trigger] glyph_rows(c)[i]).len() == 3,
{
}

} // verus!
