//! Geometry of the braille seven-segment face: which segments a digit
//! lights, how wide a time is in sub-pixels, the largest scale that fits,
//! and the strokes that draw a time. Sub-pixel coordinates are given in
//! tenths, so that the colon dots, at 30% and 70% of the height, land on
//! whole numbers; a canvas rasterizes the strokes.
use crate::config::MAX_SCALE;
use crate::screen::sat;
use vstd::prelude::*;

verus! {

/// Which of the seven segments (a top, b upper right, c lower right,
/// d bottom, e lower left, f upper left, g middle) are lit for a digit;
/// none for any other character.
pub open spec fn lit_segments(c: char) -> Seq<bool> {
    if c == '0' { seq![true, true, true, true, true, true, false] }
    else if c == '1' { seq![false, true, true, false, false, false, false] }
    else if c == '2' { seq![true, true, false, true, true, false, true] }
    else if c == '3' { seq![true, true, true, true, false, false, true] }
    else if c == '4' { seq![false, true, true, false, false, true, true] }
    else if c == '5' { seq![true, false, true, true, false, true, true] }
    else if c == '6' { seq![true, false, true, true, true, true, true] }
    else if c == '7' { seq![true, true, true, false, false, false, false] }
    else if c == '8' { seq![true, true, true, true, true, true, true] }
    else if c == '9' { seq![true, true, true, true, false, true, true] }
    else { seq![false, false, false, false, false, false, false] }
}

pub fn segments(c: char) -> (r: [bool; 7])
    ensures
        r@ == lit_segments(c),
{
    let r = match c {
        '0' => [true, true, true, true, true, true, false],
        '1' => [false, true, true, false, false, false, false],
        '2' => [true, true, false, true, true, false, true],
        '3' => [true, true, true, true, false, false, true],
        '4' => [false, true, true, false, false, true, true],
        '5' => [true, false, true, true, false, true, true],
        '6' => [true, false, true, true, true, true, true],
        '7' => [true, true, true, false, false, false, false],
        '8' => [true, true, true, true, true, true, true],
        '9' => [true, true, true, true, false, true, true],
        _ => [false; 7],
    };
    assert(r@ =~= lit_segments(c));
    r
}

/// Width of a glyph in sub-pixels per unit of scale: 8 for a digit, 4 for
/// a colon; glyphs are 16 per unit tall and 4 apart.
pub open spec fn glyph_px(c: char) -> int {
    if c == ':' { 4 } else { 8 }
}

/// The glyph widths of `s` plus the gaps between them, per unit of scale.
pub open spec fn row_units(s: Seq<char>) -> int
    decreases s.len(),
{
    if s.len() == 0 {
        0
    } else if s.len() == 1 {
        glyph_px(s[0])
    } else {
        row_units(s.drop_last()) + 4 + glyph_px(s.last())
    }
}

pub proof fn lemma_row_units_bounds(s: Seq<char>)
    ensures
        0 <= row_units(s) <= 12 * s.len(),
    decreases s.len(),
{
    if s.len() > 1 {
        lemma_row_units_bounds(s.drop_last());
    }
}

/// Width in sub-pixels of `text` drawn at `scale`.
pub fn total_px_w(text: &str, scale: usize) -> (w: usize)
    requires
        1 <= scale,
        12 * text@.len() * scale <= usize::MAX,
    ensures
        w == scale * row_units(text@),
{
    let n = text.unicode_len();
    let mut k: usize = 0;
    let mut units: usize = 0;
    while k < n
        invariant
            n == text@.len(),
            k <= n,
            units == row_units(text@.take(k as int)),
            1 <= scale,
            12 * n * scale <= usize::MAX,
        decreases n - k,
    {
        let c = text.get_char(k);
        let g: usize = if c == ':' { 4 } else { 8 };
        proof {
            lemma_row_units_bounds(text@.take(k as int));
            assert(text@.take(k as int + 1).drop_last() =~= text@.take(k as int));
            assert(12 * n <= 12 * n * scale) by (nonlinear_arith)
                requires
                    1 <= scale,
            ;
        }
        assert(units + 12 <= 12 * n) by (nonlinear_arith)
            requires
                units <= 12 * k,
                k < n,
        ;
        units = if k == 0 { g } else { units + 4 + g };
        k += 1;
    }
    assert(text@.take(n as int) =~= text@);
    proof {
        lemma_row_units_bounds(text@);
    }
    assert(scale * units <= usize::MAX) by (nonlinear_arith)
        requires
            units <= 12 * n,
            12 * n * scale <= usize::MAX,
    ;
    scale * units
}

/// `ceil(x / 2)`: terminal columns covered by `x` sub-pixels across.
pub open spec fn half_up(x: int) -> int {
    (x + 1) / 2
}

/// Whether `text` at `scale` fits `avail_w` columns and `usable_h` rows,
/// each with a cell to spare.
pub open spec fn scale_fits(text: Seq<char>, scale: int, avail_w: int, usable_h: int) -> bool {
    half_up(scale * row_units(text)) < avail_w && 4 * scale < usable_h
}

/// The text the face sizes for: with seconds hidden, `":00"` is added so
/// the size does not jump when seconds are shown.
pub open spec fn sized_text(text: Seq<char>, show_seconds: bool) -> Seq<char> {
    if show_seconds { text } else { text + seq![':', '0', '0'] }
}

/// The largest scale in `1..=MAX_SCALE` at which the face fits; 1 when
/// none does.
pub fn fit_scale(text: &str, show_seconds: bool, avail_w: usize, usable_h: usize) -> (s: usize)
    requires
        12 * (text@.len() + 3) * MAX_SCALE <= usize::MAX,
    ensures
        1 <= s <= MAX_SCALE,
        (exists|v: int| 1 <= v <= MAX_SCALE && scale_fits(sized_text(text@, show_seconds), v, avail_w as int, usable_h as int))
            ==> scale_fits(sized_text(text@, show_seconds), s as int, avail_w as int, usable_h as int),
        forall|v: int| s < v <= MAX_SCALE ==> !scale_fits(sized_text(text@, show_seconds), v, avail_w as int, usable_h as int),
        (forall|v: int| 1 <= v <= MAX_SCALE ==> !scale_fits(sized_text(text@, show_seconds), v, avail_w as int, usable_h as int))
            ==> s == 1,
{
    let ghost t = sized_text(text@, show_seconds);
    let mut sized = crate::text::owned(text);
    if !show_seconds {
        sized.append(":00");
    }
    proof {
        reveal_strlit(":00");
        assert(sized@ =~= t);
    }
    let mut s: usize = MAX_SCALE as usize;
    while s >= 1
        invariant
            s <= MAX_SCALE,
            t == sized_text(text@, show_seconds),
            sized@ == t,
            t.len() <= text@.len() + 3,
            12 * (text@.len() + 3) * MAX_SCALE <= usize::MAX,
            forall|v: int| s < v <= MAX_SCALE ==> !scale_fits(t, v, avail_w as int, usable_h as int),
        decreases s,
    {
        assert(12 * t.len() * s <= 12 * (text@.len() + 3) * MAX_SCALE) by (nonlinear_arith)
            requires
                t.len() <= text@.len() + 3,
                s <= MAX_SCALE,
        ;
        let w = total_px_w(sized.as_str(), s);
        assert(w == s * row_units(t));
        if w / 2 + w % 2 < avail_w && 4 * s < usable_h {
            assert(half_up(w as int) == w / 2 + w % 2);
            assert(scale_fits(t, s as int, avail_w as int, usable_h as int));
            return s;
        }
        assert(half_up(w as int) == w / 2 + w % 2);
        s -= 1;
    }
    1
}

/// Rows left for the digits when a suffix line and a date line, each with
/// a blank above, may sit below them.
pub fn usable_rows(avail_h: usize, has_suffix: bool, show_date: bool) -> (r: usize)
    ensures
        r == sat(avail_h - ((if has_suffix { 2int } else { 0 }) + (if show_date { 2int } else { 0 }))),
{
    let mut reserved: usize = 0;
    if has_suffix {
        reserved += 2;
    }
    if show_date {
        reserved += 2;
    }
    avail_h.saturating_sub(reserved)
}

/// A straight stroke between two sub-pixel points, in tenths.
#[derive(Clone, Copy, Debug, PartialEq, Eq, Structural)]
pub struct Stroke {
    pub x0: u64,
    pub y0: u64,
    pub x1: u64,
    pub y1: u64,
}

/// The strokes of one glyph whose left edge is at `x` (tenths), at scale
/// `k`: two short vertical dots for a colon, else the lit segments in
/// order a to g.
pub open spec fn glyph_strokes(c: char, x: int, k: int) -> Seq<Stroke> {
    let w = 80 * k;
    let h = 160 * k;
    if c == ':' {
        let cx = x + 20 * k;
        seq![
            Stroke { x0: cx as u64, y0: (48 * k - 10 * k) as u64, x1: cx as u64, y1: (48 * k + 10 * k) as u64 },
            Stroke { x0: cx as u64, y0: (112 * k - 10 * k) as u64, x1: cx as u64, y1: (112 * k + 10 * k) as u64 },
        ]
    } else {
        let s = lit_segments(c);
        let all = seq![
            Stroke { x0: x as u64, y0: 0, x1: (x + w) as u64, y1: 0 },
            Stroke { x0: (x + w) as u64, y0: 0, x1: (x + w) as u64, y1: (h / 2) as u64 },
            Stroke { x0: (x + w) as u64, y0: (h / 2) as u64, x1: (x + w) as u64, y1: h as u64 },
            Stroke { x0: x as u64, y0: h as u64, x1: (x + w) as u64, y1: h as u64 },
            Stroke { x0: x as u64, y0: (h / 2) as u64, x1: x as u64, y1: h as u64 },
            Stroke { x0: x as u64, y0: 0, x1: x as u64, y1: (h / 2) as u64 },
            Stroke { x0: x as u64, y0: (h / 2) as u64, x1: (x + w) as u64, y1: (h / 2) as u64 },
        ];
        lit_only(s, all, 0)
    }
}

/// The strokes of `all` from position `i` on whose segment is lit.
pub open spec fn lit_only(s: Seq<bool>, all: Seq<Stroke>, i: int) -> Seq<Stroke>
    decreases 7 - i,
{
    if i >= 7 || i < 0 {
        Seq::empty()
    } else if s[i] {
        seq![all[i]] + lit_only(s, all, i + 1)
    } else {
        lit_only(s, all, i + 1)
    }
}


/// The advance of each glyph of `s` with the gap after it, per unit of scale.
pub open spec fn advance_units(s: Seq<char>) -> int
    decreases s.len(),
{
    if s.len() == 0 {
        0
    } else {
        advance_units(s.drop_last()) + glyph_px(s.last()) + 4
    }
}

proof fn lemma_advance_bounds(s: Seq<char>)
    ensures
        0 <= advance_units(s) <= 12 * s.len(),
    decreases s.len(),
{
    if s.len() > 0 {
        lemma_advance_bounds(s.drop_last());
    }
}

/// Whether glyph `i` is blanked (a blinking colon in its off phase).
pub open spec fn blanked(mask: Seq<bool>, i: int) -> bool {
    0 <= i < mask.len() && mask[i]
}

/// The strokes of glyphs `i..` of `text` at scale `k`, each glyph placed
/// after the ones before it; blanked glyphs are skipped but keep their room.
pub open spec fn text_strokes(text: Seq<char>, k: int, mask: Seq<bool>, i: int) -> Seq<Stroke>
    decreases text.len() - i,
{
    if i < 0 || i >= text.len() {
        Seq::empty()
    } else {
        (if blanked(mask, i) {
            Seq::empty()
        } else {
            glyph_strokes(text[i], 10 * k * advance_units(text.take(i)), k)
        }) + text_strokes(text, k, mask, i + 1)
    }
}

fn glyph_strokes_exec(c: char, x: u64, k: u64) -> (r: Vec<Stroke>)
    requires
        k <= 1_000_000_000,
        x + 80 * k <= 1_000_000_000_000_000_000,
    ensures
        r@ == glyph_strokes(c, x as int, k as int),
{
    let w = 80 * k;
    let h = 160 * k;
    let mut r: Vec<Stroke> = Vec::new();
    if c == ':' {
        let cx = x + 20 * k;
        r.push(Stroke { x0: cx, y0: 48 * k - 10 * k, x1: cx, y1: 48 * k + 10 * k });
        r.push(Stroke { x0: cx, y0: 112 * k - 10 * k, x1: cx, y1: 112 * k + 10 * k });
        assert(r@ =~= glyph_strokes(c, x as int, k as int));
        return r;
    }
    let seg = segments(c);
    let all = [
        Stroke { x0: x, y0: 0, x1: x + w, y1: 0 },
        Stroke { x0: x + w, y0: 0, x1: x + w, y1: h / 2 },
        Stroke { x0: x + w, y0: h / 2, x1: x + w, y1: h },
        Stroke { x0: x, y0: h, x1: x + w, y1: h },
        Stroke { x0: x, y0: h / 2, x1: x, y1: h },
        Stroke { x0: x, y0: 0, x1: x, y1: h / 2 },
        Stroke { x0: x, y0: h / 2, x1: x + w, y1: h / 2 },
    ];
    let ghost spec_all = seq![
        Stroke { x0: x as u64, y0: 0, x1: (x + w) as u64, y1: 0 },
        Stroke { x0: (x + w) as u64, y0: 0, x1: (x + w) as u64, y1: (h / 2) as u64 },
        Stroke { x0: (x + w) as u64, y0: (h / 2) as u64, x1: (x + w) as u64, y1: h as u64 },
        Stroke { x0: x as u64, y0: h as u64, x1: (x + w) as u64, y1: h as u64 },
        Stroke { x0: x as u64, y0: (h / 2) as u64, x1: x as u64, y1: h as u64 },
        Stroke { x0: x as u64, y0: 0, x1: x as u64, y1: (h / 2) as u64 },
        Stroke { x0: x as u64, y0: (h / 2) as u64, x1: (x + w) as u64, y1: (h / 2) as u64 },
    ];
    assert(all@ =~= spec_all);
    let mut i: usize = 0;
    while i < 7
        invariant
            i <= 7,
            all@ == spec_all,
            seg@ == lit_segments(c),
            r@ + lit_only(seg@, spec_all, i as int) == lit_only(seg@, spec_all, 0),
        decreases 7 - i,
    {
        if seg[i] {
            r.push(all[i]);
            assert(r@ + lit_only(seg@, spec_all, i as int + 1) =~= r@.drop_last() + lit_only(seg@, spec_all, i as int));
        }
        i += 1;
    }
    assert(lit_only(seg@, spec_all, 7) =~= Seq::<Stroke>::empty());
    assert(r@ =~= r@ + lit_only(seg@, spec_all, 7));
    r
}

/// The strokes that draw `text` at `scale`, skipping blanked glyphs.
pub fn draw(text: &str, scale: usize, mask: &[bool]) -> (r: Vec<Stroke>)
    requires
        scale <= 1_000_000_000,
        text@.len() <= 1_000_000,
    ensures
        r@ == text_strokes(text@, scale as int, mask@, 0),
{
    let n = text.unicode_len();
    let k = scale as u64;
    let mut r: Vec<Stroke> = Vec::new();
    let mut x: u64 = 0;
    let mut i: usize = 0;
    while i < n
        invariant
            n == text@.len(),
            n <= 1_000_000,
            k == scale,
            k <= 1_000_000_000,
            i <= n,
            x == 10 * k * advance_units(text@.take(i as int)),
            r@ + text_strokes(text@, k as int, mask@, i as int) == text_strokes(text@, k as int, mask@, 0),
        decreases n - i,
    {
        let c = text.get_char(i);
        proof {
            lemma_advance_bounds(text@.take(i as int));
            assert(text@.take(i as int + 1).drop_last() =~= text@.take(i as int));
        }
        let ghost adv = advance_units(text@.take(i as int));
        assert(text@.take(i as int).len() == i);
        assert(adv <= 12_000_000);
        assert(adv * k <= 12_000_000 * 1_000_000_000) by (nonlinear_arith)
            requires
                0 <= adv <= 12_000_000,
                0 <= k <= 1_000_000_000,
        ;
        assert(x == 10 * (adv * k)) by (nonlinear_arith)
            requires
                x == 10 * k * adv,
        ;
        assert(x <= 120_000_000_000_000_000);
        assert(80 * k <= 80_000_000_000);
        assert(x + 80 * k <= 1_000_000_000_000_000_000);
        let blank = i < mask.len() && mask[i];
        let ghost before = r@;
        if !blank {
            let g = glyph_strokes_exec(c, x, k);
            r.append(&mut g.clone());
            proof {
                assert(r@ == before + g@);
            }
        }
        assert(r@ + text_strokes(text@, k as int, mask@, i as int + 1) =~= before + text_strokes(text@, k as int, mask@, i as int));
        let step: u64 = if c == ':' { 8 } else { 12 };
        assert(x + 10 * k * step == 10 * k * advance_units(text@.take(i as int + 1))) by (nonlinear_arith)
            requires
                x == 10 * k * advance_units(text@.take(i as int)),
                advance_units(text@.take(i as int + 1)) == advance_units(text@.take(i as int)) + step,
        ;
        x = x + 10 * k * step;
        i += 1;
    }
    assert(text_strokes(text@, k as int, mask@, n as int) =~= Seq::<Stroke>::empty());
    assert(r@ =~= r@ + text_strokes(text@, k as int, mask@, n as int));
    r
}


/// The braille canvas a time needs, in terminal cells: two sub-pixels per
/// column and four per row, with one cell to spare each way.
pub fn canvas_size(text: &str, scale: usize) -> (r: (usize, usize))
    requires
        1 <= scale <= 1_000_000,
        12 * text@.len() * scale <= usize::MAX - 2,
    ensures
        r.0 == half_up(scale * row_units(text@)) + 1,
        r.1 == 4 * scale + 1,
{
    let w = total_px_w(text, scale);
    proof {
        lemma_row_units_bounds(text@);
        assert(scale * row_units(text@) <= 12 * text@.len() * scale) by (nonlinear_arith)
            requires
                row_units(text@) <= 12 * text@.len(),
                1 <= scale,
        ;
    }
    (w / 2 + w % 2 + 1, 4 * scale + 1)
}

} // verus!
