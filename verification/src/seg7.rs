//! Seven-segment digits composed directly in terminal cells.
//!
//! All measurements are multiples of a unit `u`. A terminal cell is about
//! twice as tall as it is wide, so vertical bars are `2u` columns thick and
//! horizontal bars `u` rows: a digit is `8u` columns wide and `7u` rows tall.
use vstd::prelude::*;

verus! {

pub open spec fn digit_w_spec(u: int) -> int {
    8 * u
}

pub open spec fn digit_h_spec(u: int) -> int {
    7 * u
}

/// Width of a digit at unit `u`.
pub fn digit_w(u: usize) -> (w: usize)
    requires
        8 * u <= usize::MAX,
    ensures
        w == digit_w_spec(u as int),
{
    8 * u
}

/// Height of a digit at unit `u`.
pub fn digit_h(u: usize) -> (h: usize)
    requires
        7 * u <= usize::MAX,
    ensures
        h == digit_h_spec(u as int),
{
    7 * u
}

/// A `2u x u` dot is square on screen.
pub fn colon_w(u: usize) -> (w: usize)
    requires
        2 * u <= usize::MAX,
    ensures
        w == 2 * u,
{
    2 * u
}

/// The gap between two glyphs.
pub fn gap(u: usize) -> (g: usize)
    ensures
        g == u,
{
    u
}

/// Width of a glyph in units of `u`.
pub open spec fn glyph_units(c: char) -> int {
    if c == ':' { 2 } else { 8 }
}

pub fn advance(c: char, u: usize) -> (a: usize)
    requires
        8 * u <= usize::MAX,
    ensures
        a == glyph_units(c) * u,
{
    if c == ':' {
        colon_w(u)
    } else {
        digit_w(u)
    }
}

/// Sum of the glyph widths of `s`, in units.
pub open spec fn units(s: Seq<char>) -> int
    decreases s.len(),
{
    if s.len() == 0 {
        0
    } else {
        units(s.drop_last()) + glyph_units(s.last())
    }
}

/// Width of text `s` at unit `u`: its glyphs plus a gap of `u` between
/// neighbours.
pub open spec fn width_spec(s: Seq<char>, u: int) -> int {
    if s.len() == 0 {
        0
    } else {
        u * (units(s) + s.len() - 1)
    }
}

pub proof fn lemma_units_bounds(s: Seq<char>)
    ensures
        2 * s.len() <= units(s) <= 8 * s.len(),
    decreases s.len(),
{
    if s.len() > 0 {
        lemma_units_bounds(s.drop_last());
    }
}

/// `units` of `s` and its glyph count, as one number: `units(s) + len - 1`.
fn span_units(s: &Vec<char>) -> (k: u128)
    requires
        s@.len() > 0,
        s@.len() <= usize::MAX,
    ensures
        k == units(s@) + s@.len() - 1,
{
    let n = s.len();
    let mut acc: u128 = 0;
    let mut i: usize = 0;
    while i < n
        invariant
            n == s@.len(),
            n <= usize::MAX,
            i <= n,
            acc == units(s@.subrange(0, i as int)),
        decreases n - i,
    {
        proof {
            lemma_units_bounds(s@.subrange(0, i as int));
            assert(s@.subrange(0, i + 1).drop_last() == s@.subrange(0, i as int));
        }
        acc = acc + if s[i] == ':' { 2 } else { 8 };
        i += 1;
    }
    proof {
        assert(s@.subrange(0, n as int) == s@);
        lemma_units_bounds(s@);
    }
    acc + (n as u128) - 1
}

fn chars_of(text: &str) -> (v: Vec<char>)
    ensures
        v@ == text@,
{
    let n = text.unicode_len();
    let mut v: Vec<char> = Vec::new();
    let mut i: usize = 0;
    while i < n
        invariant
            n == text@.len(),
            i <= n,
            v@ == text@.subrange(0, i as int),
        decreases n - i,
    {
        v.push(text.get_char(i));
        i += 1;
    }
    assert(v@ =~= text@);
    v
}

/// Total width of `text` at unit `u`, including the gaps between glyphs.
pub fn width_of(text: &str, u: usize) -> (w: usize)
    requires
        width_spec(text@, u as int) <= usize::MAX,
    ensures
        w == width_spec(text@, u as int),
{
    let v = chars_of(text);
    if v.len() == 0 {
        return 0;
    }
    let k = span_units(&v);
    proof {
        lemma_units_bounds(text@);
    }
    assert((u as u128) * k <= usize::MAX) by {
        assert(width_spec(text@, u as int) == u * k);
    }
    ((u as u128) * k) as usize
}

/// The text `fit_unit` sizes for: with seconds hidden a short time is
/// padded with `":00"`, so the size doesn't jump when seconds are shown.
pub open spec fn fit_text(text: Seq<char>, show_seconds: bool) -> Seq<char> {
    if show_seconds || text.len() > 5 {
        text
    } else {
        text + seq![':', '0', '0']
    }
}

pub open spec fn unit_fits(t: Seq<char>, u: int, avail_w: int, avail_h: int) -> bool {
    width_spec(t, u) <= avail_w && digit_h_spec(u) <= avail_h
}

pub open spec fn max1(x: int) -> int {
    if x < 1 { 1 } else { x }
}

/// `u` is the largest unit in `1..=max(m, 1)` at which `t` fits the area
/// `w` by `h`, or 1 when none does.
pub open spec fn largest_fit(t: Seq<char>, u: int, w: int, h: int, m: int) -> bool {
    &&& 1 <= u <= max1(m)
    &&& (exists|v: int| 1 <= v <= max1(m) && #[trigger] unit_fits(t, v, w, h)) ==> unit_fits(t, u, w, h)
    &&& forall|v: int| u < v <= max1(m) ==> !#[trigger] unit_fits(t, v, w, h)
    &&& (forall|v: int| 1 <= v <= max1(m) ==> !#[trigger] unit_fits(t, v, w, h)) ==> u == 1
}

/// The largest unit in `1..=max(max_u, 1)` at which the (padded) text fits
/// the area; 1 when none does.
pub fn fit_unit(text: &str, show_seconds: bool, avail_w: usize, avail_h: usize, max_u: usize) -> (u: usize)
    requires
        width_spec(fit_text(text@, show_seconds), max1(max_u as int)) <= usize::MAX,
        7 * max1(max_u as int) <= usize::MAX,
    ensures
        1 <= u <= max1(max_u as int),
        (exists|v: int| 1 <= v <= max1(max_u as int) && unit_fits(fit_text(text@, show_seconds), v, avail_w as int, avail_h as int))
            ==> unit_fits(fit_text(text@, show_seconds), u as int, avail_w as int, avail_h as int),
        forall|v: int| u < v <= max1(max_u as int) ==> !unit_fits(fit_text(text@, show_seconds), v, avail_w as int, avail_h as int),
        (forall|v: int| 1 <= v <= max1(max_u as int) ==> !unit_fits(fit_text(text@, show_seconds), v, avail_w as int, avail_h as int))
            ==> u == 1,
        largest_fit(fit_text(text@, show_seconds), u as int, avail_w as int, avail_h as int, max_u as int),
{
    let ghost t = fit_text(text@, show_seconds);
    let mut v = chars_of(text);
    if !(show_seconds || v.len() > 5) {
        v.push(':');
        v.push('0');
        v.push('0');
    }
    assert(v@ =~= t);
    let top: usize = if max_u < 1 { 1 } else { max_u };
    let k: u128 = if v.len() == 0 { 0 } else { span_units(&v) };
    proof {
        lemma_units_bounds(t);
        assert(width_spec(t, top as int) == top * k);
    }
    let mut u: usize = top;
    while u >= 1
        invariant
            top == max1(max_u as int),
            t == fit_text(text@, show_seconds),
            u <= top,
            7 * top <= usize::MAX,
            v@ == t,
            k == (if t.len() == 0 { 0 } else { units(t) + t.len() - 1 }),
            top * k <= usize::MAX,
            forall|w: int| u < w <= top ==> !unit_fits(t, w, avail_w as int, avail_h as int),
        decreases u,
    {
        assert(u * k <= top * k) by (nonlinear_arith)
            requires
                u <= top,
        ;
        assert(width_spec(t, u as int) == u * k);
        let w: u128 = (u as u128) * k;
        if w <= avail_w as u128 && 7 * u <= avail_h {
            return u;
        }
        u -= 1;
    }
    1
}

/// ASCII upper-casing of one character.
pub open spec fn upper_char(c: char) -> char {
    if 'a' <= c && c <= 'z' {
        ((c as int) - 32) as char
    } else {
        c
    }
}

/// Which of the seven segments are lit, in the order a (top), b (upper
/// right), c (lower right), d (bottom), e (lower left), f (upper left),
/// g (middle); `None` for a character that has no seven-segment form.
pub open spec fn seg_spec(c: char) -> Option<Seq<bool>> {
    let u = upper_char(c);
    if u == '0' { Some(seq![true, true, true, true, true, true, false]) }
    else if u == '1' { Some(seq![false, true, true, false, false, false, false]) }
    else if u == '2' { Some(seq![true, true, false, true, true, false, true]) }
    else if u == '3' { Some(seq![true, true, true, true, false, false, true]) }
    else if u == '4' { Some(seq![false, true, true, false, false, true, true]) }
    else if u == '5' { Some(seq![true, false, true, true, false, true, true]) }
    else if u == '6' { Some(seq![true, false, true, true, true, true, true]) }
    else if u == '7' { Some(seq![true, true, true, false, false, false, false]) }
    else if u == '8' { Some(seq![true, true, true, true, true, true, true]) }
    else if u == '9' { Some(seq![true, true, true, true, false, true, true]) }
    else if u == 'A' { Some(seq![true, true, true, false, true, true, true]) }
    else if u == 'P' { Some(seq![true, true, false, false, true, true, true]) }
    else if u == 'M' { Some(seq![true, true, true, false, true, true, false]) }
    else { None }
}

/// The segments lit for a digit or one of the letters A, P, M.
pub fn segments(c: char) -> (r: Option<[bool; 7]>)
    ensures
        match r {
            Some(a) => seg_spec(c) == Some(a@),
            None => seg_spec(c) is None,
        },
{
    let u: char = if 'a' <= c && c <= 'z' {
        (((c as u32) - 32) as u8) as char
    } else {
        c
    };
    let r: Option<[bool; 7]> = match u {
        '0' => Some([true, true, true, true, true, true, false]),
        '1' => Some([false, true, true, false, false, false, false]),
        '2' => Some([true, true, false, true, true, false, true]),
        '3' => Some([true, true, true, true, false, false, true]),
        '4' => Some([false, true, true, false, false, true, true]),
        '5' => Some([true, false, true, true, false, true, true]),
        '6' => Some([true, false, true, true, true, true, true]),
        '7' => Some([true, true, true, false, false, false, false]),
        '8' => Some([true, true, true, true, true, true, true]),
        '9' => Some([true, true, true, true, false, true, true]),
        'A' => Some([true, true, true, false, true, true, true]),
        'P' => Some([true, true, false, false, true, true, true]),
        'M' => Some([true, true, true, false, true, true, false]),
        _ => None,
    };
    proof {
        match r {
            Some(a) => { assert(seg_spec(c) == Some(a@)); },
            None => {},
        }
    }
    r
}

/// Whether bar `i` of a digit at unit `u` covers row `r`, column `x` of the
/// glyph box. Horizontal bars span the full width, vertical bars half the
/// height, and they meet flush so corners are solid.
pub open spec fn in_bar(i: int, u: int, r: int, x: int) -> bool {
    if i == 0 {
        0 <= r < u && 0 <= x < 8 * u
    } else if i == 1 {
        0 <= r < 4 * u && 6 * u <= x < 8 * u
    } else if i == 2 {
        3 * u <= r < 7 * u && 6 * u <= x < 8 * u
    } else if i == 3 {
        6 * u <= r < 7 * u && 0 <= x < 8 * u
    } else if i == 4 {
        3 * u <= r < 7 * u && 0 <= x < 2 * u
    } else if i == 5 {
        0 <= r < 4 * u && 0 <= x < 2 * u
    } else {
        3 * u <= r < 4 * u && 0 <= x < 8 * u
    }
}

/// Whether a bar with lit-state `on` covers the cell.
pub open spec fn covered(s: Seq<bool>, on: bool, u: int, r: int, x: int) -> bool {
    ||| s[0] == on && in_bar(0, u, r, x)
    ||| s[1] == on && in_bar(1, u, r, x)
    ||| s[2] == on && in_bar(2, u, r, x)
    ||| s[3] == on && in_bar(3, u, r, x)
    ||| s[4] == on && in_bar(4, u, r, x)
    ||| s[5] == on && in_bar(5, u, r, x)
    ||| s[6] == on && in_bar(6, u, r, x)
}

/// The four outer corners are chamfered once bars are thick enough
/// (`u / 3 > 0`), rows counting double since a cell is twice as tall as wide.
pub open spec fn chamfered(u: int, r: int, x: int) -> bool {
    let k = u / 3;
    let (w, h) = (8 * u, 7 * u);
    k > 0 && (2 * r + x < 2 * k || 2 * r + (w - 1 - x) < 2 * k || 2 * (h - 1 - r) + x < 2 * k || 2 * (h - 1 - r) + (w - 1 - x) < 2 * k)
}

/// The two square dots of a colon, at the thirds.
pub open spec fn colon_dot(u: int, r: int, x: int) -> bool {
    0 <= x < 2 * u && (2 * u <= r < 3 * u || 5 * u <= r < 6 * u)
}

/// A cell of the glyph box after drawing glyph `c`, given its old state.
pub open spec fn lit_after(old: bool, c: char, u: int, r: int, x: int) -> bool {
    if c == ':' {
        old || colon_dot(u, r, x)
    } else {
        match seg_spec(c) {
            None => old,
            Some(s) => if chamfered(u, r, x) { false } else { old || covered(s, true, u, r, x) },
        }
    }
}

/// A cell of the faint layer after drawing glyph `c`: unlit segments show
/// when `ghost` is set.
pub open spec fn ghost_after(old: bool, c: char, u: int, ghost: bool, r: int, x: int) -> bool {
    if c == ':' {
        old
    } else {
        match seg_spec(c) {
            None => old,
            Some(s) => if chamfered(u, r, x) { false } else { old || (ghost && covered(s, false, u, r, x)) },
        }
    }
}

pub proof fn lemma_cell_index(r1: int, c1: int, r2: int, c2: int, s: int)
    requires
        0 <= r1,
        0 <= r2,
        0 <= c1 < s,
        0 <= c2 < s,
    ensures
        (r1 * s + c1 == r2 * s + c2) ==> (r1 == r2 && c1 == c2),
        r1 < r2 ==> r1 * s + c1 < r2 * s,
{
    if r1 < r2 {
        assert(r1 * s + s <= r2 * s) by (nonlinear_arith)
            requires
                r1 < r2,
                s > 0,
        ;
    }
    if r2 < r1 {
        assert(r2 * s + s <= r1 * s) by (nonlinear_arith)
            requires
                r2 < r1,
                s > 0,
        ;
    }
}

/// A cell index below `h * s` lies in one of the first `h` rows.
pub proof fn lemma_row_bound(i: int, s: int, h: int)
    requires
        0 <= i < h * s,
        s > 0,
    ensures
        0 <= i / s < h,
        0 <= i % s < s,
{
    vstd::arithmetic::div_mod::lemma_fundamental_div_mod(i, s);
    vstd::arithmetic::div_mod::lemma_mod_bound(i, s);
    let q = i / s;
    let m = i % s;
    assert(0 <= q < h) by (nonlinear_arith)
        requires
            i == s * q + m,
            0 <= m < s,
            0 <= i < h * s,
    ;
}

fn in_bar_exec(i: usize, u: usize, r: usize, x: usize) -> (b: bool)
    requires
        i < 7,
        8 * u <= usize::MAX,
    ensures
        b == in_bar(i as int, u as int, r as int, x as int),
{
    if i == 0 {
        r < u && x < 8 * u
    } else if i == 1 {
        r < 4 * u && 6 * u <= x && x < 8 * u
    } else if i == 2 {
        3 * u <= r && r < 7 * u && 6 * u <= x && x < 8 * u
    } else if i == 3 {
        6 * u <= r && r < 7 * u && x < 8 * u
    } else if i == 4 {
        3 * u <= r && r < 7 * u && x < 2 * u
    } else if i == 5 {
        r < 4 * u && x < 2 * u
    } else {
        3 * u <= r && r < 4 * u && x < 8 * u
    }
}

fn covered_exec(s: &[bool; 7], on: bool, u: usize, r: usize, x: usize) -> (b: bool)
    requires
        8 * u <= usize::MAX,
    ensures
        b == covered(s@, on, u as int, r as int, x as int),
{
    let mut i: usize = 0;
    while i < 7
        invariant
            i <= 7,
            8 * u <= usize::MAX,
            forall|j: int| 0 <= j < i ==> !(s@[j] == on && #[trigger] in_bar(j, u as int, r as int, x as int)),
        decreases 7 - i,
    {
        if s[i] == on && in_bar_exec(i, u, r, x) {
            return true;
        }
        i += 1;
    }
    assert(!in_bar(0, u as int, r as int, x as int) || s@[0] != on);
    assert(!in_bar(1, u as int, r as int, x as int) || s@[1] != on);
    assert(!in_bar(2, u as int, r as int, x as int) || s@[2] != on);
    assert(!in_bar(3, u as int, r as int, x as int) || s@[3] != on);
    assert(!in_bar(4, u as int, r as int, x as int) || s@[4] != on);
    assert(!in_bar(5, u as int, r as int, x as int) || s@[5] != on);
    assert(!in_bar(6, u as int, r as int, x as int) || s@[6] != on);
    false
}

fn chamfered_exec(u: usize, r: usize, x: usize) -> (b: bool)
    requires
        32 * u <= usize::MAX,
        r < 7 * u,
        x < 8 * u,
    ensures
        b == chamfered(u as int, r as int, x as int),
{
    let k = u / 3;
    let (w, h) = (8 * u, 7 * u);
    k > 0 && (2 * r + x < 2 * k || 2 * r + (w - 1 - x) < 2 * k || 2 * (h - 1 - r) + x < 2 * k
        || 2 * (h - 1 - r) + (w - 1 - x) < 2 * k)
}

/// Paints one glyph into `grid` (lit cells) and `ghost_grid` (faint unlit
/// segments), both row-major and `stride` wide, with the glyph box's left
/// edge at column `x0`. Cells of the `8u x 7u` box that fall past the
/// stride are skipped; no cell outside the box changes.
pub fn draw_glyph(
    grid: &mut Vec<bool>,
    ghost_grid: &mut Vec<bool>,
    stride: usize,
    x0: usize,
    c: char,
    u: usize,
    ghost_segments: bool,
)
    requires
        32 * u <= usize::MAX,
        x0 + 8 * u <= usize::MAX,
        7 * u * stride <= old(grid)@.len(),
        7 * u * stride <= old(ghost_grid)@.len(),
    ensures
        final(grid)@.len() == old(grid)@.len(),
        final(ghost_grid)@.len() == old(ghost_grid)@.len(),
        forall|i: int| 0 <= i < 7 * u * stride ==> #[trigger] final(grid)@[i] == (if x0 <= i % (stride as int) < x0 + 8 * u {
            lit_after(old(grid)@[i], c, u as int, i / (stride as int), i % (stride as int) - x0)
        } else {
            old(grid)@[i]
        }),
        forall|i: int| 0 <= i < 7 * u * stride ==> #[trigger] final(ghost_grid)@[i] == (if x0 <= i % (stride as int) < x0 + 8 * u {
            ghost_after(old(ghost_grid)@[i], c, u as int, ghost_segments, i / (stride as int), i % (stride as int) - x0)
        } else {
            old(ghost_grid)@[i]
        }),
        forall|i: int| 7 * u * stride <= i < old(grid)@.len() ==> #[trigger] final(grid)@[i] == old(grid)@[i],
        forall|i: int| 7 * u * stride <= i < old(ghost_grid)@.len() ==> #[trigger] final(ghost_grid)@[i] == old(ghost_grid)@[i],
{
    let ghost g0 = grid@;
    let ghost q0 = ghost_grid@;
    let ghost s = stride as int;
    let (w, h) = (8 * u, 7 * u);
    let glen = grid.len();
    let seg = segments(c);
    let mut r: usize = 0;
    while r < h
        invariant
            w == 8 * u,
            h == 7 * u,
            s == stride,
            32 * u <= usize::MAX,
            x0 + 8 * u <= usize::MAX,
            h * stride <= g0.len(),
            h * stride <= q0.len(),
            g0.len() == glen,
            grid@.len() == g0.len(),
            ghost_grid@.len() == q0.len(),
            r <= h,
            match seg {
                Some(a) => seg_spec(c) == Some(a@),
                None => seg_spec(c) is None,
            },
            forall|i: int| 0 <= i < h * stride ==> #[trigger] grid@[i] == (if i / s < r && x0 <= i % s < x0 + w {
                lit_after(g0[i], c, u as int, i / s, i % s - x0)
            } else {
                g0[i]
            }),
            forall|i: int| 0 <= i < h * stride ==> #[trigger] ghost_grid@[i] == (if i / s < r && x0 <= i % s < x0 + w {
                ghost_after(q0[i], c, u as int, ghost_segments, i / s, i % s - x0)
            } else {
                q0[i]
            }),
            forall|i: int| h * stride <= i < g0.len() ==> #[trigger] grid@[i] == g0[i],
            forall|i: int| h * stride <= i < q0.len() ==> #[trigger] ghost_grid@[i] == q0[i],
        decreases h - r,
    {
        let mut x: usize = 0;
        while x < w
            invariant
                w == 8 * u,
                h == 7 * u,
                s == stride,
                32 * u <= usize::MAX,
                x0 + 8 * u <= usize::MAX,
                h * stride <= g0.len(),
                h * stride <= q0.len(),
                g0.len() == glen,
                grid@.len() == g0.len(),
                ghost_grid@.len() == q0.len(),
                r < h,
                x <= w,
                match seg {
                    Some(a) => seg_spec(c) == Some(a@),
                    None => seg_spec(c) is None,
                },
                forall|i: int| 0 <= i < h * stride ==> #[trigger] grid@[i] == (if (i / s < r || (i / s == r && i % s < x0 + x)) && x0 <= i % s < x0 + w {
                    lit_after(g0[i], c, u as int, i / s, i % s - x0)
                } else {
                    g0[i]
                }),
                forall|i: int| 0 <= i < h * stride ==> #[trigger] ghost_grid@[i] == (if (i / s < r || (i / s == r && i % s < x0 + x)) && x0 <= i % s < x0 + w {
                    ghost_after(q0[i], c, u as int, ghost_segments, i / s, i % s - x0)
                } else {
                    q0[i]
                }),
                forall|i: int| h * stride <= i < g0.len() ==> #[trigger] grid@[i] == g0[i],
                forall|i: int| h * stride <= i < q0.len() ==> #[trigger] ghost_grid@[i] == q0[i],
            decreases w - x,
        {
            let col = x0 + x;
            if col < stride {
                assert(r * stride + col < h * stride) by {
                    lemma_cell_index(r as int, col as int, h as int, 0, stride as int);
                }
                let idx = r * stride + col;
                proof {
                    vstd::arithmetic::div_mod::lemma_fundamental_div_mod_converse(idx as int, s, r as int, col as int);
                }
                let old_lit = grid[idx];
                let old_ghost = ghost_grid[idx];
                let (new_lit, new_ghost) = if c == ':' {
                    let dot = x < 2 * u && ((2 * u <= r && r < 3 * u) || (5 * u <= r && r < 6 * u));
                    (old_lit || dot, old_ghost)
                } else {
                    match &seg {
                        None => (old_lit, old_ghost),
                        Some(sg) => {
                            if chamfered_exec(u, r, x) {
                                (false, false)
                            } else {
                                (
                                    old_lit || covered_exec(sg, true, u, r, x),
                                    old_ghost || (ghost_segments && covered_exec(sg, false, u, r, x)),
                                )
                            }
                        },
                    }
                };
                assert(old_lit == g0[idx as int]);
                assert(old_ghost == q0[idx as int]);
                assert(new_lit == lit_after(g0[idx as int], c, u as int, r as int, x as int));
                assert(new_ghost == ghost_after(q0[idx as int], c, u as int, ghost_segments, r as int, x as int));
                grid.set(idx, new_lit);
                ghost_grid.set(idx, new_ghost);
                assert forall|i: int| #![trigger grid@[i]] 0 <= i < h * stride && i != idx implies !(i / s == r && i % s == col) by {
                    vstd::arithmetic::div_mod::lemma_fundamental_div_mod(i, s);
                    assert(s * (r as int) == (r as int) * s) by (nonlinear_arith);
                }
                assert forall|i: int| #![trigger ghost_grid@[i]] 0 <= i < h * stride && i != idx implies !(i / s == r && i % s == col) by {
                    vstd::arithmetic::div_mod::lemma_fundamental_div_mod(i, s);
                    assert(s * (r as int) == (r as int) * s) by (nonlinear_arith);
                }
            }
            proof {
                assert forall|i: int| #![trigger grid@[i]] 0 <= i < h * stride implies 0 <= i % s < s by {
                    lemma_row_bound(i, s, h as int);
                }
                assert forall|i: int| #![trigger ghost_grid@[i]] 0 <= i < h * stride implies 0 <= i % s < s by {
                    lemma_row_bound(i, s, h as int);
                }
            }
            x += 1;
        }
        r += 1;
    }
    assert forall|i: int| #![trigger grid@[i]] 0 <= i < h * stride implies i / s < h by {
        lemma_row_bound(i, s, h as int);
    }
    assert forall|i: int| #![trigger ghost_grid@[i]] 0 <= i < h * stride implies i / s < h by {
        lemma_row_bound(i, s, h as int);
    }
}

/// The cell grid after drawing glyph `c` at column `x0` into `g`
/// (`stride` wide): the lit layer.
pub open spec fn drawn_lit(g: Seq<bool>, stride: int, x0: int, c: char, u: int) -> Seq<bool> {
    Seq::new(g.len(), |i: int| if i < 7 * u * stride && x0 <= i % stride < x0 + 8 * u {
        lit_after(g[i], c, u, i / stride, i % stride - x0)
    } else {
        g[i]
    })
}

/// The faint layer after drawing glyph `c` at column `x0`.
pub open spec fn drawn_ghost(g: Seq<bool>, stride: int, x0: int, c: char, u: int, ghost: bool) -> Seq<bool> {
    Seq::new(g.len(), |i: int| if i < 7 * u * stride && x0 <= i % stride < x0 + 8 * u {
        ghost_after(g[i], c, u, ghost, i / stride, i % stride - x0)
    } else {
        g[i]
    })
}

/// The left edge of glyph `i`: the advances and gaps of the glyphs before it.
pub open spec fn glyph_x(text: Seq<char>, u: int, i: int) -> int {
    u * (units(text.take(i)) + i)
}

pub open spec fn masked(mask: Seq<bool>, i: int) -> bool {
    i < mask.len() && mask[i]
}

/// The lit layer after the first `k` glyphs of `text` are drawn.
pub open spec fn composed_lit(text: Seq<char>, u: int, mask: Seq<bool>, k: int) -> Seq<bool>
    decreases k,
{
    if k <= 0 {
        Seq::new((width_spec(text, u) * 7 * u) as nat, |i: int| false)
    } else {
        let prev = composed_lit(text, u, mask, k - 1);
        if masked(mask, k - 1) {
            prev
        } else {
            drawn_lit(prev, width_spec(text, u), glyph_x(text, u, k - 1), text[k - 1], u)
        }
    }
}

/// The faint layer after the first `k` glyphs of `text` are drawn.
pub open spec fn composed_ghost(text: Seq<char>, u: int, mask: Seq<bool>, ghost: bool, k: int) -> Seq<bool>
    decreases k,
{
    if k <= 0 {
        Seq::new((width_spec(text, u) * 7 * u) as nat, |i: int| false)
    } else {
        let prev = composed_ghost(text, u, mask, ghost, k - 1);
        if masked(mask, k - 1) {
            prev
        } else {
            drawn_ghost(prev, width_spec(text, u), glyph_x(text, u, k - 1), text[k - 1], u, ghost)
        }
    }
}

/// A block of seven-segment text as cells: `width` columns by `height`
/// rows, row-major, with lit cells and faint (ghost) cells.
pub struct Composed {
    pub width: usize,
    pub height: usize,
    pub lit: Vec<bool>,
    pub faint: Vec<bool>,
}

/// Lays out `text` as seven-segment glyphs at unit `max(u, 1)`, glyphs
/// separated by a gap of `u`; glyph `i` is left blank where `blink_mask[i]`
/// is set. Empty text gives an empty block.
pub fn compose(text: &str, u: usize, blink_mask: &[bool], ghost_segments: bool) -> (r: Composed)
    requires
        32 * u <= usize::MAX,
        32 <= usize::MAX,
        width_spec(text@, if u < 1 { 1 } else { u as int }) * 7 * (if u < 1 { 1 } else { u as int }) <= usize::MAX,
    ensures
        ({
            let uu = if u < 1 { 1 } else { u as int };
            &&& r.width == width_spec(text@, uu)
            &&& r.height == (if r.width == 0 { 0 } else { 7 * uu })
            &&& r.width > 0 ==> r.lit@ == composed_lit(text@, uu, blink_mask@, text@.len() as int)
            &&& r.width > 0 ==> r.faint@ == composed_ghost(text@, uu, blink_mask@, ghost_segments, text@.len() as int)
            &&& r.width == 0 ==> r.lit@.len() == 0 && r.faint@.len() == 0
        }),
{
    let u = if u < 1 { 1 } else { u };
    proof {
        lemma_units_bounds(text@);
        if text@.len() > 0 {
            assert(width_spec(text@, u as int) >= 2 * u) by (nonlinear_arith)
                requires
                    width_spec(text@, u as int) == u * (units(text@) + text@.len() - 1),
                    units(text@) >= 2,
                    text@.len() >= 1,
                    u >= 1,
            ;
            assert(width_spec(text@, u as int) + 8 * u <= width_spec(text@, u as int) * 7 * u) by (nonlinear_arith)
                requires
                    width_spec(text@, u as int) >= 2 * u,
                    u >= 1,
            ;
        }
    }
    let w = width_of(text, u);
    if w == 0 {
        return Composed { width: 0, height: 0, lit: Vec::new(), faint: Vec::new() };
    }
    let h = digit_h(u);
    let chars = chars_of(text);
    let n = chars.len();
    assert(w * h == width_spec(text@, u as int) * 7 * u) by (nonlinear_arith)
        requires
            h == 7 * u,
            w == width_spec(text@, u as int),
    ;
    let mut grid: Vec<bool> = vec![false; w * h];
    let mut ghost_grid: Vec<bool> = vec![false; w * h];
    assert(grid@ =~= composed_lit(text@, u as int, blink_mask@, 0));
    assert(ghost_grid@ =~= composed_ghost(text@, u as int, blink_mask@, ghost_segments, 0));
    let mut x: usize = 0;
    let mut i: usize = 0;
    assert(7 * u * w == w * h) by (nonlinear_arith)
        requires
            h == 7 * u,
    ;
    assert(text@.take(0) =~= Seq::<char>::empty());
    assert(units(text@.take(0)) == 0);
    assert(glyph_x(text@, u as int, 0) == 0) by (nonlinear_arith)
        requires
            glyph_x(text@, u as int, 0) == u * (units(text@.take(0)) + 0),
            units(text@.take(0)) == 0,
    ;
    while i < n
        invariant
            1 <= u,
            32 * u <= usize::MAX,
            chars@ == text@,
            n == text@.len(),
            n > 0,
            w == width_spec(text@, u as int),
            h == 7 * u,
            w * h <= usize::MAX,
            w + 8 * u <= usize::MAX,
            w * h == width_spec(text@, u as int) * 7 * u,
            i <= n,
            x == glyph_x(text@, u as int, i as int),
            grid@ == composed_lit(text@, u as int, blink_mask@, i as int),
            ghost_grid@ == composed_ghost(text@, u as int, blink_mask@, ghost_segments, i as int),
            grid@.len() == w * h,
            ghost_grid@.len() == w * h,
            7 * u * w == w * h,
        decreases n - i,
    {
        proof {
            lemma_units_prefix(text@, i as int);
            lemma_glyph_x_bound(text@, u as int, i as int);
        }
        let c = chars[i];
        let blank = i < blink_mask.len() && blink_mask[i];
        if !blank {
            let ghost g0 = grid@;
            let ghost q0 = ghost_grid@;
            draw_glyph(&mut grid, &mut ghost_grid, w, x, c, u, ghost_segments);
            assert(grid@ =~= drawn_lit(g0, w as int, x as int, c, u as int));
            assert(ghost_grid@ =~= drawn_ghost(q0, w as int, x as int, c, u as int, ghost_segments));
        }
        x = x + advance(c, u) + gap(u);
        i += 1;
    }
    Composed { width: w, height: h, lit: grid, faint: ghost_grid }
}

proof fn lemma_units_prefix(s: Seq<char>, i: int)
    requires
        0 <= i < s.len(),
    ensures
        units(s.take(i + 1)) == units(s.take(i)) + glyph_units(s[i]),
{
    assert(s.take(i + 1).drop_last() =~= s.take(i));
}

proof fn lemma_units_take_le(s: Seq<char>, i: int)
    requires
        0 <= i <= s.len(),
    ensures
        units(s.take(i)) <= units(s),
    decreases s.len() - i,
{
    if i < s.len() {
        lemma_units_prefix(s, i);
        lemma_units_take_le(s, i + 1);
    } else {
        assert(s.take(i) =~= s);
    }
}

/// A glyph starts inside the block, with its whole box within reach.
proof fn lemma_glyph_x_bound(s: Seq<char>, u: int, i: int)
    requires
        0 <= i < s.len(),
        u >= 1,
    ensures
        0 <= glyph_x(s, u, i) + 8 * u <= width_spec(s, u) + 8 * u,
        glyph_x(s, u, i) + glyph_units(s[i]) * u + u == glyph_x(s, u, i + 1),
        glyph_x(s, u, i + 1) <= width_spec(s, u) + u,
{
    lemma_units_prefix(s, i);
    lemma_units_take_le(s, i);
    lemma_units_bounds(s.take(i));
    assert(glyph_x(s, u, i) <= width_spec(s, u)) by (nonlinear_arith)
        requires
            glyph_x(s, u, i) == u * (units(s.take(i)) + i),
            width_spec(s, u) == u * (units(s) + s.len() - 1),
            units(s.take(i)) <= units(s),
            i <= s.len() - 1,
            u >= 1,
    ;
    assert(glyph_x(s, u, i) >= 0) by (nonlinear_arith)
        requires
            glyph_x(s, u, i) == u * (units(s.take(i)) + i),
            units(s.take(i)) >= 0,
            i >= 0,
            u >= 1,
    ;
    lemma_units_take_le(s, i + 1);
    assert(glyph_x(s, u, i + 1) <= width_spec(s, u) + u) by (nonlinear_arith)
        requires
            glyph_x(s, u, i + 1) == u * (units(s.take(i + 1)) + i + 1),
            width_spec(s, u) == u * (units(s) + s.len() - 1),
            units(s.take(i + 1)) <= units(s),
            i + 1 <= s.len(),
            u >= 1,
    ;
    assert(glyph_x(s, u, i) + glyph_units(s[i]) * u + u == glyph_x(s, u, i + 1)) by (nonlinear_arith)
        requires
            glyph_x(s, u, i) == u * (units(s.take(i)) + i),
            glyph_x(s, u, i + 1) == u * (units(s.take(i + 1)) + i + 1),
            units(s.take(i + 1)) == units(s.take(i)) + glyph_units(s[i]),
    ;
}

} // verus!
