//! Where things go on the terminal: the face picker's grid of cards, the
//! bottom hint bar, and centered blocks of text. The caller moves the
//! cursor and prints; these functions only compute positions and text.
use crate::config::{face_at, Face, FACE_COUNT};
use crate::keys::PickerStep;
use crate::session::{clamp, PICKER_COLS};
use crate::text::{owned, push_char};
use vstd::prelude::*;

verus! {

/// `x` cut off at zero, as `saturating_sub` leaves a difference.
pub open spec fn sat(x: int) -> int {
    if x < 0 { 0 } else { x }
}

/// Sizes and origin of the face picker's grid of cards.
#[derive(Clone, Copy, Debug, PartialEq, Eq, Structural)]
pub struct PickerLayout {
    /// Outer size of one card.
    pub box_w: u16,
    pub box_h: u16,
    /// Room for the preview inside a card's border.
    pub cell_w: u16,
    pub cell_h: u16,
    /// Size of the whole grid, labels included.
    pub total_w: u16,
    pub total_h: u16,
    /// Top-left corner of the grid.
    pub start_col: u16,
    pub start_row: u16,
}

/// The picker layout for a terminal of `term_w` by `term_h` cells: three
/// columns of cards two cells apart, each with a one-row label below,
/// sized to fill the screen within 16..=46 by 6..=14 cells, and centered.
pub open spec fn picker_layout_of(term_w: int, term_h: int) -> PickerLayout {
    let box_w = clamp((sat(term_w - 4) - 4) / 3, 16, 46);
    let box_h = clamp(sat(sat(term_h - 4) / 6 - 1), 6, 14);
    let total_w = 3 * box_w + 4;
    let total_h = 6 * (box_h + 1);
    PickerLayout {
        box_w: box_w as u16,
        box_h: box_h as u16,
        cell_w: (box_w - 2) as u16,
        cell_h: (box_h - 2) as u16,
        total_w: total_w as u16,
        total_h: total_h as u16,
        start_col: (sat(term_w - total_w) / 2) as u16,
        start_row: (sat(term_h - (total_h + 1)) / 2) as u16,
    }
}

/// Lays out the picker grid. The terminal must be at least 8 columns wide.
pub fn picker_layout(term_w: u16, term_h: u16) -> (l: PickerLayout)
    requires
        term_w >= 8,
    ensures
        l == picker_layout_of(term_w as int, term_h as int),
        layout_ok(l),
{
    proof {
        lemma_layout_ok(term_w as int, term_h as int);
    }
    let gap_x: u16 = 2;
    let label_h: u16 = 1;
    let cols = PICKER_COLS as u16;
    let grid_rows = ((FACE_COUNT + PICKER_COLS - 1) / PICKER_COLS) as u16;
    assert(grid_rows == 6);
    let bw = (term_w.saturating_sub(4) - gap_x * (cols - 1)) / cols;
    let box_w: u16 = if bw < 16 { 16 } else if bw > 46 { 46 } else { bw };
    let bh = (term_h.saturating_sub(4) / grid_rows).saturating_sub(label_h);
    let box_h: u16 = if bh < 6 { 6 } else if bh > 14 { 14 } else { bh };
    let total_w = cols * box_w + (cols - 1) * gap_x;
    assert(grid_rows * (box_h + label_h) <= 90) by (nonlinear_arith)
        requires
            grid_rows == 6,
            box_h <= 14,
            label_h == 1,
    ;
    let total_h = grid_rows * (box_h + label_h);
    PickerLayout {
        box_w,
        box_h,
        cell_w: box_w - 2,
        cell_h: box_h - 2,
        total_w,
        total_h,
        start_col: term_w.saturating_sub(total_w) / 2,
        start_row: term_h.saturating_sub(total_h + 1) / 2,
    }
}

/// A layout as `picker_layout` makes them.
pub open spec fn layout_ok(l: PickerLayout) -> bool {
    &&& 16 <= l.box_w <= 46
    &&& 6 <= l.box_h <= 14
    &&& l.start_col <= 32767
    &&& l.start_row <= 32767
}

/// Column of the left edge of card `i`.
pub open spec fn card_x(l: PickerLayout, i: int) -> int {
    l.start_col + (i % 3) * (l.box_w + 2)
}

/// Row of the top edge of card `i`.
pub open spec fn card_y(l: PickerLayout, i: int) -> int {
    l.start_row + (i / 3) * (l.box_h + 1)
}

/// Whether cell `(cx, cy)` falls on card `i` or on its label.
pub open spec fn on_card(l: PickerLayout, i: int, cx: int, cy: int) -> bool {
    card_x(l, i) <= cx < card_x(l, i) + l.box_w && card_y(l, i) <= cy < card_y(l, i) + l.box_h + 1
}

proof fn lemma_layout_ok(term_w: int, term_h: int)
    requires
        0 <= term_w <= u16::MAX,
        0 <= term_h <= u16::MAX,
    ensures
        layout_ok(picker_layout_of(term_w, term_h)),
{
}

/// The top-left corner of card `i`.
pub fn card_origin(l: PickerLayout, i: usize) -> (p: (u16, u16))
    requires
        layout_ok(l),
        i < FACE_COUNT,
    ensures
        p.0 == card_x(l, i as int),
        p.1 == card_y(l, i as int),
        p.0 <= 32767 + 96,
        p.1 <= 32767 + 90,
{
    let col = (i % PICKER_COLS) as u16;
    let row = (i / PICKER_COLS) as u16;
    assert(col * (l.box_w + 2) <= 96) by (nonlinear_arith)
        requires
            col <= 2,
            l.box_w <= 46,
    ;
    assert(row * (l.box_h + 1) <= 90) by (nonlinear_arith)
        requires
            row <= 5,
            l.box_h <= 14,
    ;
    (l.start_col + col * (l.box_w + 2), l.start_row + row * (l.box_h + 1))
}

/// The card under a mouse click at `(cx, cy)`, if any.
pub fn card_at(l: PickerLayout, cx: u16, cy: u16) -> (r: Option<usize>)
    requires
        layout_ok(l),
    ensures
        match r {
            Some(i) => i < FACE_COUNT && on_card(l, i as int, cx as int, cy as int)
                && forall|j: int| 0 <= j < i ==> !#[trigger] on_card(l, j, cx as int, cy as int),
            None => forall|j: int| 0 <= j < FACE_COUNT ==> !#[trigger] on_card(l, j, cx as int, cy as int),
        },
{
    let mut i: usize = 0;
    while i < FACE_COUNT
        invariant
            layout_ok(l),
            i <= FACE_COUNT,
            forall|j: int| 0 <= j < i ==> !#[trigger] on_card(l, j, cx as int, cy as int),
        decreases FACE_COUNT - i,
    {
        let (x0, y0) = card_origin(l, i);
        if cx >= x0 && cx < x0 + l.box_w && cy >= y0 && cy < y0 + l.box_h + 1 {
            return Some(i);
        }
        i += 1;
    }
    None
}

/// A left click in the picker: clicking the selected card picks its face,
/// clicking another card selects it, and a click off the cards does nothing.
pub fn picker_click(selected: usize, l: PickerLayout, cx: u16, cy: u16) -> (r: PickerStep)
    requires
        layout_ok(l),
    ensures
        match card_at_spec(l, cx as int, cy as int) {
            Some(i) => if i == selected {
                r.picker is None && r.chosen == Some(face_at(i)) && r.needs_clear
            } else {
                r.picker == Some(i as usize) && r.chosen is None && !r.needs_clear
            },
            None => r.picker == Some(selected) && r.chosen is None && !r.needs_clear,
        },
{
    let hit = card_at(l, cx, cy);
    proof {
        lemma_card_at_spec(l, cx as int, cy as int, hit);
    }
    match hit {
        Some(i) => if i == selected {
            PickerStep { picker: None, chosen: Some(Face::from_index(i)), needs_clear: true }
        } else {
            PickerStep { picker: Some(i), chosen: None, needs_clear: false }
        },
        None => PickerStep { picker: Some(selected), chosen: None, needs_clear: false },
    }
}

/// The first card, in reading order, that a click at `(cx, cy)` falls on.
pub open spec fn card_at_spec(l: PickerLayout, cx: int, cy: int) -> Option<int> {
    if exists|i: int| 0 <= i < FACE_COUNT && #[trigger] on_card(l, i, cx, cy) {
        Some(choose|i: int| 0 <= i < FACE_COUNT && #[trigger] on_card(l, i, cx, cy) && forall|j: int| 0 <= j < i ==> !on_card(l, j, cx, cy))
    } else {
        None
    }
}

proof fn lemma_card_at_spec(l: PickerLayout, cx: int, cy: int, r: Option<usize>)
    requires
        match r {
            Some(i) => i < FACE_COUNT && on_card(l, i as int, cx, cy)
                && forall|j: int| 0 <= j < i ==> !#[trigger] on_card(l, j, cx, cy),
            None => forall|j: int| 0 <= j < FACE_COUNT ==> !#[trigger] on_card(l, j, cx, cy),
        },
    ensures
        card_at_spec(l, cx, cy) == (match r { Some(i) => Some(i as int), None => None }),
{
    match r {
        Some(i) => {
            let w = i as int;
            assert(0 <= w < FACE_COUNT && on_card(l, w, cx, cy) && forall|j: int| 0 <= j < w ==> !on_card(l, j, cx, cy));
            let c = choose|k: int| 0 <= k < FACE_COUNT && #[trigger] on_card(l, k, cx, cy) && forall|j: int| 0 <= j < k ==> !on_card(l, j, cx, cy);
            if c < w {
                assert(!on_card(l, c, cx, cy));
            }
            if w < c {
                assert(!on_card(l, w, cx, cy));
            }
        },
        None => {},
    }
}


/// The hints on the bottom bar, in order.
pub open spec fn help_item(i: int) -> Seq<char> {
    if i == 0 { "\u{2190}\u{2192} face"@ }
    else if i == 1 { "tab picker"@ }
    else if i == 2 { "c color"@ }
    else if i == 3 { "t 12/24h"@ }
    else if i == 4 { "+/- size"@ }
    else if i == 5 { "a alarms"@ }
    else { "q quit"@ }
}

fn help_item_exec(i: usize) -> (s: &'static str)
    requires
        i < 7,
    ensures
        s@ == help_item(i as int),
{
    if i == 0 { "\u{2190}\u{2192} face" }
    else if i == 1 { "tab picker" }
    else if i == 2 { "c color" }
    else if i == 3 { "t 12/24h" }
    else if i == 4 { "+/- size" }
    else if i == 5 { "a alarms" }
    else { "q quit" }
}

/// The first `k` hints (at least one) joined by `sep`.
pub open spec fn joined(k: int, sep: Seq<char>) -> Seq<char>
    decreases k,
{
    if k <= 1 {
        help_item(0)
    } else {
        joined(k - 1, sep) + sep + help_item(k - 1)
    }
}

pub open spec fn wide_sep() -> Seq<char> {
    "  \u{b7}  "@
}

pub open spec fn narrow_sep() -> Seq<char> {
    " \u{b7} "@
}

/// How many hints stay on a narrow bar of width `w`: trailing hints are
/// dropped until the rest fits, down to the first one.
pub open spec fn narrow_count(k: int, w: int) -> int
    decreases k,
{
    if k <= 1 {
        1
    } else if joined(k, narrow_sep()).len() <= w {
        k
    } else {
        narrow_count(k - 1, w)
    }
}

/// The hint text for a bar of width `w`: all hints with wide separators
/// when they fit, else as many as fit with narrow ones.
pub open spec fn hint_text(w: int) -> Seq<char> {
    if joined(7, wide_sep()).len() <= w {
        joined(7, wide_sep())
    } else {
        joined(narrow_count(7, w), narrow_sep())
    }
}

/// The spinner shown in the bar's last cell, turning every 250 ms.
pub open spec fn spinner(millis: int) -> char {
    let k = (millis / 250) % 4;
    if k == 0 { '|' } else if k == 1 { '/' } else if k == 2 { '-' } else { '\\' }
}

pub open spec fn blanks(n: int) -> Seq<char> {
    Seq::new(sat(n) as nat, |i: int| ' ')
}

/// The whole bottom bar of width `w`: the hints centered, and the spinner
/// in the last cell when the hints leave room on the right.
pub open spec fn status_line_of(w: int, millis: int) -> Seq<char> {
    let t = hint_text(w);
    let pad = sat(w - t.len()) / 2;
    let right = sat(w - (pad + t.len()));
    blanks(pad) + t + if right > 0 { blanks(right - 1).push(spinner(millis)) } else { Seq::empty() }
}

pub(crate) fn push_blanks(s: &mut String, n: usize)
    ensures
        final(s)@ == old(s)@ + blanks(n as int),
{
    let mut k: usize = 0;
    while k < n
        invariant
            k <= n,
            s@ == old(s)@ + blanks(k as int),
        decreases n - k,
    {
        push_char(s, ' ');
        assert(blanks(k + 1) =~= blanks(k as int).push(' '));
        k += 1;
    }
}

fn join_hints(k: usize, sep: &str) -> (s: String)
    requires
        1 <= k <= 7,
    ensures
        s@ == joined(k as int, sep@),
{
    let mut s = owned(help_item_exec(0));
    let mut i: usize = 1;
    while i < k
        invariant
            1 <= i <= k <= 7,
            s@ == joined(i as int, sep@),
        decreases k - i,
    {
        s.append(sep);
        s.append(help_item_exec(i));
        assert(s@ =~= joined(i as int + 1, sep@));
        i += 1;
    }
    s
}

/// The hint text for a bar `w` cells wide.
pub fn hint_line(w: usize) -> (s: String)
    ensures
        s@ == hint_text(w as int),
{
    let wide = join_hints(7, "  \u{b7}  ");
    if wide.as_str().unicode_len() <= w {
        return wide;
    }
    let mut k: usize = 7;
    let mut t = join_hints(7, " \u{b7} ");
    while k > 1 && t.as_str().unicode_len() > w
        invariant
            1 <= k <= 7,
            t@ == joined(k as int, narrow_sep()),
            narrow_count(k as int, w as int) == narrow_count(7, w as int),
        decreases k,
    {
        k -= 1;
        t = join_hints(k, " \u{b7} ");
    }
    t
}

/// The bottom bar for a terminal `term_w` cells wide, with the spinner for
/// a clock whose current second is `millis` milliseconds old.
pub fn status_line(term_w: u16, millis: u32) -> (s: String)
    ensures
        s@ == status_line_of(term_w as int, millis as int),
{
    let w = term_w as usize;
    let text = hint_line(w);
    let n = text.as_str().unicode_len();
    let pad = w.saturating_sub(n) / 2;
    let right = w.saturating_sub(pad + n);
    let mut s = String::new();
    push_blanks(&mut s, pad);
    s.append(text.as_str());
    if right > 0 {
        push_blanks(&mut s, right - 1);
        let k = (millis / 250) % 4;
        let c = if k == 0 { '|' } else if k == 1 { '/' } else if k == 2 { '-' } else { '\\' };
        push_char(&mut s, c);
    }
    assert(s@ =~= status_line_of(term_w as int, millis as int));
    s
}


/// The widest of the given line widths, 0 for none.
pub open spec fn max_width(ws: Seq<usize>) -> int
    decreases ws.len(),
{
    if ws.len() == 0 {
        0
    } else {
        let m = max_width(ws.drop_last());
        if ws.last() > m { ws.last() as int } else { m }
    }
}

/// Where a block of lines goes when centered in an area: the row of its
/// first line, how many of its lines fit, and the left edge of each shown
/// line (each line centered within the block, the block within the area).
#[derive(Debug)]
pub struct BlockPlacement {
    pub start_row: usize,
    pub shown: usize,
    pub lefts: Vec<usize>,
}

pub open spec fn min(a: int, b: int) -> int {
    if a < b { a } else { b }
}

/// The left edge of a line `lw` wide in a block of lines at most `bw` wide,
/// centered in an area `aw` wide.
pub open spec fn line_left(aw: int, bw: int, lw: int) -> int {
    let block_w = min(bw, aw);
    (aw - block_w) / 2 + (block_w - min(lw, block_w)) / 2
}

/// Centers lines of the given widths in an area `area_w` by `area_h`.
pub fn place_block(area_w: usize, area_h: usize, widths: &Vec<usize>) -> (p: BlockPlacement)
    ensures
        p.shown == min(widths@.len() as int, area_h as int),
        p.start_row == (area_h - p.shown) / 2,
        p.lefts@.len() == p.shown,
        forall|i: int| 0 <= i < p.shown ==> #[trigger] p.lefts@[i] == line_left(area_w as int, max_width(widths@), widths@[i] as int),
        forall|i: int| 0 <= i < p.shown ==> #[trigger] p.lefts@[i] + min(widths@[i] as int, area_w as int) <= area_w,
{
    let mut bw: usize = 0;
    let mut k: usize = 0;
    while k < widths.len()
        invariant
            k <= widths@.len(),
            bw == max_width(widths@.subrange(0, k as int)),
        decreases widths@.len() - k,
    {
        assert(widths@.subrange(0, k as int + 1).drop_last() =~= widths@.subrange(0, k as int));
        if widths[k] > bw {
            bw = widths[k];
        }
        k += 1;
    }
    assert(widths@.subrange(0, widths@.len() as int) =~= widths@);
    let block_w = if bw < area_w { bw } else { area_w };
    let shown = if widths.len() < area_h { widths.len() } else { area_h };
    let start_col = (area_w - block_w) / 2;
    let mut lefts: Vec<usize> = Vec::new();
    let mut i: usize = 0;
    while i < shown
        invariant
            shown <= widths@.len(),
            i <= shown,
            bw == max_width(widths@),
            block_w == min(bw as int, area_w as int),
            start_col == (area_w - block_w) / 2,
            lefts@.len() == i,
            forall|j: int| 0 <= j < i ==> #[trigger] lefts@[j] == line_left(area_w as int, bw as int, widths@[j] as int),
            forall|j: int| 0 <= j < i ==> #[trigger] lefts@[j] + min(widths@[j] as int, area_w as int) <= area_w,
        decreases shown - i,
    {
        let lw = if widths[i] < block_w { widths[i] } else { block_w };
        proof {
            lemma_max_width_bound(widths@, i as int);
        }
        lefts.push(start_col + (block_w - lw) / 2);
        i += 1;
    }
    BlockPlacement { start_row: (area_h - shown) / 2, shown, lefts }
}

proof fn lemma_max_width_bound(ws: Seq<usize>, i: int)
    requires
        0 <= i < ws.len(),
    ensures
        ws[i] <= max_width(ws),
    decreases ws.len(),
{
    if i < ws.len() - 1 {
        lemma_max_width_bound(ws.drop_last(), i);
    }
}

/// The pieces of text printed from `texts` with `room` cells left: each
/// cut to what still fits, stopping once the room is used up.
pub open spec fn clipped(texts: Seq<Seq<char>>, room: int) -> Seq<Seq<char>>
    decreases texts.len(),
{
    if texts.len() == 0 || room <= 0 {
        Seq::empty()
    } else {
        let t = texts[0].take(min(texts[0].len() as int, room));
        seq![t] + clipped(texts.drop_first(), room - t.len())
    }
}

pub open spec fn views(v: Seq<String>) -> Seq<Seq<char>> {
    v.map_values(|s: String| s@)
}

/// The total length of some pieces of text.
pub open spec fn total_len(ts: Seq<Seq<char>>) -> int
    decreases ts.len(),
{
    if ts.len() == 0 { 0 } else { ts[0].len() + total_len(ts.drop_first()) }
}

pub(crate) fn take_chars(s: &str, n: usize) -> (r: String)
    ensures
        r@ == s@.take(min(s@.len() as int, n as int)),
{
    let len = s.unicode_len();
    let m = if len < n { len } else { n };
    let mut r = String::new();
    let mut k: usize = 0;
    while k < m
        invariant
            m == min(s@.len() as int, n as int),
            k <= m,
            r@ == s@.take(k as int),
        decreases m - k,
    {
        push_char(&mut r, s.get_char(k));
        assert(r@ =~= s@.take(k as int + 1));
        k += 1;
    }
    r
}

/// Cuts a line's pieces of text to `room` cells, as they are printed.
pub fn clip_texts(texts: &Vec<String>, room: usize) -> (r: Vec<String>)
    ensures
        views(r@) == clipped(views(texts@), room as int),
{
    let mut out: Vec<String> = Vec::new();
    let mut left = room;
    let mut k: usize = 0;
    assert(views(texts@).subrange(0, texts@.len() as int) =~= views(texts@));
    assert(views(out@) =~= Seq::<Seq<char>>::empty());
    assert(views(out@) + clipped(views(texts@), room as int) =~= clipped(views(texts@), room as int));
    while k < texts.len()
        invariant
            k <= texts@.len(),
            left <= room,
            views(out@) + clipped(views(texts@).subrange(k as int, texts@.len() as int), left as int)
                == clipped(views(texts@), room as int),
        decreases texts@.len() - k,
    {
        let ghost rest = views(texts@).subrange(k as int, texts@.len() as int);
        if left == 0 {
            assert(clipped(rest, 0) =~= Seq::<Seq<char>>::empty());
            assert(views(out@) + Seq::<Seq<char>>::empty() =~= views(out@));
            return out;
        }
        let t = take_chars(texts[k].as_str(), left);
        let tl = t.as_str().unicode_len();
        proof {
            assert(rest[0] == texts@[k as int]@);
            assert(rest.drop_first() =~= views(texts@).subrange(k as int + 1, texts@.len() as int));
            assert(views(out@.push(t)) =~= views(out@).push(t@));
            assert(views(out@).push(t@) + clipped(rest.drop_first(), left - tl) =~= views(out@) + (seq![t@]
                + clipped(rest.drop_first(), left - tl)));
        }
        out.push(t);
        left = left - tl;
        k += 1;
    }
    assert(views(texts@).subrange(k as int, texts@.len() as int) =~= Seq::<Seq<char>>::empty());
    assert(views(out@) + Seq::<Seq<char>>::empty() =~= views(out@));
    out
}

/// A line `w` cells wide with `text` centered in it, when the text is
/// narrower than the line.
pub open spec fn centered_of(text: Seq<char>, w: int) -> Option<Seq<char>> {
    if text.len() < w {
        let pad = (w - text.len()) / 2;
        Some(blanks(pad) + text + blanks(w - pad - text.len()))
    } else {
        None
    }
}

/// Centers `text` on a line `w` cells wide; `None` when it does not fit.
pub fn centered(text: &str, w: usize) -> (r: Option<String>)
    ensures
        match r {
            Some(s) => centered_of(text@, w as int) == Some(s@),
            None => centered_of(text@, w as int) is None,
        },
{
    let n = text.unicode_len();
    if n < w {
        let pad = (w - n) / 2;
        let mut s = String::new();
        push_blanks(&mut s, pad);
        s.append(text);
        push_blanks(&mut s, w - pad - n);
        Some(s)
    } else {
        None
    }
}

/// The column at which text `len` cells long starts when centered on a
/// terminal `term_w` wide (a length past `u16::MAX` wraps, as the cast does).
pub open spec fn center_col(term_w: int, len: int) -> int {
    sat(term_w - len % 0x10000) / 2
}

pub fn center_x(term_w: u16, len: usize) -> (x: u16)
    ensures
        x == center_col(term_w as int, len as int),
{
    let l = (len % 0x10000) as u16;
    term_w.saturating_sub(l) / 2
}


/// Whether lines of the given widths fit an area `w` by `h` unclipped.
pub fn block_fits(widths: &Vec<usize>, w: usize, h: usize) -> (b: bool)
    ensures
        b == (widths@.len() <= h && max_width(widths@) <= w),
{
    if widths.len() > h {
        return false;
    }
    let mut k: usize = 0;
    let mut m: usize = 0;
    while k < widths.len()
        invariant
            k <= widths@.len(),
            m == max_width(widths@.subrange(0, k as int)),
        decreases widths@.len() - k,
    {
        assert(widths@.subrange(0, k as int + 1).drop_last() =~= widths@.subrange(0, k as int));
        if widths[k] > m {
            m = widths[k];
        }
        k += 1;
    }
    assert(widths@.subrange(0, widths@.len() as int) =~= widths@);
    m <= w
}

/// Rows the status line and the blank above it take from the terminal.
pub const CHROME_H: u16 = 2;

/// Whether a face's own drawing is shown: only when there is one (`widths`
/// gives its lines' widths) and it fits the area `w` by `h` unclipped;
/// otherwise the compact card stands in for it.
pub fn shows_drawn(widths: &Option<Vec<usize>>, w: usize, h: usize) -> (b: bool)
    ensures
        b == match widths {
            Some(v) => v@.len() <= h && max_width(v@) <= w,
            None => false,
        },
{
    match widths {
        Some(v) => block_fits(v, w, h),
        None => false,
    }
}

} // verus!
