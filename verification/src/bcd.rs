//! The binary-coded-decimal face: each decimal digit of the time is a
//! column of four dots with weights 8, 4, 2 and 1 from the top, grouped by
//! hours, minutes and seconds, under a row of H/M/S labels.
use crate::screen::{blanks, push_blanks, sat};
use crate::compact::{repeat_char, repeated};
use crate::text::push_char;
use vstd::prelude::*;

verus! {

/// The hour the face shows: 1 to 12 on a 12-hour clock, else 0 to 23.
pub open spec fn shown_hour(hour: int, hour12: bool) -> int {
    if hour12 {
        if hour % 12 == 0 { 12 } else { hour % 12 }
    } else {
        hour
    }
}

/// The digit columns and the group (0 hours, 1 minutes, 2 seconds) of each.
pub fn bcd_columns(hour: u32, minute: u32, second: u32, hour12: bool, show_seconds: bool) -> (r: (Vec<u32>, Vec<usize>))
    requires
        hour < 24,
        minute < 60,
        second < 60,
    ensures
        ({
            let h = shown_hour(hour as int, hour12);
            let base = seq![(h / 10) as u32, (h % 10) as u32, minute / 10, minute % 10];
            &&& r.0@ == if show_seconds { base + seq![second / 10, second % 10] } else { base }
            &&& r.1@ == if show_seconds { seq![0usize, 0, 1, 1, 2, 2] } else { seq![0usize, 0, 1, 1] }
        }),
{
    let h = if hour12 {
        if hour % 12 == 0 { 12 } else { hour % 12 }
    } else {
        hour
    };
    let mut digits = vec![h / 10, h % 10, minute / 10, minute % 10];
    let mut groups: Vec<usize> = vec![0, 0, 1, 1];
    if show_seconds {
        digits.push(second / 10);
        digits.push(second % 10);
        groups.push(2);
        groups.push(2);
    }
    proof {
        let base = seq![(h / 10) as u32, (h % 10) as u32, minute / 10, minute % 10];
        if show_seconds {
            assert(digits@ =~= base + seq![second / 10, second % 10]);
            assert(groups@ =~= seq![0usize, 0, 1, 1, 2, 2]);
        } else {
            assert(digits@ =~= base);
            assert(groups@ =~= seq![0usize, 0, 1, 1]);
        }
    }
    (digits, groups)
}

/// Rows each dot takes for a cell size: half its width, rounded up.
pub open spec fn dot_rows(cell: int) -> int {
    (cell + 1) / 2
}

/// A blank row between dot rows once dots are more than one row tall.
pub open spec fn row_gap(cell: int) -> int {
    if dot_rows(cell) > 1 { 1 } else { 0 }
}

/// The height of the four dot rows.
pub open spec fn dots_height(cell: int) -> int {
    4 * dot_rows(cell) + 3 * row_gap(cell)
}

/// Whether cell size `c` fits `fit_n` columns (dot and gap both `c` wide)
/// and the dots plus `reserved` rows.
pub open spec fn bcd_fits(c: int, fit_n: int, avail_w: int, avail_h: int, reserved: int) -> bool {
    (2 * fit_n - 1) * c <= avail_w && dots_height(c) + reserved <= avail_h
}

/// Rows under the dots: the labels' two, and two more for the date.
pub open spec fn reserved_rows(show_date: bool) -> int {
    if show_date { 4 } else { 2 }
}

/// The largest cell size in `1..=6` that fits, 1 when none does. The
/// labels take two rows, and the date two more when shown.
pub fn bcd_fit(fit_n: usize, avail_w: usize, avail_h: usize, show_date: bool) -> (c: usize)
    requires
        1 <= fit_n <= 1000,
    ensures
        1 <= c <= 6,
        ({
            let reserved = reserved_rows(show_date);
            &&& (exists|v: int| 1 <= v <= 6 && bcd_fits(v, fit_n as int, avail_w as int, avail_h as int, reserved))
                ==> bcd_fits(c as int, fit_n as int, avail_w as int, avail_h as int, reserved)
            &&& forall|v: int| c < v <= 6 ==> !bcd_fits(v, fit_n as int, avail_w as int, avail_h as int, reserved)
            &&& (forall|v: int| 1 <= v <= 6 ==> !bcd_fits(v, fit_n as int, avail_w as int, avail_h as int, reserved)) ==> c == 1
        }),
{
    let reserved: usize = if show_date { 4 } else { 2 };
    let mut c: usize = 6;
    while c >= 1
        invariant
            c <= 6,
            1 <= fit_n <= 1000,
            reserved == (if show_date { 4int } else { 2 }),
            forall|v: int| c < v <= 6 ==> !bcd_fits(v, fit_n as int, avail_w as int, avail_h as int, reserved as int),
        decreases c,
    {
        assert((2 * fit_n - 1) * c <= 2000 * 6) by (nonlinear_arith)
            requires
                1 <= fit_n <= 1000,
                c <= 6,
        ;
        let dh = (c + 1) / 2;
        let gy: usize = if dh > 1 { 1 } else { 0 };
        if (2 * fit_n - 1) * c <= avail_w && 4 * dh + 3 * gy + reserved <= avail_h {
            assert(bcd_fits(c as int, fit_n as int, avail_w as int, avail_h as int, reserved_rows(show_date)));
            return c;
        }
        c -= 1;
    }
    1
}

/// What a piece of a line of the face is.
#[derive(Clone, Copy, Debug, PartialEq, Eq, Structural)]
pub enum BcdKind {
    /// Space between columns.
    Gap,
    /// The H/M/S label over a column of this group.
    Label(usize),
    /// A lit dot of this group.
    Lit(usize),
    /// An unlit dot.
    Unlit,
}

#[derive(Debug)]
pub struct BcdCell {
    pub text: String,
    pub kind: BcdKind,
}

pub open spec fn cell_view(c: BcdCell) -> (Seq<char>, BcdKind) {
    (c.text@, c.kind)
}

pub open spec fn lines_view(ls: Seq<Vec<BcdCell>>) -> Seq<Seq<(Seq<char>, BcdKind)>> {
    ls.map_values(|l: Vec<BcdCell>| l@.map_values(|c: BcdCell| cell_view(c)))
}

/// The weight of dot row `row`: 8, 4, 2, 1 from the top.
pub open spec fn weight(row: int) -> int {
    if row == 0 { 8 } else if row == 1 { 4 } else if row == 2 { 2 } else { 1 }
}

/// Whether digit `d` lights the dot of row `row`.
pub open spec fn lit(d: int, row: int) -> bool {
    (d / weight(row)) % 2 == 1
}

pub open spec fn label_char(g: int) -> char {
    if g == 0 { 'H' } else if g == 1 { 'M' } else { 'S' }
}

/// A column's label, centered (leaning left) in the dot width.
pub open spec fn label_text(g: int, w: int) -> Seq<char> {
    let pad = sat(w - 1) / 2;
    blanks(pad) + seq![label_char(g)] + blanks(w - (pad + 1))
}

/// One column's share of a line of dots: a solid block when lit, else a
/// faint centre dot on the dot's middle row.
pub open spec fn dot_text(on: bool, sub_row: int, dh: int, w: int) -> Seq<char> {
    if on {
        repeated('\u{2588}', w)
    } else if sub_row == dh / 2 {
        blanks(w / 2) + seq!['\u{b7}'] + blanks(w - w / 2 - 1)
    } else {
        blanks(w)
    }
}

/// The label line over the first `k` columns.
pub open spec fn header_cells(groups: Seq<usize>, w: int, k: int) -> Seq<(Seq<char>, BcdKind)>
    decreases k,
{
    if k <= 0 {
        Seq::empty()
    } else {
        header_cells(groups, w, k - 1) + (if k - 1 > 0 { seq![(blanks(w), BcdKind::Gap)] } else { Seq::empty() })
            + seq![(label_text(groups[k - 1] as int, w), BcdKind::Label(groups[k - 1]))]
    }
}

/// Line `sub_row` of dot row `row`, over the first `k` columns.
pub open spec fn dot_cells(digits: Seq<u32>, groups: Seq<usize>, row: int, sub_row: int, dh: int, w: int, k: int) -> Seq<(Seq<char>, BcdKind)>
    decreases k,
{
    if k <= 0 {
        Seq::empty()
    } else {
        let on = lit(digits[k - 1] as int, row);
        dot_cells(digits, groups, row, sub_row, dh, w, k - 1) + (if k - 1 > 0 { seq![(blanks(w), BcdKind::Gap)] } else { Seq::empty() })
            + seq![(dot_text(on, sub_row, dh, w), if on { BcdKind::Lit(groups[k - 1]) } else { BcdKind::Unlit })]
    }
}

/// The lines of the first `r` dot rows, each row `dot_rows(w)` lines tall
/// with a blank line before every row but the first when dots are tall.
pub open spec fn dot_lines(digits: Seq<u32>, groups: Seq<usize>, w: int, r: int) -> Seq<Seq<(Seq<char>, BcdKind)>>
    decreases r,
{
    if r <= 0 {
        Seq::empty()
    } else {
        let dh = dot_rows(w);
        dot_lines(digits, groups, w, r - 1) + (if r - 1 > 0 && row_gap(w) > 0 { seq![Seq::empty()] } else { Seq::empty() })
            + Seq::new(dh as nat, |sr: int| dot_cells(digits, groups, r - 1, sr, dh, w, digits.len() as int))
    }
}

/// The whole face for cell size `w`: labels, a blank line, the dots.
pub open spec fn bcd_face(digits: Seq<u32>, groups: Seq<usize>, w: int) -> Seq<Seq<(Seq<char>, BcdKind)>> {
    seq![header_cells(groups, w, digits.len() as int), Seq::empty()] + dot_lines(digits, groups, w, 4)
}

fn cell(text: String, kind: BcdKind) -> (c: BcdCell)
    ensures
        cell_view(c) == (text@, kind),
{
    BcdCell { text, kind }
}

fn label_string(g: usize, w: usize) -> (s: String)
    requires
        w >= 1,
    ensures
        s@ == label_text(g as int, w as int),
{
    let pad = (w - 1) / 2;
    let mut s = String::new();
    push_blanks(&mut s, pad);
    push_char(&mut s, if g == 0 { 'H' } else if g == 1 { 'M' } else { 'S' });
    push_blanks(&mut s, w - (pad + 1));
    assert(s@ =~= label_text(g as int, w as int));
    s
}

fn dot_string(on: bool, sub_row: usize, dh: usize, w: usize) -> (s: String)
    requires
        w >= 1,
    ensures
        s@ == dot_text(on, sub_row as int, dh as int, w as int),
{
    if on {
        return repeat_char('\u{2588}', w);
    }
    let mut s = String::new();
    if sub_row == dh / 2 {
        push_blanks(&mut s, w / 2);
        push_char(&mut s, '\u{b7}');
        push_blanks(&mut s, w - w / 2 - 1);
    } else {
        push_blanks(&mut s, w);
    }
    assert(s@ =~= dot_text(on, sub_row as int, dh as int, w as int));
    s
}

fn blank_string(w: usize) -> (s: String)
    ensures
        s@ == blanks(w as int),
{
    let mut s = String::new();
    push_blanks(&mut s, w);
    assert(s@ =~= blanks(w as int));
    s
}

fn lit_exec(d: u32, row: usize) -> (b: bool)
    requires
        row < 4,
    ensures
        b == lit(d as int, row as int),
{
    let wt: u32 = if row == 0 { 8 } else if row == 1 { 4 } else if row == 2 { 2 } else { 1 };
    (d / wt) % 2 == 1
}

fn header_line(groups: &Vec<usize>, w: usize) -> (l: Vec<BcdCell>)
    requires
        w >= 1,
    ensures
        l@.map_values(|c: BcdCell| cell_view(c)) == header_cells(groups@, w as int, groups@.len() as int),
{
    let mut l: Vec<BcdCell> = Vec::new();
    let mut i: usize = 0;
    while i < groups.len()
        invariant
            w >= 1,
            i <= groups@.len(),
            l@.map_values(|c: BcdCell| cell_view(c)) == header_cells(groups@, w as int, i as int),
        decreases groups@.len() - i,
    {
        let ghost before = l@.map_values(|c: BcdCell| cell_view(c));
        if i > 0 {
            l.push(cell(blank_string(w), BcdKind::Gap));
        }
        l.push(cell(label_string(groups[i], w), BcdKind::Label(groups[i])));
        assert(l@.map_values(|c: BcdCell| cell_view(c)) =~= header_cells(groups@, w as int, i as int + 1));
        i += 1;
    }
    l
}

fn dot_line(digits: &Vec<u32>, groups: &Vec<usize>, row: usize, sub_row: usize, dh: usize, w: usize) -> (l: Vec<BcdCell>)
    requires
        w >= 1,
        row < 4,
        groups@.len() == digits@.len(),
    ensures
        l@.map_values(|c: BcdCell| cell_view(c)) == dot_cells(digits@, groups@, row as int, sub_row as int, dh as int, w as int, digits@.len() as int),
{
    let mut l: Vec<BcdCell> = Vec::new();
    let mut i: usize = 0;
    while i < digits.len()
        invariant
            w >= 1,
            row < 4,
            groups@.len() == digits@.len(),
            i <= digits@.len(),
            l@.map_values(|c: BcdCell| cell_view(c)) == dot_cells(digits@, groups@, row as int, sub_row as int, dh as int, w as int, i as int),
        decreases digits@.len() - i,
    {
        if i > 0 {
            l.push(cell(blank_string(w), BcdKind::Gap));
        }
        let on = lit_exec(digits[i], row);
        let kind = if on { BcdKind::Lit(groups[i]) } else { BcdKind::Unlit };
        l.push(cell(dot_string(on, sub_row, dh, w), kind));
        assert(l@.map_values(|c: BcdCell| cell_view(c)) =~= dot_cells(digits@, groups@, row as int, sub_row as int, dh as int, w as int, i as int + 1));
        i += 1;
    }
    l
}

/// The lines of the face for digit columns `digits` in groups `groups`,
/// at cell size `w`.
pub fn bcd_lines(digits: &Vec<u32>, groups: &Vec<usize>, w: usize) -> (r: Vec<Vec<BcdCell>>)
    requires
        1 <= w <= 1000,
        groups@.len() == digits@.len(),
    ensures
        lines_view(r@) == bcd_face(digits@, groups@, w as int),
{
    let dh = (w + 1) / 2;
    let gy: usize = if dh > 1 { 1 } else { 0 };
    let mut r: Vec<Vec<BcdCell>> = Vec::new();
    r.push(header_line(groups, w));
    r.push(Vec::new());
    assert(lines_view(r@) =~~= seq![header_cells(groups@, w as int, digits@.len() as int), Seq::<(Seq<char>, BcdKind)>::empty()]);
    let mut row: usize = 0;
    while row < 4
        invariant
            1 <= w <= 1000,
            groups@.len() == digits@.len(),
            dh == dot_rows(w as int),
            gy == row_gap(w as int),
            row <= 4,
            lines_view(r@) == seq![header_cells(groups@, w as int, digits@.len() as int), Seq::<(Seq<char>, BcdKind)>::empty()]
                + dot_lines(digits@, groups@, w as int, row as int),
        decreases 4 - row,
    {
        let ghost before = lines_view(r@);
        if row > 0 && gy > 0 {
            r.push(Vec::new());
        }
        let ghost mid = lines_view(r@);
        assert(mid == before + (if row > 0 && row_gap(w as int) > 0 { seq![Seq::<(Seq<char>, BcdKind)>::empty()] } else { Seq::empty() }))
            by {
            assert(mid =~~= before + (if row > 0 && row_gap(w as int) > 0 { seq![Seq::<(Seq<char>, BcdKind)>::empty()] } else { Seq::empty() }));
        }
        let mut sr: usize = 0;
        while sr < dh
            invariant
                1 <= w <= 1000,
                groups@.len() == digits@.len(),
                dh == dot_rows(w as int),
                row < 4,
                sr <= dh,
                lines_view(r@) == mid + Seq::new(sr as nat, |s: int| dot_cells(digits@, groups@, row as int, s, dh as int, w as int, digits@.len() as int)),
            decreases dh - sr,
        {
            let line = dot_line(digits, groups, row, sr, dh, w);
            let ghost lv = line@.map_values(|c: BcdCell| cell_view(c));
            let ghost prev = lines_view(r@);
            r.push(line);
            assert(lines_view(r@) =~= prev.push(lv));
            assert(lines_view(r@) =~~= mid + Seq::new((sr + 1) as nat, |s: int| dot_cells(digits@, groups@, row as int, s, dh as int, w as int, digits@.len() as int)));
            sr += 1;
        }
        assert(lines_view(r@) =~~= seq![header_cells(groups@, w as int, digits@.len() as int), Seq::<(Seq<char>, BcdKind)>::empty()]
            + dot_lines(digits@, groups@, w as int, row as int + 1));
        row += 1;
    }
    r
}

} // verus!
