//! The blocks face: the whole day as a grid of blocks, one lit per
//! interval elapsed, the interval chosen from a ladder of round durations.
use crate::cli::{dec_text, push_decimal};
use vstd::prelude::*;

verus! {

pub const DAY_SECS: usize = 86_400;

/// Round intervals a block may stand for, finest first; all divide an hour.
pub open spec fn ladder(i: int) -> int {
    if i == 0 { 1 } else if i == 1 { 2 } else if i == 2 { 3 } else if i == 3 { 4 } else if i == 4 { 5 }
    else if i == 5 { 6 } else if i == 6 { 10 } else if i == 7 { 12 } else if i == 8 { 15 } else if i == 9 { 20 }
    else if i == 10 { 30 } else if i == 11 { 60 } else if i == 12 { 120 } else if i == 13 { 300 } else { 600 }
}

pub open spec fn ceil_div(a: int, b: int) -> int {
    (a + b - 1) / b
}

/// Whether the grid for rung `i` fits `rows_avail` rows of `cols` blocks.
pub open spec fn rung_fits(i: int, cols: int, rows_avail: int) -> bool {
    ceil_div(86_400int / ladder(i), if cols < 1 { 1 } else { cols }) <= rows_avail
}

fn ladder_exec(i: usize) -> (s: usize)
    requires
        i < 15,
    ensures
        s == ladder(i as int),
{
    if i == 0 { 1 } else if i == 1 { 2 } else if i == 2 { 3 } else if i == 3 { 4 } else if i == 4 { 5 }
    else if i == 5 { 6 } else if i == 6 { 10 } else if i == 7 { 12 } else if i == 8 { 15 } else if i == 9 { 20 }
    else if i == 10 { 30 } else if i == 11 { 60 } else if i == 12 { 120 } else if i == 13 { 300 } else { 600 }
}

/// `a.div_ceil(b)`.
pub fn div_ceil(a: usize, b: usize) -> (r: usize)
    requires
        b > 0,
    ensures
        r == ceil_div(a as int, b as int),
{
    let q = a / b;
    let m = a % b;
    proof {
        vstd::arithmetic::div_mod::lemma_fundamental_div_mod(a as int, b as int);
        if m == 0 {
            vstd::arithmetic::div_mod::lemma_fundamental_div_mod_converse((a + b - 1) as int, b as int, q as int, (b - 1) as int);
        } else {
            vstd::arithmetic::div_mod::lemma_mod_bound(a as int, b as int);
            assert((a + b - 1) as int == (q + 1) * b + (m - 1)) by (nonlinear_arith)
                requires
                    a as int == b * q + m,
            ;
            vstd::arithmetic::div_mod::lemma_fundamental_div_mod_converse((a + b - 1) as int, b as int, (q + 1) as int, (m - 1) as int);
            assert(q < usize::MAX) by (nonlinear_arith)
                requires
                    a as int == b * q + m,
                    0 < m < b,
                    a <= usize::MAX,
            ;
        }
    }
    if m == 0 { q } else { q + 1 }
}

/// Picks the finest interval whose grid fits, with its block count; the
/// coarsest rung when even that overflows.
pub fn choose_step(cols: usize, rows_avail: usize) -> (r: (usize, usize))
    ensures
        exists|i: int| 0 <= i < 15 && r.0 == ladder(i) && (rung_fits(i, cols as int, rows_avail as int) || i == 14)
            && forall|j: int| 0 <= j < i ==> !rung_fits(j, cols as int, rows_avail as int),
        r.1 == 86_400usize / r.0,
{
    let c = if cols < 1 { 1 } else { cols };
    let mut i: usize = 0;
    while i < 15
        invariant
            i <= 15,
            c == (if cols < 1 { 1 } else { cols }),
            forall|j: int| 0 <= j < i ==> !rung_fits(j, cols as int, rows_avail as int),
        decreases 15 - i,
    {
        let step = ladder_exec(i);
        let blocks = DAY_SECS / step;
        if div_ceil(blocks, c) <= rows_avail {
            return (step, blocks);
        }
        i += 1;
    }
    assert(600 == ladder(14));
    (600, DAY_SECS / 600)
}

/// The legend's name for an interval: whole minutes as `"Nm"`, else `"Ns"`.
pub open spec fn label_text(step: nat) -> Seq<char> {
    if step % 60 == 0 && step >= 60 { dec_text(step / 60) + "m"@ } else { dec_text(step) + "s"@ }
}

/// A human label for an interval, for the legend.
pub fn label(step: usize) -> (s: String)
    ensures
        s@ == label_text(step as nat),
{
    let mut s = String::new();
    if step % 60 == 0 && step >= 60 {
        push_decimal(&mut s, step / 60);
        s.append("m");
    } else {
        push_decimal(&mut s, step);
        s.append("s");
    }
    s
}

/// What one cell of the day grid shows.
#[derive(Clone, Copy, Debug, PartialEq, Eq, Structural)]
pub enum BlockCell {
    /// Past the end of the day: padding.
    Pad,
    /// An interval already over; the gradient runs across these.
    Spent,
    /// The interval filling now.
    Current,
    /// An interval still to come.
    Ahead,
}

/// The cell at position `i` of a day of `total` blocks, `done` of them over.
pub fn block_cell(i: usize, total: usize, done: usize) -> (c: BlockCell)
    ensures
        c == (if i >= total { BlockCell::Pad } else if i < done { BlockCell::Spent } else if i == done {
            BlockCell::Current
        } else {
            BlockCell::Ahead
        }),
{
    if i >= total {
        BlockCell::Pad
    } else if i < done {
        BlockCell::Spent
    } else if i == done {
        BlockCell::Current
    } else {
        BlockCell::Ahead
    }
}


/// How the day is laid out on the blocks face.
#[derive(Clone, Copy, Debug, PartialEq, Eq, Structural)]
pub struct BlocksLayout {
    /// Blocks per row.
    pub cols: usize,
    /// Seconds per block.
    pub step: usize,
    /// Blocks in the day.
    pub total: usize,
    /// Rows of blocks.
    pub rows: usize,
    /// Blocks already spent.
    pub done: usize,
}

/// Lays the day out for an area `avail_w` by `avail_h`, `elapsed` seconds
/// after midnight: a margin of one column each side, two rows for the
/// legend and two more for the date when it is shown.
pub fn blocks_layout(avail_w: usize, avail_h: usize, show_date: bool, elapsed: usize) -> (l: BlocksLayout)
    ensures
        l.cols == (if avail_w < 3 { 1 } else { avail_w - 2 }),
        ({
            let reserved = if show_date { 4int } else { 2 };
            let rows_avail = if avail_h - reserved < 1 { 1 } else { avail_h - reserved };
            exists|i: int| 0 <= i < 15 && l.step == ladder(i) && (rung_fits(i, l.cols as int, rows_avail) || i == 14)
                && forall|j: int| 0 <= j < i ==> !rung_fits(j, l.cols as int, rows_avail)
        }),
        l.total == 86_400usize / l.step,
        l.rows == ceil_div(l.total as int, l.cols as int),
        l.done == elapsed / l.step,
{
    let cols = if avail_w < 3 { 1 } else { avail_w - 2 };
    let reserved: usize = if show_date { 4 } else { 2 };
    let ra = avail_h.saturating_sub(reserved);
    let rows_avail = if ra < 1 { 1 } else { ra };
    let (step, total) = choose_step(cols, rows_avail);
    proof {
        let i = choose|i: int| 0 <= i < 15 && step == ladder(i) && (rung_fits(i, cols as int, rows_avail as int) || i == 14)
            && forall|j: int| 0 <= j < i ==> !rung_fits(j, cols as int, rows_avail as int);
        assert(step >= 1);
    }
    let rows = div_ceil(total, cols);
    BlocksLayout { cols, step, total, rows, done: elapsed / step }
}

} // verus!
