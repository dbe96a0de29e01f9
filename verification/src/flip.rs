//! The split-flap face: each digit on a card `8u + 4` wide and `7u + 3`
//! high with a seam across its middle, cards in pairs with a colon column
//! between the pairs.
use crate::screen::sat;
use vstd::prelude::*;

verus! {

/// Card width and height at unit `u`.
pub open spec fn card_w(u: int) -> int {
    8 * u + 4
}

pub open spec fn card_h(u: int) -> int {
    7 * u + 3
}

/// Whether `fit_digits` cards in pairs (three-column colons between pairs)
/// fit `avail_w` by `usable_h` at unit `u`.
pub open spec fn cards_fit(u: int, fit_digits: int, avail_w: int, usable_h: int) -> bool {
    fit_digits * card_w(u) + sat(fit_digits / 2 - 1) * 3 <= avail_w && card_h(u) <= usable_h
}

/// The cards the face sizes for: with seconds hidden, two more.
pub open spec fn cards_sized(digits: int, show_seconds: bool) -> int {
    if show_seconds { digits } else { digits + 2 }
}

/// The unit the face draws at: when auto-sizing, the largest in `1..=12`
/// at which the cards fit (sized for two more digits when seconds are
/// hidden), else 1; otherwise the pinned scale clamped to `1..=12`.
pub fn flip_unit(digits: usize, show_seconds: bool, auto: bool, scale: u8, avail_w: usize, usable_h: usize) -> (u: usize)
    requires
        digits <= 1000,
    ensures
        1 <= u <= 12,
        !auto ==> u == (if scale < 1 { 1 } else if scale > 12 { 12 } else { scale as int }),
        auto ==> {
            let fit = cards_sized(digits as int, show_seconds);
            &&& ((exists|v: int| 1 <= v <= 12 && cards_fit(v, fit, avail_w as int, usable_h as int)) ==> cards_fit(u as int, fit, avail_w as int, usable_h as int))
            &&& forall|v: int| u < v <= 12 ==> !cards_fit(v, fit, avail_w as int, usable_h as int)
            &&& (forall|v: int| 1 <= v <= 12 ==> !cards_fit(v, fit, avail_w as int, usable_h as int)) ==> u == 1
        },
{
    if !auto {
        return if scale < 1 { 1 } else if scale > 12 { 12 } else { scale as usize };
    }
    let fit = if show_seconds { digits } else { digits + 2 };
    let groups = fit / 2;
    let seps = if groups >= 1 { groups - 1 } else { 0 };
    let mut u: usize = 12;
    while u >= 1
        invariant
            u <= 12,
            auto,
            fit == (if show_seconds { digits as int } else { digits + 2 }),
            fit <= 1002,
            seps == sat(fit / 2 - 1),
            forall|v: int| u < v <= 12 ==> !cards_fit(v, fit as int, avail_w as int, usable_h as int),
        decreases u,
    {
        assert(fit * (8 * u + 4) <= 1002 * 100) by (nonlinear_arith)
            requires
                fit <= 1002,
                u <= 12,
        ;
        if fit * (8 * u + 4) + seps * 3 <= avail_w && 7 * u + 3 <= usable_h {
            assert(cards_fit(u as int, cards_sized(digits as int, show_seconds), avail_w as int, usable_h as int));
            return u;
        }
        u -= 1;
    }
    1
}

/// What a line of a card shows.
#[derive(Clone, Copy, Debug, PartialEq, Eq, Structural)]
pub enum CardRow {
    Top,
    Bottom,
    /// The dashed seam across the middle.
    Seam,
    /// This line of the digit's glyph, padded into the card.
    Glyph(usize),
}

/// The row of the seam at unit `u`.
pub open spec fn seam_row(u: int) -> int {
    1 + 7 * u / 2
}

/// What line `row` of a card at unit `u` shows: the frame at the top and
/// bottom, the seam, and otherwise the glyph line, shifted past the seam.
pub fn card_row(row: usize, u: usize) -> (r: CardRow)
    requires
        1 <= u <= 12,
        row < 7 * u + 3,
    ensures
        r == (if row == 0 {
            CardRow::Top
        } else if row == card_h(u as int) - 1 {
            CardRow::Bottom
        } else if row == seam_row(u as int) {
            CardRow::Seam
        } else if row > seam_row(u as int) {
            CardRow::Glyph((row - 2) as usize)
        } else {
            CardRow::Glyph((row - 1) as usize)
        }),
{
    let ch = 7 * u + 3;
    let seam = 1 + 7 * u / 2;
    if row == 0 {
        CardRow::Top
    } else if row == ch - 1 {
        CardRow::Bottom
    } else if row == seam {
        CardRow::Seam
    } else if row > seam {
        CardRow::Glyph(row - 2)
    } else {
        CardRow::Glyph(row - 1)
    }
}

/// `a / b` as Rust computes it on integers: rounded toward zero.
pub open spec fn trunc_div(a: int, b: int) -> int {
    if a >= 0 { a / b } else { -((-a) / b) }
}

/// Whether the colon column between card pairs shows a dot on line `row`:
/// on the lines a third and two thirds down, while the colon is lit (it
/// blinks off every other half second when blinking is on).
pub fn colon_dot(row: usize, u: usize, blink: bool, epoch_ms: i64) -> (b: bool)
    requires
        1 <= u <= 12,
    ensures
        b == ((!blink || trunc_div(epoch_ms as int, 500) % 2 == 1)
            && (row == card_h(u as int) / 3 || row == 2 * card_h(u as int) / 3)),
{
    let ch = 7 * u + 3;
    let half: i64 = if epoch_ms >= 0 { epoch_ms / 500 } else { -((-(epoch_ms as i128)) / 500) as i64 };
    let odd = if half >= 0 { half % 2 == 1 } else { (-(half as i128)) % 2 == 1 };
    proof {
        if half < 0 {
            assert((-half) % 2 == 1 <==> half % 2 == 1) by {
                let k = -half;
                assert(k > 0);
                vstd::arithmetic::div_mod::lemma_fundamental_div_mod(k as int, 2);
                vstd::arithmetic::div_mod::lemma_fundamental_div_mod(half as int, 2);
            }
        }
    }
    let on = !blink || odd;
    on && (row == ch / 3 || row == 2 * ch / 3)
}

} // verus!
