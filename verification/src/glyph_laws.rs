//! What the digit glyphs mean: the seven-segment patterns, segment by
//! segment, and the block-grid digits as drawings of the same segments.
use crate::grid::glyph_rows;
use crate::seg7::seg_spec;
use vstd::prelude::*;

verus! {

pub open spec fn is_decimal(c: char) -> bool {
    '0' <= c && c <= '9'
}

/// Segments a (top), b (upper right), c (lower right), d (bottom), e (lower
/// left), f (upper left) and g (middle), as the digits light them: a is
/// dark only for 1 and 4, b only for 5 and 6, c only for 2, d only for 1, 4
/// and 7; e is lit only for 0, 2, 6 and 8; f is dark only for 1, 2, 3 and
/// 7; g only for 0, 1 and 7.
pub proof fn lemma_digit_segments(c: char)
    requires
        is_decimal(c),
    ensures
        seg_spec(c) is Some,
        seg_spec(c)->0.len() == 7,
        seg_spec(c)->0[0] <==> !(c == '1' || c == '4'),
        seg_spec(c)->0[1] <==> !(c == '5' || c == '6'),
        seg_spec(c)->0[2] <==> c != '2',
        seg_spec(c)->0[3] <==> !(c == '1' || c == '4' || c == '7'),
        seg_spec(c)->0[4] <==> (c == '0' || c == '2' || c == '6' || c == '8'),
        seg_spec(c)->0[5] <==> !(c == '1' || c == '2' || c == '3' || c == '7'),
        seg_spec(c)->0[6] <==> !(c == '0' || c == '1' || c == '7'),
{
    assert(c == '0' || c == '1' || c == '2' || c == '3' || c == '4' || c == '5' || c == '6' || c == '7' || c == '8'
        || c == '9');
}

/// No two digits light the same segments.
pub proof fn lemma_digit_segments_distinct(c1: char, c2: char)
    requires
        is_decimal(c1),
        is_decimal(c2),
        c1 != c2,
    ensures
        seg_spec(c1) != seg_spec(c2),
{
    lemma_digit_segments(c1);
    lemma_digit_segments(c2);
    if seg_spec(c1) == seg_spec(c2) {
        let s = seg_spec(c1)->0;
        assert(s[0] == seg_spec(c2)->0[0] && s[1] == seg_spec(c2)->0[1] && s[2] == seg_spec(c2)->0[2]);
        assert(s[3] == seg_spec(c2)->0[3] && s[4] == seg_spec(c2)->0[4] && s[5] == seg_spec(c2)->0[5]);
        assert(s[6] == seg_spec(c2)->0[6]);
    }
}

/// The 3 by 5 block drawing of lit segments `s`: each segment fills its
/// edge of the block, and a corner is filled when a segment meeting it is.
pub open spec fn blocks_of(s: Seq<bool>) -> Seq<Seq<bool>> {
    seq![
        seq![s[0] || s[5], s[0], s[0] || s[1]],
        seq![s[5], false, s[1]],
        seq![s[5] || s[4] || s[6], s[6], s[1] || s[2] || s[6]],
        seq![s[4], false, s[2]],
        seq![s[4] || s[3], s[3], s[2] || s[3]],
    ]
}

/// The block-grid digit is the drawing of the seven-segment digit.
pub proof fn lemma_grid_draws_segments(c: char)
    requires
        is_decimal(c),
    ensures
        glyph_rows(c) == blocks_of(seg_spec(c)->0),
{
    lemma_digit_segments(c);
    assert(c == '0' || c == '1' || c == '2' || c == '3' || c == '4' || c == '5' || c == '6' || c == '7' || c == '8'
        || c == '9');
    assert(glyph_rows(c) =~~= blocks_of(seg_spec(c)->0));
}

/// No two digits fill the same blocks of the grid.
pub proof fn lemma_grid_digits_distinct(c1: char, c2: char)
    requires
        is_decimal(c1),
        is_decimal(c2),
        c1 != c2,
    ensures
        glyph_rows(c1) != glyph_rows(c2),
{
    lemma_digit_segments_distinct(c1, c2);
    lemma_grid_draws_segments(c1);
    lemma_grid_draws_segments(c2);
    lemma_digit_segments(c1);
    lemma_digit_segments(c2);
    let s1 = seg_spec(c1)->0;
    let s2 = seg_spec(c2)->0;
    if glyph_rows(c1) == glyph_rows(c2) {
        let g = glyph_rows(c1);
        assert(g[0][1] == s1[0] && g[0][1] == s2[0]);
        assert(g[1][2] == s1[1] && g[1][2] == s2[1]);
        assert(g[3][2] == s1[2] && g[3][2] == s2[2]);
        assert(g[4][1] == s1[3] && g[4][1] == s2[3]);
        assert(g[3][0] == s1[4] && g[3][0] == s2[4]);
        assert(g[1][0] == s1[5] && g[1][0] == s2[5]);
        assert(g[2][1] == s1[6] && g[2][1] == s2[6]);
        assert(s1 =~= s2);
    }
}

/// The am/pm letters, in either case: A lights every segment but the
/// bottom (d), P the top, both upper sides and the middle (a, b, e, f, g),
/// and M the top and the four sides (a, b, c, e, f); each differs from the
/// other letters and from every digit. Any other character lights nothing.
pub proof fn lemma_letter_segments(c: char, d: char)
    requires
        is_decimal(d),
    ensures
        (c == 'A' || c == 'a') ==> seg_spec(c) == Some(seq![true, true, true, false, true, true, true]),
        (c == 'P' || c == 'p') ==> seg_spec(c) == Some(seq![true, true, false, false, true, true, true]),
        (c == 'M' || c == 'm') ==> seg_spec(c) == Some(seq![true, true, true, false, true, true, false]),
        (c == 'A' || c == 'a' || c == 'P' || c == 'p' || c == 'M' || c == 'm') ==> seg_spec(c) != seg_spec(d),
        !is_decimal(c) && !(c == 'A' || c == 'a' || c == 'P' || c == 'p' || c == 'M' || c == 'm') ==> seg_spec(c)
            is None,
{
    lemma_digit_segments(d);
    if c == 'A' || c == 'a' || c == 'P' || c == 'p' || c == 'M' || c == 'm' {
        let s = seg_spec(c)->0;
        let t = seg_spec(d)->0;
        if seg_spec(c) == seg_spec(d) {
            assert(s[0] == t[0] && s[1] == t[1] && s[2] == t[2] && s[3] == t[3]);
            assert(s[4] == t[4] && s[5] == t[5] && s[6] == t[6]);
        }
    }
}

/// The grid's colon is two dots in the middle column, on the second and
/// fourth rows; any character that is neither a digit nor a colon fills no
/// block.
pub proof fn lemma_grid_colon_and_blank(c: char, r: int, k: int)
    requires
        0 <= r < 5,
        0 <= k < 3,
    ensures
        glyph_rows(':').len() == 5,
        glyph_rows(':')[r].len() == 3,
        glyph_rows(':')[r][k] <==> (k == 1 && (r == 1 || r == 3)),
        !is_decimal(c) && c != ':' ==> glyph_rows(c).len() == 5 && glyph_rows(c)[r].len() == 3 && !glyph_rows(c)[r][k],
{
}

} // verus!
