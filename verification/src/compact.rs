//! The small card a face falls back to when its drawing does not fit: the
//! face's name on a rounded frame around the time, and the date below when
//! there is room.
use crate::calendar::{chrono_short_date, format_short_date, Now};
use crate::config::{face_name, Face};
use crate::screen::{blanks, min, push_blanks, sat, take_chars};
use crate::seg7::upper_char;
use crate::text::{owned, push_char};
use vstd::prelude::*;

verus! {

/// Which color a piece of the card is drawn in.
#[derive(Clone, Copy, Debug, PartialEq, Eq, Structural)]
pub enum Tint {
    /// The frame: the primary color, dimmed.
    Border,
    Primary,
    Accent,
    /// The date: the primary color, dimmed less than the frame.
    Faint,
}

/// A piece of text in one color.
#[derive(Debug)]
pub struct Span {
    pub text: String,
    pub tint: Tint,
}

pub open spec fn span_view(s: Span) -> (Seq<char>, Tint) {
    (s.text@, s.tint)
}

pub open spec fn line_view(l: Vec<Span>) -> Seq<(Seq<char>, Tint)> {
    l@.map_values(|s: Span| span_view(s))
}

pub open spec fn lines_view(ls: Seq<Vec<Span>>) -> Seq<Seq<(Seq<char>, Tint)>> {
    ls.map_values(|l: Vec<Span>| line_view(l))
}

pub open spec fn upper(s: Seq<char>) -> Seq<char> {
    s.map_values(|c: char| upper_char(c))
}

pub open spec fn repeated(c: char, n: int) -> Seq<char> {
    Seq::new(sat(n) as nat, |i: int| c)
}

pub open spec fn take(s: Seq<char>, n: int) -> Seq<char> {
    s.take(min(s.len() as int, sat(n)))
}

/// The time shown on the card: the time and its suffix, shortened to
/// `"HH:MM"` (with the suffix when that fits) when the card is narrow.
pub open spec fn card_clock(full: Seq<char>, suffix: Seq<char>, w: int) -> Seq<char> {
    let whole = if suffix.len() == 0 { full } else { full + " "@ + suffix };
    if whole.len() + 4 > w {
        let short = take(full, 5);
        if suffix.len() == 0 || short.len() + suffix.len() + 5 > w {
            short
        } else {
            short + " "@ + suffix
        }
    } else {
        whole
    }
}

/// The top edge of a card `inner` cells wide inside its corners, with the
/// face's name set into it, cut short so the edge never runs past the card.
pub open spec fn card_top(f: Face, inner: int) -> Seq<char> {
    let label = take(upper(face_name(f)), inner - 3);
    let head = "\u{2500} "@ + label + " "@;
    head + repeated('\u{2500}', inner - head.len())
}

/// The card for face `f` in an area `w` by `h`: a single line with the time
/// when the area is too small for a frame, else a frame at most 30 wide with
/// the time centered in it, and the date two lines below when asked for,
/// there are five rows, and it fits.
pub open spec fn card_lines(f: Face, full: Seq<char>, suffix: Seq<char>, w: int, h: int, show_date: bool, date: Seq<char>) -> Seq<Seq<(Seq<char>, Tint)>> {
    let clock = card_clock(full, suffix, w);
    if w == 0 || h == 0 {
        Seq::empty()
    } else if h < 3 || w < 6 {
        seq![seq![(take(clock, w), Tint::Accent)]]
    } else {
        let box_w = if w > 30 { 30 } else { w };
        let inner = box_w - 2;
        let shown = take(clock, inner);
        let left = (inner - shown.len()) / 2;
        let right = inner - shown.len() - left;
        let framed = seq![
            seq![("\u{256d}"@, Tint::Border), (card_top(f, inner), Tint::Border), ("\u{256e}"@, Tint::Border)],
            seq![
                ("\u{2502}"@, Tint::Border),
                (blanks(left), Tint::Primary),
                (shown, Tint::Accent),
                (blanks(right), Tint::Primary),
                ("\u{2502}"@, Tint::Border),
            ],
            seq![("\u{2570}"@, Tint::Border), (repeated('\u{2500}', inner), Tint::Border), ("\u{256f}"@, Tint::Border)],
        ];
        if show_date && h >= 5 && date.len() <= w {
            framed + seq![Seq::empty(), seq![(date, Tint::Faint)]]
        } else {
            framed
        }
    }
}

pub(crate) fn repeat_char(c: char, n: usize) -> (s: String)
    ensures
        s@ == repeated(c, n as int),
{
    let mut s = String::new();
    let mut k: usize = 0;
    while k < n
        invariant
            k <= n,
            s@ == repeated(c, k as int),
        decreases n - k,
    {
        push_char(&mut s, c);
        assert(s@ =~= repeated(c, k + 1));
        k += 1;
    }
    s
}

fn upper_string(s: &str) -> (r: String)
    ensures
        r@ == upper(s@),
{
    let n = s.unicode_len();
    let mut r = String::new();
    let mut k: usize = 0;
    while k < n
        invariant
            n == s@.len(),
            k <= n,
            r@ == upper(s@.take(k as int)),
        decreases n - k,
    {
        let c = s.get_char(k);
        let u = if 'a' <= c && c <= 'z' {
            let v: u32 = (c as u32) - 32;
            (v as u8) as char
        } else {
            c
        };
        push_char(&mut r, u);
        assert(upper(s@.take(k as int + 1)) =~= upper(s@.take(k as int)).push(upper_char(c)));
        k += 1;
    }
    assert(s@.take(n as int) =~= s@);
    r
}

fn span(text: String, tint: Tint) -> (s: Span)
    ensures
        span_view(s) == (text@, tint),
{
    Span { text, tint }
}

fn clock_string(full: &str, suffix: &str, w: usize) -> (r: String)
    ensures
        r@ == card_clock(full@, suffix@, w as int),
{
    let ghost whole_spec = if suffix@.len() == 0 { full@ } else { full@ + " "@ + suffix@ };
    let mut whole = owned(full);
    if suffix.unicode_len() != 0 {
        whole.append(" ");
        whole.append(suffix);
    }
    assert(whole@ == whole_spec);
    let wl = whole.as_str().unicode_len();
    if wl <= usize::MAX - 4 && wl + 4 <= w {
        return whole;
    }
    assert(whole_spec.len() + 4 > w);
    let short = take_chars(full, 5);
    assert(short@ == take(full@, 5));
    let sl = short.as_str().unicode_len();
    let xl = suffix.unicode_len();
    if xl == 0 || sl + 5 > w || xl > w - sl - 5 {
        short
    } else {
        let mut r = short;
        r.append(" ");
        r.append(suffix);
        r
    }
}

/// The card for face `f` at `now`, with the time given as its text and
/// suffix, in an area `w` by `h`.
pub fn compact_card(f: Face, now: Now, full: &str, suffix: &str, w: usize, h: usize, show_date: bool) -> (r: Vec<Vec<Span>>)
    requires
        now.wf(),
    ensures
        lines_view(r@) == card_lines(f, full@, suffix@, w as int, h as int, show_date, chrono_short_date(now.day as int)),
{
    if w == 0 || h == 0 {
        let r: Vec<Vec<Span>> = Vec::new();
        assert(lines_view(r@) =~= Seq::<Seq<(Seq<char>, Tint)>>::empty());
        return r;
    }
    let clock = clock_string(full, suffix, w);
    if h < 3 || w < 6 {
        let mut line: Vec<Span> = Vec::new();
        line.push(span(take_chars(clock.as_str(), w), Tint::Accent));
        let mut r: Vec<Vec<Span>> = Vec::new();
        r.push(line);
        proof {
            assert(line_view(r@[0]) =~= seq![(take(clock@, w as int), Tint::Accent)]);
            assert(lines_view(r@) =~= card_lines(f, full@, suffix@, w as int, h as int, show_date, chrono_short_date(now.day as int)));
        }
        return r;
    }
    let box_w: usize = if w > 30 { 30 } else { w };
    let inner = box_w - 2;
    let label = take_chars(upper_string(f.name()).as_str(), inner - 3);
    let mut top = owned("\u{2500} ");
    top.append(label.as_str());
    top.append(" ");
    let tl = top.as_str().unicode_len();
    let fill = repeat_char('\u{2500}', inner.saturating_sub(tl));
    top.append(fill.as_str());
    proof {
        reveal_strlit("\u{2500} ");
        reveal_strlit(" ");
        assert(top@ =~= card_top(f, inner as int));
    }
    let shown = take_chars(clock.as_str(), inner);
    let cw = shown.as_str().unicode_len();
    let left = (inner - cw) / 2;
    let right = inner - cw - left;
    let mut pad_l = String::new();
    push_blanks(&mut pad_l, left);
    let mut pad_r = String::new();
    push_blanks(&mut pad_r, right);
    assert(pad_l@ =~= blanks(left as int));
    assert(pad_r@ =~= blanks(right as int));

    let mut l0: Vec<Span> = Vec::new();
    l0.push(span(owned("\u{256d}"), Tint::Border));
    l0.push(span(top, Tint::Border));
    l0.push(span(owned("\u{256e}"), Tint::Border));
    let mut l1: Vec<Span> = Vec::new();
    l1.push(span(owned("\u{2502}"), Tint::Border));
    l1.push(span(pad_l, Tint::Primary));
    l1.push(span(shown, Tint::Accent));
    l1.push(span(pad_r, Tint::Primary));
    l1.push(span(owned("\u{2502}"), Tint::Border));
    let mut l2: Vec<Span> = Vec::new();
    l2.push(span(owned("\u{2570}"), Tint::Border));
    l2.push(span(repeat_char('\u{2500}', inner), Tint::Border));
    l2.push(span(owned("\u{256f}"), Tint::Border));
    let ghost v0 = line_view(l0);
    let ghost v1 = line_view(l1);
    let ghost v2 = line_view(l2);
    let mut r: Vec<Vec<Span>> = Vec::new();
    r.push(l0);
    r.push(l1);
    r.push(l2);
    let mut dated = false;
    if show_date && h >= 5 {
        let date = format_short_date(now.day);
        if date.as_str().unicode_len() <= w {
            r.push(Vec::new());
            let mut l4: Vec<Span> = Vec::new();
            l4.push(span(date, Tint::Faint));
            r.push(l4);
            dated = true;
        }
    }
    proof {
        let want = card_lines(f, full@, suffix@, w as int, h as int, show_date, chrono_short_date(now.day as int));
        assert(line_view(r@[0]) =~= want[0]);
        assert(line_view(r@[1]) =~= want[1]);
        assert(line_view(r@[2]) =~= want[2]);
        if dated {
            assert(line_view(r@[3]) =~= want[3]);
            assert(line_view(r@[4]) =~= want[4]);
        }
        assert(lines_view(r@) =~= want);
    }
    r
}

} // verus!
