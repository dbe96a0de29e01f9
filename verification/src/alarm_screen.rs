//! The alarm manager screen: what each alarm row shows, in which colors,
//! where it starts, and how many rows fit. The caller prints the pieces.
use crate::cli::{dec_text, padded, push_decimal, push_padded};
use crate::color::Color;
use crate::config::{alarm_time, recurrence_name, Alarm, Recurrence};
use crate::manager::{active_fields, fields_of, has_detail, AlarmField};
use crate::screen::{blanks, center_col, center_x, sat};
use crate::text::{owned, push_char, push_two_digits, two_digits};
use vstd::prelude::*;

verus! {

/// The colors a piece of text is printed in; no background means the
/// terminal's own.
#[derive(Clone, Copy, Debug, PartialEq, Eq, Structural)]
pub struct Style {
    pub fg: Color,
    pub bg: Option<Color>,
}

/// A piece of an alarm row.
#[derive(Debug)]
pub struct Piece {
    pub text: String,
    pub style: Style,
}

pub open spec fn piece_view(p: Piece) -> (Seq<char>, Style) {
    (p.text@, p.style)
}

/// An alarm row: the column it starts at and its pieces, left to right.
#[derive(Debug)]
pub struct ManagerRow {
    pub x: u16,
    pub pieces: Vec<Piece>,
}

pub open spec fn plain() -> Style {
    Style { fg: Color::Reset, bg: None }
}

/// A focused field: black on the accent color.
pub open spec fn marked(accent: Color) -> Style {
    Style { fg: Color::Black, bg: Some(accent) }
}

/// A field's value: marked when focused, else white on the selected row.
pub open spec fn value_style(focused: bool, selected: bool, accent: Color) -> Style {
    if focused {
        marked(accent)
    } else {
        Style { fg: if selected { Color::White } else { Color::Reset }, bg: None }
    }
}

/// The accent color on the selected row, grey elsewhere.
pub open spec fn row_tint(selected: bool, accent: Color) -> Style {
    Style { fg: if selected { accent } else { Color::DarkGrey }, bg: None }
}

/// The field with the cursor: the row's `col`-th field, on the selected row.
pub open spec fn focus(a: Alarm, selected: bool, col: int) -> Option<AlarmField> {
    if selected && 0 <= col < fields_of(a.recurrence).len() {
        Some(fields_of(a.recurrence)[col])
    } else {
        None
    }
}

/// `"At Event"`, or the warning offset right-aligned in two columns.
pub open spec fn offset_text(n: u32) -> Seq<char> {
    if n == 0 {
        "At Event    "@
    } else {
        blanks(2 - dec_text(n as nat).len()) + dec_text(n as nat) + "m before  "@
    }
}

/// The date or weekday column, when the recurrence has one.
pub open spec fn detail_text(a: Alarm) -> Seq<char> {
    match a.recurrence {
        Recurrence::Weekly => padded(
            match a.day_of_week {
                Some(d) => d@,
                None => "Monday"@,
            },
            12,
        ),
        Recurrence::Once | Recurrence::BiWeekly => padded(a.start_date@, 12),
        _ => Seq::empty(),
    }
}

/// The hour and minute shown: the alarm's, or zero when its time does not parse.
pub open spec fn shown_hour(a: Alarm) -> int {
    match alarm_time(a) {
        Some((h, m)) => h as int,
        None => 0,
    }
}

pub open spec fn shown_minute(a: Alarm) -> int {
    match alarm_time(a) {
        Some((h, m)) => m as int,
        None => 0,
    }
}

pub open spec fn status_color(enabled: bool) -> Color {
    if enabled { Color::Green } else { Color::Red }
}

/// The pieces of alarm `a`'s row, with the cursor on column `col` when
/// the row is selected.
pub open spec fn row_pieces(a: Alarm, selected: bool, col: int, accent: Color) -> Seq<(Seq<char>, Style)> {
    let f = focus(a, selected, col);
    let sc = status_color(a.enabled);
    seq![
        (if selected { ">  "@ } else { "   "@ }, row_tint(selected, accent)),
        (
            if a.enabled { "[ ON ]"@ } else { "[OFF]"@ },
            if f == Some(AlarmField::Enabled) { Style { fg: Color::Black, bg: Some(sc) } } else { Style { fg: sc, bg: None } },
        ),
        ("  "@, plain()),
        (two_digits(shown_hour(a)), value_style(f == Some(AlarmField::Hour), selected, accent)),
        (":"@, row_tint(selected, accent)),
        (two_digits(shown_minute(a)), value_style(f == Some(AlarmField::Minute), selected, accent)),
        ("  "@, plain()),
        (padded(recurrence_name(a.recurrence), 10), value_style(f == Some(AlarmField::Recurrence), selected, accent)),
    ] + (if has_detail(a.recurrence) {
        seq![("  "@, plain()), (detail_text(a), value_style(f == Some(AlarmField::Detail), selected, accent))]
    } else {
        Seq::empty()
    }) + seq![
        ("  "@, plain()),
        (offset_text(a.trigger_offset_min), value_style(f == Some(AlarmField::WarningOffset), selected, accent)),
        ("  "@, plain()),
        (a.name@, if f == Some(AlarmField::Name) { marked(accent) } else { row_tint(selected, accent) }),
    ]
}

/// The width the row is centered by.
pub open spec fn row_len(a: Alarm) -> int {
    44 + a.name@.len() + if has_detail(a.recurrence) { 14int } else { 0 }
}

fn piece(text: String, style: Style) -> (p: Piece)
    ensures
        piece_view(p) == (text@, style),
{
    Piece { text, style }
}

fn value(focused: bool, selected: bool, accent: Color) -> (s: Style)
    ensures
        s == value_style(focused, selected, accent),
{
    if focused {
        Style { fg: Color::Black, bg: Some(accent) }
    } else {
        Style { fg: if selected { Color::White } else { Color::Reset }, bg: None }
    }
}

fn tint(selected: bool, accent: Color) -> (s: Style)
    ensures
        s == row_tint(selected, accent),
{
    Style { fg: if selected { accent } else { Color::DarkGrey }, bg: None }
}

fn is_focus(f: Option<AlarmField>, g: AlarmField) -> (b: bool)
    ensures
        b == (f == Some(g)),
{
    match f {
        Some(h) => h == g,
        None => false,
    }
}

fn two(v: u32) -> (s: String)
    requires
        v < 100,
    ensures
        s@ == two_digits(v as int),
{
    let mut s = String::new();
    push_two_digits(&mut s, v);
    s
}

fn offset_string(n: u32) -> (s: String)
    ensures
        s@ == offset_text(n),
{
    if n == 0 {
        return owned("At Event    ");
    }
    let mut d = String::new();
    push_decimal(&mut d, n as usize);
    assert(d@ =~= dec_text(n as nat));
    let mut s = String::new();
    if d.as_str().unicode_len() < 2 {
        push_char(&mut s, ' ');
    }
    proof {
        lemma_dec_text_nonempty(n as nat);
        if d@.len() < 2 {
            assert(blanks(2 - d@.len()) =~= seq![' ']);
        } else {
            assert(blanks(2 - d@.len()) =~= Seq::<char>::empty());
        }
    }
    s.append(d.as_str());
    s.append("m before  ");
    assert(s@ =~= offset_text(n));
    s
}

proof fn lemma_dec_text_nonempty(n: nat)
    ensures
        dec_text(n).len() >= 1,
    decreases n,
{
    if n >= 10 {
        lemma_dec_text_nonempty(n / 10);
    }
}

fn padded_string(t: &str, w: usize) -> (s: String)
    ensures
        s@ == padded(t@, w as int),
{
    let mut s = String::new();
    push_padded(&mut s, t, w);
    assert(s@ =~= padded(t@, w as int));
    s
}

fn detail_string(a: &Alarm) -> (s: String)
    ensures
        s@ == detail_text(*a),
{
    match a.recurrence {
        Recurrence::Weekly => match &a.day_of_week {
            Some(d) => padded_string(d.as_str(), 12),
            None => padded_string("Monday", 12),
        },
        Recurrence::Once | Recurrence::BiWeekly => padded_string(a.start_date.as_str(), 12),
        _ => String::new(),
    }
}

/// Lays out alarm `a`'s row for a terminal `term_w` wide, with the cursor
/// on column `col` when the row is `selected`.
pub fn manager_row(a: &Alarm, selected: bool, col: usize, accent: Color, term_w: u16) -> (r: ManagerRow)
    ensures
        r.x == center_col(term_w as int, row_len(*a)),
        r.pieces@.map_values(|p: Piece| piece_view(p)) == row_pieces(*a, selected, col as int, accent),
{
    let fields = active_fields(a);
    let f: Option<AlarmField> = if selected && col < fields.len() { Some(fields[col]) } else { None };
    let sc = if a.enabled { Color::Green } else { Color::Red };
    let (h, m) = match a.get_time() {
        Some(t) => t,
        None => (0, 0),
    };
    let has = match a.recurrence {
        Recurrence::Once | Recurrence::Weekly | Recurrence::BiWeekly => true,
        _ => false,
    };
    let mut v: Vec<Piece> = Vec::new();
    v.push(piece(owned(if selected { ">  " } else { "   " }), tint(selected, accent)));
    v.push(piece(
        owned(if a.enabled { "[ ON ]" } else { "[OFF]" }),
        if is_focus(f, AlarmField::Enabled) { Style { fg: Color::Black, bg: Some(sc) } } else { Style { fg: sc, bg: None } },
    ));
    v.push(piece(owned("  "), Style { fg: Color::Reset, bg: None }));
    v.push(piece(two(h), value(is_focus(f, AlarmField::Hour), selected, accent)));
    v.push(piece(owned(":"), tint(selected, accent)));
    v.push(piece(two(m), value(is_focus(f, AlarmField::Minute), selected, accent)));
    v.push(piece(owned("  "), Style { fg: Color::Reset, bg: None }));
    v.push(piece(padded_string(a.recurrence.name(), 10), value(is_focus(f, AlarmField::Recurrence), selected, accent)));
    if has {
        v.push(piece(owned("  "), Style { fg: Color::Reset, bg: None }));
        v.push(piece(detail_string(a), value(is_focus(f, AlarmField::Detail), selected, accent)));
    }
    v.push(piece(owned("  "), Style { fg: Color::Reset, bg: None }));
    v.push(piece(offset_string(a.trigger_offset_min), value(is_focus(f, AlarmField::WarningOffset), selected, accent)));
    v.push(piece(owned("  "), Style { fg: Color::Reset, bg: None }));
    let name_style = if is_focus(f, AlarmField::Name) { Style { fg: Color::Black, bg: Some(accent) } } else { tint(selected, accent) };
    v.push(piece(a.name.clone(), name_style));
    let name_len = a.name.as_str().unicode_len();
    let extra: usize = if has { 58 } else { 44 };
    let len: usize = ((name_len % 0x10000) + extra) % 0x10000;
    proof {
        vstd::arithmetic::div_mod::lemma_add_mod_noop_right(extra as int, name_len as int, 0x10000);
        assert(len == row_len(*a) % 0x10000);
        vstd::arithmetic::div_mod::lemma_mod_twice(row_len(*a), 0x10000);
    }
    proof {
        assert(f == focus(*a, selected, col as int));
        assert(v@.map_values(|p: Piece| piece_view(p)) =~= row_pieces(*a, selected, col as int, accent));
    }
    ManagerRow { x: center_x(term_w, len), pieces: v }
}


/// The first row of the alarm list.
pub const LIST_TOP: u16 = 4;

/// How many of `n` alarm rows fit above the help box of a terminal
/// `term_h` rows high: rows start at `LIST_TOP` and stop six rows from
/// the bottom.
pub fn rows_shown(term_h: u16, n: usize) -> (k: usize)
    ensures
        k == (if n < sat(sat(term_h - 6) - 4) { n as int } else { sat(sat(term_h - 6) - 4) }),
{
    let room = (term_h.saturating_sub(6)).saturating_sub(LIST_TOP) as usize;
    if n < room { n } else { room }
}

/// The separator above the help box: dashes across the terminal, at most 50.
pub fn separator(term_w: u16) -> (s: String)
    ensures
        s@ == Seq::new(if term_w < 50 { term_w as nat } else { 50nat }, |i: int| '-'),
{
    let n: u16 = if term_w < 50 { term_w } else { 50 };
    let mut s = String::new();
    let mut k: u16 = 0;
    while k < n
        invariant
            k <= n,
            n == (if term_w < 50 { term_w } else { 50 }),
            s@ == Seq::new(k as nat, |i: int| '-'),
        decreases n - k,
    {
        push_char(&mut s, '-');
        assert(s@ =~= Seq::new((k + 1) as nat, |i: int| '-'));
        k += 1;
    }
    s
}

} // verus!
