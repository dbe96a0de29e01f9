//! Color names as written in the configuration: the standard ANSI names,
//! `#rrggbb` and `rgb(r,g,b)`, and the approximate RGB of each color.
use crate::numparse::{parse_unsigned, parse_unsigned_exec};
use crate::text::{chars_eq_str, lower, lower_chars, std_trim, string_of, trim};
use vstd::prelude::*;

verus! {

/// A terminal color.
#[derive(Clone, Copy, Debug, PartialEq, Eq, Structural)]
pub enum Color {
    Reset,
    Black,
    DarkGrey,
    Red,
    DarkRed,
    Green,
    DarkGreen,
    Yellow,
    DarkYellow,
    Blue,
    DarkBlue,
    Magenta,
    DarkMagenta,
    Cyan,
    DarkCyan,
    White,
    Grey,
    Rgb { r: u8, g: u8, b: u8 },
    AnsiValue(u8),
}

pub open spec fn hex_digit(c: char) -> Option<int> {
    if '0' <= c && c <= '9' {
        Some(c as int - '0' as int)
    } else if 'a' <= c && c <= 'f' {
        Some(c as int - 'a' as int + 10)
    } else if 'A' <= c && c <= 'F' {
        Some(c as int - 'A' as int + 10)
    } else {
        None
    }
}

pub open spec fn all_hex(s: Seq<char>) -> bool {
    forall|i: int| 0 <= i < s.len() ==> #[trigger] hex_digit(s[i]) is Some
}

pub open spec fn hex_value(s: Seq<char>) -> int
    decreases s.len(),
{
    if s.len() == 0 {
        0
    } else {
        16 * hex_value(s.drop_last()) + hex_digit(s.last())->0
    }
}

/// Six hex digits, as the value they spell; nothing else (no sign).
pub open spec fn parse_hex(s: Seq<char>) -> Option<int> {
    if s.len() == 6 && all_hex(s) {
        Some(hex_value(s))
    } else {
        None
    }
}

/// The first position from `k` on holding `c`.
pub open spec fn find_from(s: Seq<char>, c: char, k: int) -> Option<int>
    decreases s.len() - k,
{
    if k >= s.len() || k < 0 {
        None
    } else if s[k] == c {
        Some(k)
    } else {
        find_from(s, c, k + 1)
    }
}

/// The three pieces between exactly two commas.
pub open spec fn split3(s: Seq<char>) -> Option<(Seq<char>, Seq<char>, Seq<char>)> {
    match find_from(s, ',', 0) {
        Some(i) => match find_from(s, ',', i + 1) {
            Some(j) => if find_from(s, ',', j + 1) is None {
                Some((s.subrange(0, i), s.subrange(i + 1, j), s.subrange(j + 1, s.len() as int)))
            } else {
                None
            },
            None => None,
        },
        None => None,
    }
}

/// The inside of `rgb( ... )`.
pub open spec fn rgb_inner(n: Seq<char>) -> Option<Seq<char>> {
    if n.len() >= 5 && n.subrange(0, 4) == "rgb("@ && n.last() == ')' {
        Some(n.subrange(4, n.len() - 1))
    } else {
        None
    }
}

/// The three channels of `rgb(r,g,b)`, each trimmed and read as a `u8`.
pub open spec fn rgb_value(n: Seq<char>) -> Option<(int, int, int)> {
    match rgb_inner(n) {
        Some(inner) => match split3(inner) {
            Some((a, b, c)) => match (parse_unsigned(std_trim(a), 255), parse_unsigned(std_trim(b), 255), parse_unsigned(std_trim(c), 255)) {
                (Some(r), Some(g), Some(bb)) => Some((r, g, bb)),
                _ => None,
            },
            None => None,
        },
        None => None,
    }
}

/// The ANSI color a lower-cased name stands for; white for anything else.
pub open spec fn named_color(n: Seq<char>) -> Color {
    if n == "black"@ { Color::Black }
    else if n == "red"@ { Color::Red }
    else if n == "green"@ { Color::Green }
    else if n == "yellow"@ { Color::Yellow }
    else if n == "blue"@ { Color::Blue }
    else if n == "magenta"@ { Color::Magenta }
    else if n == "purple"@ { Color::Magenta }
    else if n == "cyan"@ { Color::Cyan }
    else if n == "white"@ { Color::White }
    else if n == "gray"@ { Color::DarkGrey }
    else if n == "grey"@ { Color::DarkGrey }
    else if n == "dark_red"@ { Color::DarkRed }
    else if n == "dark_green"@ { Color::DarkGreen }
    else if n == "dark_yellow"@ { Color::DarkYellow }
    else if n == "orange"@ { Color::DarkYellow }
    else if n == "dark_blue"@ { Color::DarkBlue }
    else if n == "dark_magenta"@ { Color::DarkMagenta }
    else if n == "dark_cyan"@ { Color::DarkCyan }
    else { Color::White }
}

/// What a configured color name means: after trimming and lower-casing,
/// `#` and six hex digits, `rgb(r,g,b)`, or an ANSI name; white for
/// anything unrecognized, so a typo never crashes the clock.
pub open spec fn color_of(name: Seq<char>) -> Color {
    let n = lower(std_trim(name));
    if n.len() > 0 && n[0] == '#' && n.drop_first().len() == 6 && parse_hex(n.drop_first()) is Some {
        let v = parse_hex(n.drop_first())->0;
        Color::Rgb { r: (v / 65536 % 256) as u8, g: (v / 256 % 256) as u8, b: (v % 256) as u8 }
    } else if rgb_value(n) is Some {
        let (r, g, b) = rgb_value(n)->0;
        Color::Rgb { r: r as u8, g: g as u8, b: b as u8 }
    } else {
        named_color(n)
    }
}

/// The approximate RGB of a color, so named ANSI colors and truecolor
/// values can be blended alike.
pub open spec fn rgb_of(c: Color) -> (u8, u8, u8) {
    match c {
        Color::Rgb { r, g, b } => (r, g, b),
        Color::Black => (0, 0, 0),
        Color::DarkGrey => (100, 100, 100),
        Color::Red => (255, 85, 85),
        Color::DarkRed => (170, 0, 0),
        Color::Green => (85, 255, 85),
        Color::DarkGreen => (0, 170, 0),
        Color::Yellow => (255, 255, 85),
        Color::DarkYellow => (255, 145, 0),
        Color::Blue => (85, 130, 255),
        Color::DarkBlue => (0, 0, 170),
        Color::Magenta => (255, 85, 255),
        Color::DarkMagenta => (170, 0, 170),
        Color::Cyan => (85, 255, 255),
        Color::DarkCyan => (0, 170, 170),
        Color::White => (229, 229, 229),
        Color::Grey => (229, 229, 229),
        _ => (200, 200, 200),
    }
}

/// Approximate RGB of any color.
pub fn to_rgb(c: Color) -> (t: (u8, u8, u8))
    ensures
        t == rgb_of(c),
{
    match c {
        Color::Rgb { r, g, b } => (r, g, b),
        Color::Black => (0, 0, 0),
        Color::DarkGrey => (100, 100, 100),
        Color::Red => (255, 85, 85),
        Color::DarkRed => (170, 0, 0),
        Color::Green => (85, 255, 85),
        Color::DarkGreen => (0, 170, 0),
        Color::Yellow => (255, 255, 85),
        Color::DarkYellow => (255, 145, 0),
        Color::Blue => (85, 130, 255),
        Color::DarkBlue => (0, 0, 170),
        Color::Magenta => (255, 85, 255),
        Color::DarkMagenta => (170, 0, 170),
        Color::Cyan => (85, 255, 255),
        Color::DarkCyan => (0, 170, 170),
        Color::White => (229, 229, 229),
        Color::Grey => (229, 229, 229),
        _ => (200, 200, 200),
    }
}

fn hex_digit_exec(c: char) -> (d: Option<u32>)
    ensures
        match d {
            Some(v) => hex_digit(c) == Some(v as int),
            None => hex_digit(c) is None,
        },
{
    if '0' <= c && c <= '9' {
        Some(c as u32 - '0' as u32)
    } else if 'a' <= c && c <= 'f' {
        Some(c as u32 - 'a' as u32 + 10)
    } else if 'A' <= c && c <= 'F' {
        Some(c as u32 - 'A' as u32 + 10)
    } else {
        None
    }
}

/// `16^n`.
pub open spec fn p16(n: nat) -> int
    decreases n,
{
    if n == 0 { 1 } else { 16 * p16((n - 1) as nat) }
}

proof fn lemma_p16_small()
    ensures
        p16(0) == 1,
        p16(1) == 16,
        p16(2) == 256,
        p16(3) == 4096,
        p16(4) == 65536,
        p16(5) == 1048576,
        p16(6) == 16777216,
{
    reveal_with_fuel(p16, 7);
}

proof fn lemma_hex_bound(s: Seq<char>)
    requires
        all_hex(s),
    ensures
        0 <= hex_value(s) < p16( s.len()),
    decreases s.len(),
{
    if s.len() > 0 {
        assert(all_hex(s.drop_last()));
        assert(hex_digit(s.last()) is Some);
        lemma_hex_bound(s.drop_last());
    }
}

/// Reads six characters (after the `#`) as a hex number.
fn parse_hex6(v: &Vec<char>) -> (r: Option<u32>)
    requires
        v@.len() == 6,
    ensures
        match r {
            Some(x) => parse_hex(v@) == Some(x as int),
            None => parse_hex(v@) is None,
        },
{
    let mut i: usize = 0;
    let mut acc: u32 = 0;
    while i < 6
        invariant
            v@.len() == 6,
            i <= 6,
            all_hex(v@.subrange(0, i as int)),
            acc == hex_value(v@.subrange(0, i as int)),
            acc < p16(i as nat),
        decreases 6 - i,
    {
        let d = match hex_digit_exec(v[i]) {
            Some(d) => d,
            None => {
                assert(!all_hex(v@));
                return None;
            },
        };
        proof {
            assert(v@.subrange(0, i + 1).drop_last() == v@.subrange(0, i as int));
            lemma_p16_small();
            assert(16 * acc + d < 16 * p16(i as nat)) by (nonlinear_arith)
                requires
                    acc < p16(i as nat),
                    d < 16,
            ;
        }
        acc = acc * 16 + d;
        i += 1;
    }
    assert(v@.subrange(0, 6) == v@);
    Some(acc)
}

fn find_comma(s: &Vec<char>, from: usize) -> (r: Option<usize>)
    ensures
        match r {
            Some(i) => find_from(s@, ',', from as int) == Some(i as int),
            None => find_from(s@, ',', from as int) is None,
        },
    decreases s@.len() - from,
{
    if from >= s.len() {
        return None;
    }
    if s[from] == ',' {
        Some(from)
    } else {
        find_comma(s, from + 1)
    }
}

fn slice_chars(s: &Vec<char>, a: usize, b: usize) -> (r: Vec<char>)
    requires
        a <= b <= s@.len(),
    ensures
        r@ == s@.subrange(a as int, b as int),
{
    let mut r: Vec<char> = Vec::new();
    let mut i = a;
    while i < b
        invariant
            a <= i <= b <= s@.len(),
            r@ == s@.subrange(a as int, i as int),
        decreases b - i,
    {
        r.push(s[i]);
        i += 1;
    }
    r
}

fn channel(part: &Vec<char>) -> (r: Option<u8>)
    ensures
        match r {
            Some(x) => parse_unsigned(std_trim(part@), 255) == Some(x as int),
            None => parse_unsigned(std_trim(part@), 255) is None,
        },
{
    let s = string_of(part);
    match parse_unsigned_exec(trim(s.as_str()), 255) {
        Some(x) => Some(x as u8),
        None => None,
    }
}

fn rgb_exec(n: &Vec<char>) -> (r: Option<(u8, u8, u8)>)
    ensures
        match r {
            Some((a, b, c)) => rgb_value(n@) == Some((a as int, b as int, c as int)),
            None => rgb_value(n@) is None,
        },
{
    let len = n.len();
    if len < 5 || n[len - 1] != ')' {
        return None;
    }
    let head = slice_chars(n, 0, 4);
    if !chars_eq_str(&head, "rgb(") {
        return None;
    }
    let inner = slice_chars(n, 4, len - 1);
    assert(rgb_inner(n@) == Some(inner@));
    let i = match find_comma(&inner, 0) {
        Some(i) => i,
        None => return None,
    };
    proof {
        lemma_find_from_range(inner@, ',', 0);
    }
    let j = match find_comma(&inner, i + 1) {
        Some(j) => j,
        None => return None,
    };
    proof {
        lemma_find_from_range(inner@, ',', i + 1);
    }
    if find_comma(&inner, j + 1).is_some() {
        return None;
    }
    let a = slice_chars(&inner, 0, i);
    let b = slice_chars(&inner, i + 1, j);
    let c = slice_chars(&inner, j + 1, inner.len());
    match (channel(&a), channel(&b), channel(&c)) {
        (Some(x), Some(y), Some(z)) => Some((x, y, z)),
        _ => None,
    }
}

proof fn lemma_find_from_range(s: Seq<char>, c: char, k: int)
    ensures
        find_from(s, c, k) matches Some(i) ==> k <= i < s.len() && s[i] == c,
    decreases s.len() - k,
{
    if k >= s.len() || k < 0 {
    } else if s[k] == c {
    } else {
        lemma_find_from_range(s, c, k + 1);
    }
}

/// Reads a configured color name.
pub fn parse(name: &str) -> (c: Color)
    ensures
        c == color_of(name@),
{
    let n = lower_chars(trim(name));
    if n.len() == 7 && n[0] == '#' {
        let hex = slice_chars(&n, 1, 7);
        assert(hex@ == n@.drop_first());
        match parse_hex6(&hex) {
            Some(v) => {
                proof {
                    lemma_hex_bound(hex@);
                    lemma_p16_small();
                }
                return Color::Rgb { r: ((v / 65536) % 256) as u8, g: ((v / 256) % 256) as u8, b: (v % 256) as u8 };
            },
            None => {},
        }
    }
    match rgb_exec(&n) {
        Some((r, g, b)) => return Color::Rgb { r, g, b },
        None => {},
    }
    if chars_eq_str(&n, "black") {
        Color::Black
    } else if chars_eq_str(&n, "red") {
        Color::Red
    } else if chars_eq_str(&n, "green") {
        Color::Green
    } else if chars_eq_str(&n, "yellow") {
        Color::Yellow
    } else if chars_eq_str(&n, "blue") {
        Color::Blue
    } else if chars_eq_str(&n, "magenta") {
        Color::Magenta
    } else if chars_eq_str(&n, "purple") {
        Color::Magenta
    } else if chars_eq_str(&n, "cyan") {
        Color::Cyan
    } else if chars_eq_str(&n, "white") {
        Color::White
    } else if chars_eq_str(&n, "gray") {
        Color::DarkGrey
    } else if chars_eq_str(&n, "grey") {
        Color::DarkGrey
    } else if chars_eq_str(&n, "dark_red") {
        Color::DarkRed
    } else if chars_eq_str(&n, "dark_green") {
        Color::DarkGreen
    } else if chars_eq_str(&n, "dark_yellow") {
        Color::DarkYellow
    } else if chars_eq_str(&n, "orange") {
        Color::DarkYellow
    } else if chars_eq_str(&n, "dark_blue") {
        Color::DarkBlue
    } else if chars_eq_str(&n, "dark_magenta") {
        Color::DarkMagenta
    } else if chars_eq_str(&n, "dark_cyan") {
        Color::DarkCyan
    } else {
        Color::White
    }
}


/// The names `config colors` lists, with a hint for truecolor last.
pub open spec fn listed_names() -> Seq<Seq<char>> {
    seq![
        "black"@, "red"@, "green"@, "yellow"@, "blue"@, "magenta"@, "cyan"@, "white"@, "gray"@,
        "dark_red"@, "dark_green"@, "dark_yellow"@, "dark_blue"@, "dark_magenta"@, "dark_cyan"@,
        "#rrggbb (truecolor)"@,
    ]
}

/// The built-in color names, in the order they are listed.
pub fn color_names() -> (v: Vec<&'static str>)
    ensures
        v@.map_values(|s: &'static str| s@) == listed_names(),
{
    let v = vec![
        "black", "red", "green", "yellow", "blue", "magenta", "cyan", "white", "gray", "dark_red",
        "dark_green", "dark_yellow", "dark_blue", "dark_magenta", "dark_cyan", "#rrggbb (truecolor)",
    ];
    assert(v@.map_values(|s: &'static str| s@) =~= listed_names());
    v
}

} // verus!
