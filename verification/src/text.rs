//! Character-level helpers on strings: ASCII case folding and
//! fixed-width number formatting.
use vstd::prelude::*;

verus! {

/// ASCII lower-casing of one character; every other character is kept.
pub open spec fn lower_char(c: char) -> char {
    if 'A' <= c && c <= 'Z' {
        ((c as int) + 32) as char
    } else {
        c
    }
}

/// ASCII lower-casing of a whole string.
pub open spec fn lower(s: Seq<char>) -> Seq<char> {
    s.map_values(|c: char| lower_char(c))
}

pub fn lower_char_exec(c: char) -> (r: char)
    ensures
        r == lower_char(c),
{
    if 'A' <= c && c <= 'Z' {
        let v: u32 = (c as u32) + 32;
        assert(v <= 0x7f);
        (v as u8) as char
    } else {
        c
    }
}


/// Appends one character (std `String::push`).
#[verifier::external_body]
pub(crate) fn push_char(s: &mut String, c: char)
    ensures
        final(s)@ == old(s)@.push(c),
{
    s.push(c);
}

/// A fresh `String` holding the characters of `s`.
pub fn owned(s: &str) -> (r: String)
    ensures
        r@ == s@,
{
    String::from_str(s)
}

/// The ASCII lower-case form of `s`, as characters.
pub fn lower_chars(s: &str) -> (r: Vec<char>)
    ensures
        r@ == lower(s@),
{
    let n = s.unicode_len();
    let mut out: Vec<char> = Vec::new();
    let mut i: usize = 0;
    while i < n
        invariant
            n == s@.len(),
            i <= n,
            out@ == lower(s@.subrange(0, i as int)),
        decreases n - i,
    {
        let c = s.get_char(i);
        out.push(lower_char_exec(c));
        proof {
            assert(s@.subrange(0, i + 1) == s@.subrange(0, i as int).push(c));
        }
        i += 1;
    }
    proof {
        assert(s@.subrange(0, n as int) == s@);
    }
    out
}

/// Whether the characters in `a` spell exactly `b`.
pub fn chars_eq_str(a: &Vec<char>, b: &str) -> (r: bool)
    ensures
        r == (a@ == b@),
{
    let n = b.unicode_len();
    if a.len() != n {
        return false;
    }
    let mut i: usize = 0;
    while i < n
        invariant
            n == b@.len(),
            a@.len() == n,
            i <= n,
            forall|j: int| 0 <= j < i ==> a@[j] == b@[j],
        decreases n - i,
    {
        if a[i] != b.get_char(i) {
            return false;
        }
        i += 1;
    }
    proof {
        assert(a@ =~= b@);
    }
    true
}

/// ASCII case-insensitive comparison of two strings.
pub fn eq_ignore_case(a: &str, b: &str) -> (r: bool)
    ensures
        r == (lower(a@) == lower(b@)),
{
    let la = lower_chars(a);
    let lb = lower_chars(b);
    if la.len() != lb.len() {
        return false;
    }
    let mut i: usize = 0;
    while i < la.len()
        invariant
            la@ == lower(a@),
            lb@ == lower(b@),
            la@.len() == lb@.len(),
            i <= la@.len(),
            forall|j: int| 0 <= j < i ==> la@[j] == lb@[j],
        decreases la@.len() - i,
    {
        if la[i] != lb[i] {
            return false;
        }
        i += 1;
    }
    proof {
        assert(la@ =~= lb@);
    }
    true
}

/// The two decimal digits of `v`, zero-padded.
pub open spec fn two_digits(v: int) -> Seq<char> {
    seq![((v / 10) + 48) as char, ((v % 10) + 48) as char]
}

/// `"HH:MM"`, both fields zero-padded to two digits.
pub open spec fn hm_text(h: int, m: int) -> Seq<char> {
    two_digits(h) + seq![':'] + two_digits(m)
}

pub fn digit_char(d: u32) -> (c: char)
    requires
        d < 10,
    ensures
        c == (d + 48) as char,
{
    let b: u8 = (d as u8) + 48;
    b as char
}

/// Appends `v` as two zero-padded decimal digits.
pub fn push_two_digits(s: &mut String, v: u32)
    requires
        v < 100,
    ensures
        final(s)@ == old(s)@ + two_digits(v as int),
{
    push_char(s, digit_char(v / 10));
    push_char(s, digit_char(v % 10));
    assert(s@ =~= old(s)@ + two_digits(v as int));
}

/// Formats a clock time as `"HH:MM"`.
pub fn format_hm(h: u32, m: u32) -> (r: String)
    requires
        h < 100,
        m < 100,
    ensures
        r@ == hm_text(h as int, m as int),
{
    let mut s = String::new();
    push_two_digits(&mut s, h);
    push_char(&mut s, ':');
    push_two_digits(&mut s, m);
    assert(s@ =~= hm_text(h as int, m as int));
    s
}

/// Distinct clock times format to distinct texts.
pub proof fn lemma_hm_text_injective(h1: int, m1: int, h2: int, m2: int)
    requires
        0 <= h1 < 100,
        0 <= m1 < 100,
        0 <= h2 < 100,
        0 <= m2 < 100,
        hm_text(h1, m1) == hm_text(h2, m2),
    ensures
        h1 == h2,
        m1 == m2,
{
    let a = hm_text(h1, m1);
    let b = hm_text(h2, m2);
    assert(a[0] == b[0] && a[1] == b[1] && a[3] == b[3] && a[4] == b[4]);
    assert(a[0] as int == h1 / 10 + 48);
    assert(b[0] as int == h2 / 10 + 48);
    assert(a[1] as int == h1 % 10 + 48);
    assert(b[1] as int == h2 % 10 + 48);
    assert(a[3] as int == m1 / 10 + 48);
    assert(b[3] as int == m2 / 10 + 48);
    assert(a[4] as int == m1 % 10 + 48);
    assert(b[4] as int == m2 % 10 + 48);
    assert(h1 / 10 == h2 / 10);
    assert(h1 % 10 == h2 % 10);
    assert(m1 / 10 == m2 / 10);
    assert(m1 % 10 == m2 % 10);
    vstd::arithmetic::div_mod::lemma_fundamental_div_mod(h1, 10);
    vstd::arithmetic::div_mod::lemma_fundamental_div_mod(h2, 10);
    vstd::arithmetic::div_mod::lemma_fundamental_div_mod(m1, 10);
    vstd::arithmetic::div_mod::lemma_fundamental_div_mod(m2, 10);
}

/// Whether two strings hold the same characters.
pub fn str_eq(a: &str, b: &str) -> (r: bool)
    ensures
        r == (a@ == b@),
{
    let n = a.unicode_len();
    if n != b.unicode_len() {
        return false;
    }
    let mut i: usize = 0;
    while i < n
        invariant
            n == a@.len(),
            n == b@.len(),
            i <= n,
            forall|j: int| 0 <= j < i ==> a@[j] == b@[j],
        decreases n - i,
    {
        if a.get_char(i) != b.get_char(i) {
            return false;
        }
        i += 1;
    }
    assert(a@ =~= b@);
    true
}

/// A `String` holding the given characters.
pub fn string_of(v: &Vec<char>) -> (s: String)
    ensures
        s@ == v@,
{
    let mut s = String::new();
    let mut i: usize = 0;
    while i < v.len()
        invariant
            i <= v@.len(),
            s@ == v@.subrange(0, i as int),
        decreases v@.len() - i,
    {
        push_char(&mut s, v[i]);
        assert(v@.subrange(0, i + 1) == v@.subrange(0, i as int).push(v@[i as int]));
        i += 1;
    }
    assert(v@.subrange(0, v@.len() as int) == v@);
    s
}

/// A character with the Unicode `White_Space` property.
pub open spec fn white_space(c: char) -> bool {
    ('\u{9}' <= c && c <= '\u{d}') || c == ' ' || c == '\u{85}' || c == '\u{a0}' || c == '\u{1680}'
        || ('\u{2000}' <= c && c <= '\u{200a}') || c == '\u{2028}' || c == '\u{2029}' || c == '\u{202f}'
        || c == '\u{205f}' || c == '\u{3000}'
}

/// `s` without its leading whitespace.
pub open spec fn trim_front(s: Seq<char>) -> Seq<char>
    decreases s.len(),
{
    if s.len() > 0 && white_space(s[0]) {
        trim_front(s.drop_first())
    } else {
        s
    }
}

/// `s` without its trailing whitespace.
pub open spec fn trim_back(s: Seq<char>) -> Seq<char>
    decreases s.len(),
{
    if s.len() > 0 && white_space(s.last()) {
        trim_back(s.drop_last())
    } else {
        s
    }
}

/// What `str::trim` leaves of a string: the string without the leading and
/// trailing characters that have the Unicode `White_Space` property.
pub open spec fn std_trim(s: Seq<char>) -> Seq<char> {
    trim_back(trim_front(s))
}

fn white_space_exec(c: char) -> (b: bool)
    ensures
        b == white_space(c),
{
    ('\u{9}' <= c && c <= '\u{d}') || c == ' ' || c == '\u{85}' || c == '\u{a0}' || c == '\u{1680}'
        || ('\u{2000}' <= c && c <= '\u{200a}') || c == '\u{2028}' || c == '\u{2029}' || c == '\u{202f}'
        || c == '\u{205f}' || c == '\u{3000}'
}

/// `s` without its leading and trailing whitespace, as `str::trim` gives it.
pub(crate) fn trim(s: &str) -> (r: &str)
    ensures
        r@ == std_trim(s@),
{
    let n = s.unicode_len();
    let mut a: usize = 0;
    assert(s@.subrange(0, n as int) =~= s@);
    while a < n && white_space_exec(s.get_char(a))
        invariant
            n == s@.len(),
            a <= n,
            trim_front(s@) == trim_front(s@.subrange(a as int, n as int)),
        decreases n - a,
    {
        assert(s@.subrange(a as int, n as int).drop_first() =~= s@.subrange(a as int + 1, n as int));
        a += 1;
    }
    if a < n {
        assert(!white_space(s@[a as int]));
        assert(s@.subrange(a as int, n as int)[0] == s@[a as int]);
    } else {
        assert(s@.subrange(a as int, n as int).len() == 0);
    }
    assert(trim_front(s@) == s@.subrange(a as int, n as int));
    let mut b: usize = n;
    while b > a && white_space_exec(s.get_char(b - 1))
        invariant
            n == s@.len(),
            a <= b <= n,
            std_trim(s@) == trim_back(s@.subrange(a as int, b as int)),
        decreases b - a,
    {
        assert(s@.subrange(a as int, b as int).drop_last() =~= s@.subrange(a as int, b as int - 1));
        b -= 1;
    }
    if b > a {
        assert(!white_space(s@[b - 1]));
        assert(s@.subrange(a as int, b as int).last() == s@[b - 1]);
    } else {
        assert(s@.subrange(a as int, b as int).len() == 0);
    }
    s.substring_char(a, b)
}

/// The characters of `text`.
pub fn chars_vec(text: &str) -> (v: Vec<char>)
    ensures
        v@ == text@,
{
    let n = text.unicode_len();
    let mut v: Vec<char> = Vec::new();
    let mut i: usize = 0;
    while i < n
        invariant
            n == text@.len(),
            i <= n,
            v@ == text@.subrange(0, i as int),
        decreases n - i,
    {
        v.push(text.get_char(i));
        i += 1;
    }
    assert(v@ =~= text@);
    v
}

} // verus!
