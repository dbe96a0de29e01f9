//! Decimal parsing of unsigned integers, as `str::parse` does it: an
//! optional leading `+`, then one or more ASCII digits, within the type's
//! range.
use vstd::prelude::*;

verus! {

pub open spec fn is_digit(c: char) -> bool {
    '0' <= c && c <= '9'
}

pub open spec fn all_digits(s: Seq<char>) -> bool {
    forall|i: int| 0 <= i < s.len() ==> is_digit(#[trigger] s[i])
}

/// The decimal value of a digit string.
pub open spec fn dec_value(s: Seq<char>) -> int
    decreases s.len(),
{
    if s.len() == 0 {
        0
    } else {
        10 * dec_value(s.drop_last()) + (s.last() as int - '0' as int)
    }
}

/// The digits after an optional leading `+`.
pub open spec fn unsigned_body(s: Seq<char>) -> Seq<char> {
    if s.len() > 0 && s[0] == '+' { s.drop_first() } else { s }
}

/// `str::parse` for an unsigned type whose largest value is `max`.
pub open spec fn parse_unsigned(s: Seq<char>, max: int) -> Option<int> {
    let b = unsigned_body(s);
    if b.len() > 0 && all_digits(b) && dec_value(b) <= max {
        Some(dec_value(b))
    } else {
        None
    }
}

proof fn lemma_dec_value_nonneg(s: Seq<char>)
    requires
        all_digits(s),
    ensures
        dec_value(s) >= 0,
    decreases s.len(),
{
    if s.len() > 0 {
        lemma_dec_value_nonneg(s.drop_last());
    }
}

/// Parses `s` as an unsigned number no larger than `max`.
pub fn parse_unsigned_exec(s: &str, max: u64) -> (r: Option<u64>)
    ensures
        match r {
            Some(v) => parse_unsigned(s@, max as int) == Some(v as int),
            None => parse_unsigned(s@, max as int) is None,
        },
{
    let n = s.unicode_len();
    let mut i: usize = 0;
    if n > 0 && s.get_char(0) == '+' {
        i = 1;
    }
    let ghost b = unsigned_body(s@);
    assert(b == s@.subrange(i as int, n as int));
    if i == n {
        return None;
    }
    let ghost start = i as int;
    let mut acc: u64 = 0;
    while i < n
        invariant
            n == s@.len(),
            0 <= start <= i <= n,
            b == s@.subrange(start, n as int),
            b == unsigned_body(s@),
            b.len() > 0,
            all_digits(s@.subrange(start, i as int)),
            acc == dec_value(s@.subrange(start, i as int)),
            acc <= max,
        decreases n - i,
    {
        let c = s.get_char(i);
        if !('0' <= c && c <= '9') {
            assert(b[i - start] == c);
            assert(!is_digit(b[i - start]));
            assert(!all_digits(b));
            return None;
        }
        let d: u64 = (c as u32 - '0' as u32) as u64;
        proof {
            assert(s@.subrange(start, i + 1).drop_last() == s@.subrange(start, i as int));
            assert(s@.subrange(start, i + 1).last() == c);
        }
        if d > max || acc > (max - d) / 10 {
            proof {
                if d <= max {
                    assert(10 * acc + d > max) by (nonlinear_arith)
                        requires
                            acc > (max - d) / 10,
                            d <= max,
                    ;
                }
                let p = s@.subrange(start, i + 1);
                assert(dec_value(p) > max);
                lemma_tail_grows(s@, start, i + 1, n as int, max as int);
            }
            return None;
        }
        assert(10 * acc + d <= max) by (nonlinear_arith)
            requires
                acc <= (max - d) / 10,
                d <= max,
        ;
        acc = acc * 10 + d;
        i += 1;
    }
    Some(acc)
}

/// Once a digit prefix exceeds `max`, the whole digit string does too, or
/// it holds a non-digit: either way the parse fails.
proof fn lemma_tail_grows(s: Seq<char>, start: int, j: int, n: int, max: int)
    requires
        0 <= start < j <= n <= s.len(),
        all_digits(s.subrange(start, j)),
        dec_value(s.subrange(start, j)) > max,
    ensures
        !(all_digits(s.subrange(start, n)) && dec_value(s.subrange(start, n)) <= max),
    decreases n - j,
{
    if j < n {
        let p = s.subrange(start, j + 1);
        assert(p.drop_last() == s.subrange(start, j));
        if is_digit(s[j]) {
            assert(all_digits(p));
            lemma_dec_value_nonneg(s.subrange(start, j));
            assert(dec_value(p) > max);
            lemma_tail_grows(s, start, j + 1, n, max);
        } else {
            assert(s.subrange(start, n)[j - start] == s[j]);
        }
    } else {
        assert(s.subrange(start, j) == s.subrange(start, n));
    }
}

} // verus!
