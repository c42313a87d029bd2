use vstd::prelude::*;
use vstd::string::*;

verus! {

/// Whether `c` is an ASCII decimal digit.
pub open spec fn is_digit(c: char) -> bool {
    '0' <= c && c <= '9'
}

/// The value of the decimal digit `c`.
pub open spec fn digit_value(c: char) -> int {
    (c as int) - ('0' as int)
}

/// Whether every character of `s` is a decimal digit.
pub open spec fn all_digits(s: Seq<char>) -> bool {
    forall|i: int| 0 <= i < s.len() ==> is_digit(#[trigger] s[i])
}

/// The number written by the decimal digits `s`, most significant first.
pub open spec fn decimal_value(s: Seq<char>) -> int
    decreases s.len(),
{
    if s.len() == 0 {
        0
    } else {
        10 * decimal_value(s.drop_last()) + digit_value(s.last())
    }
}

/// Whether `s` starts with a sign character.
pub open spec fn has_sign(s: Seq<char>) -> bool {
    s.len() > 0 && (s[0] == '+' || s[0] == '-')
}

/// The digits of `s`, after its sign if it has one.
pub open spec fn unsigned_part(s: Seq<char>) -> Seq<char> {
    if has_sign(s) {
        s.drop_first()
    } else {
        s
    }
}

/// The integer that `s` writes in decimal, with an optional `+` or `-`
/// sign, if it is well formed.
pub open spec fn signed_value(s: Seq<char>) -> Option<int> {
    let d = unsigned_part(s);
    if d.len() > 0 && all_digits(d) {
        if s.len() > 0 && s[0] == '-' {
            Some(-decimal_value(d))
        } else {
            Some(decimal_value(d))
        }
    } else {
        None
    }
}

/// The user identifier that an identification frame carries: its text
/// written as a 32-bit signed integer, if it is one.
pub open spec fn user_id_of(s: Seq<char>) -> Option<int> {
    match signed_value(s) {
        Some(v) => if i32::MIN <= v && v <= i32::MAX {
            Some(v)
        } else {
            None
        },
        None => None,
    }
}

/// Above every magnitude that a 32-bit signed integer can have.
const MAGNITUDE_CAP: i64 = 2147483649;

/// Reads the identification frame `text` as a 32-bit signed integer.
pub fn parse_user_id(text: &str) -> (r: Option<i32>)
    ensures
        match r {
            Some(v) => user_id_of(text@) == Some(v as int),
            None => user_id_of(text@) is None,
        },
{
    let n = text.unicode_len();
    let mut start: usize = 0;
    let mut negative = false;
    if n > 0 {
        let c0 = text.get_char(0);
        if c0 == '+' || c0 == '-' {
            start = 1;
            negative = c0 == '-';
        }
    }
    if start >= n {
        return None;
    }
    let ghost d = unsigned_part(text@);
    assert(d == text@.subrange(start as int, n as int));
    let mut acc: i64 = 0;
    let mut i: usize = start;
    while i < n
        invariant
            start <= i <= n,
            n == text@.len(),
            d == text@.subrange(start as int, n as int),
            d == unsigned_part(text@),
            negative == (text@.len() > 0 && text@[0] == '-'),
            all_digits(d.subrange(0, i - start)),
            acc == if decimal_value(d.subrange(0, i - start)) >= MAGNITUDE_CAP {
                MAGNITUDE_CAP as int
            } else {
                decimal_value(d.subrange(0, i - start))
            },
            0 <= acc <= MAGNITUDE_CAP,
        decreases n - i,
    {
        let c = text.get_char(i);
        let ghost k = (i - start) as int;
        if !('0' <= c && c <= '9') {
            assert(!all_digits(d)) by {
                assert(d[k] == c);
            }
            assert(signed_value(text@) is None);
            return None;
        }
        proof {
            let p = d.subrange(0, k + 1);
            assert(p.drop_last() == d.subrange(0, k));
            assert(p.last() == c);
            lemma_decimal_nonneg(d.subrange(0, k));
        }
        let digit = (c as u32 - '0' as u32) as i64;
        if acc < MAGNITUDE_CAP {
            acc = acc * 10 + digit;
            if acc > MAGNITUDE_CAP {
                acc = MAGNITUDE_CAP;
            }
        }
        i = i + 1;
        assert(all_digits(d.subrange(0, i - start))) by {
            assert forall|j: int| 0 <= j < i - start implies is_digit(
                #[trigger] d.subrange(0, i - start)[j],
            ) by {
                if j < k {
                    assert(d.subrange(0, i - start)[j] == d.subrange(0, k)[j]);
                }
            }
        }
    }
    assert(d.subrange(0, n - start) == d);
    if negative {
        if acc > 2147483648 {
            None
        } else {
            Some((-acc) as i32)
        }
    } else {
        if acc > 2147483647 {
            None
        } else {
            Some(acc as i32)
        }
    }
}

/// A number written in decimal digits is never negative.
proof fn lemma_decimal_nonneg(s: Seq<char>)
    requires
        all_digits(s),
    ensures
        decimal_value(s) >= 0,
    decreases s.len(),
{
    if s.len() > 0 {
        assert(all_digits(s.drop_last())) by {
            assert forall|j: int| 0 <= j < s.drop_last().len() implies is_digit(
                #[trigger] s.drop_last()[j],
            ) by {
                assert(s.drop_last()[j] == s[j]);
            }
        }
        lemma_decimal_nonneg(s.drop_last());
        assert(is_digit(s[s.len() - 1]));
    }
}

} // verus!
