//! Decimal text of integers: how `i64` is written (`Display`) and read
//! (`str::parse::<i64>`).
use vstd::prelude::*;

use crate::text::{chars_of, string_from};

verus! {

pub open spec fn is_digit(c: char) -> bool {
    '0' <= c && c <= '9'
}

pub open spec fn digit_value(c: char) -> int {
    (c as int) - ('0' as int)
}

pub open spec fn digit_char(d: int) -> char
    recommends
        0 <= d < 10,
{
    if d == 0 {
        '0'
    } else if d == 1 {
        '1'
    } else if d == 2 {
        '2'
    } else if d == 3 {
        '3'
    } else if d == 4 {
        '4'
    } else if d == 5 {
        '5'
    } else if d == 6 {
        '6'
    } else if d == 7 {
        '7'
    } else if d == 8 {
        '8'
    } else {
        '9'
    }
}

pub open spec fn all_digits(s: Seq<char>) -> bool {
    forall|i: int| 0 <= i < s.len() ==> #[trigger] is_digit(s[i])
}

/// The value of a run of decimal digits.
pub open spec fn digits_value(s: Seq<char>) -> int
    decreases s.len(),
{
    if s.len() == 0 {
        0
    } else {
        digits_value(s.drop_last()) * 10 + digit_value(s.last())
    }
}

/// The decimal digits of a natural number, most significant first, without
/// leading zeros (and `0` for zero).
pub open spec fn nat_digits(n: nat) -> Seq<char>
    decreases n,
{
    if n < 10 {
        seq![digit_char(n as int)]
    } else {
        nat_digits(n / 10).push(digit_char((n % 10) as int))
    }
}

/// The text `Display` gives an integer: a minus sign for negative values,
/// then the digits of its magnitude.
pub open spec fn decimal(n: int) -> Seq<char> {
    if n < 0 {
        seq!['-'] + nat_digits((-n) as nat)
    } else {
        nat_digits(n as nat)
    }
}

/// What `str::parse::<i64>` gives: an optional sign, then at least one digit
/// and nothing else, with the value in range.
pub open spec fn parse_i64_spec(s: Seq<char>) -> Option<i64> {
    let neg = s.len() > 0 && s[0] == '-';
    let signed = s.len() > 0 && (s[0] == '-' || s[0] == '+');
    let digits = if signed {
        s.skip(1)
    } else {
        s
    };
    if digits.len() == 0 || !all_digits(digits) {
        None
    } else {
        let v: int = if neg {
            -digits_value(digits)
        } else {
            digits_value(digits)
        };
        if i64::MIN <= v && v <= i64::MAX {
            Some(v as i64)
        } else {
            None
        }
    }
}

pub proof fn lemma_digits_value_take_step(s: Seq<char>, i: int)
    requires
        0 <= i < s.len(),
    ensures
        digits_value(s.take(i + 1)) == digits_value(s.take(i)) * 10 + digit_value(s[i]),
{
    assert(s.take(i + 1).drop_last() =~= s.take(i));
    assert(s.take(i + 1).last() == s[i]);
}

pub proof fn lemma_digits_value_nonneg(s: Seq<char>)
    requires
        all_digits(s),
    ensures
        digits_value(s) >= 0,
    decreases s.len(),
{
    if s.len() > 0 {
        assert(all_digits(s.drop_last())) by {
            assert forall|i: int| 0 <= i < s.drop_last().len() implies #[trigger] is_digit(
                s.drop_last()[i],
            ) by {
                assert(s.drop_last()[i] == s[i]);
            }
        }
        lemma_digits_value_nonneg(s.drop_last());
        assert(is_digit(s[s.len() - 1]));
    }
}

pub proof fn lemma_digits_value_monotone(s: Seq<char>, i: int, j: int)
    requires
        0 <= i <= j <= s.len(),
        all_digits(s),
    ensures
        digits_value(s.take(i)) <= digits_value(s.take(j)),
    decreases j - i,
{
    if i < j {
        lemma_digits_value_monotone(s, i, j - 1);
        lemma_digits_value_take_step(s, j - 1);
        assert(is_digit(s[j - 1]));
        assert(all_digits(s.take(j - 1))) by {
            assert forall|k: int| 0 <= k < s.take(j - 1).len() implies #[trigger] is_digit(
                s.take(j - 1)[k],
            ) by {
                assert(s.take(j - 1)[k] == s[k]);
            }
        }
        lemma_digits_value_nonneg(s.take(j - 1));
    }
}

pub proof fn lemma_nat_digits_are_digits(n: nat)
    ensures
        all_digits(nat_digits(n)),
        nat_digits(n).len() > 0,
        digits_value(nat_digits(n)) == n,
    decreases n,
{
    if n < 10 {
        let d = nat_digits(n);
        assert(d.drop_last() =~= Seq::<char>::empty());
        assert(d.last() == digit_char(n as int));
        assert(digits_value(Seq::<char>::empty()) == 0);
        assert(digits_value(d.drop_last()) == 0);
        assert(digits_value(d) == digit_value(digit_char(n as int)));
    } else {
        lemma_nat_digits_are_digits(n / 10);
        let d = nat_digits(n / 10).push(digit_char((n % 10) as int));
        assert(d.drop_last() =~= nat_digits(n / 10));
        assert(d.last() == digit_char((n % 10) as int));
        assert(digits_value(d) == digits_value(nat_digits(n / 10)) * 10 + digit_value(
            digit_char((n % 10) as int),
        ));
        assert forall|i: int| 0 <= i < d.len() implies #[trigger] is_digit(d[i]) by {
            if i < d.len() - 1 {
                assert(d[i] == nat_digits(n / 10)[i]);
            }
        }
    }
}

/// Reading back what `decimal` writes gives the same number.
pub proof fn lemma_parse_decimal_round_trip(n: i64)
    ensures
        parse_i64_spec(decimal(n as int)) == Some(n),
{
    let s = decimal(n as int);
    if n < 0 {
        lemma_nat_digits_are_digits((-n) as nat);
        assert(s.skip(1) =~= nat_digits((-n) as nat));
    } else {
        lemma_nat_digits_are_digits(n as nat);
        let d = nat_digits(n as nat);
        assert(is_digit(d[0]));
    }
}

fn nat_digits_exec(n: u64) -> (r: Vec<char>)
    ensures
        r@ == nat_digits(n as nat),
{
    // digits are produced least significant first, then reversed
    let mut rev: Vec<char> = Vec::new();
    let mut m: u64 = n;
    let ghost mut rest: Seq<char> = Seq::empty();
    while m >= 10
        invariant
            nat_digits(n as nat) == nat_digits(m as nat) + rest,
            rev@.len() == rest.len(),
            forall|k: int| 0 <= k < rest.len() ==> #[trigger] rev@[k] == rest[rest.len() - 1 - k],
        decreases m,
    {
        let c = char_of_digit(m % 10);
        proof {
            assert(nat_digits(m as nat) == nat_digits((m / 10) as nat).push(c));
            assert(nat_digits((m / 10) as nat).push(c) + rest =~= nat_digits((m / 10) as nat) + (
            seq![c] + rest));
            rest = seq![c] + rest;
        }
        rev.push(c);
        m = m / 10;
    }
    let c = char_of_digit(m);
    proof {
        assert(nat_digits(m as nat) == seq![c]);
        rest = seq![c] + rest;
    }
    rev.push(c);
    assert(rest =~= nat_digits(n as nat));
    let mut out: Vec<char> = Vec::new();
    let mut i: usize = rev.len();
    while i > 0
        invariant
            i <= rev.len(),
            rest.len() == rev.len(),
            forall|k: int| 0 <= k < rest.len() ==> #[trigger] rev@[k] == rest[rest.len() - 1 - k],
            out@ == rest.take(rev.len() - i),
        decreases i,
    {
        i = i - 1;
        out.push(rev[i]);
        assert(out@ =~= rest.take(rev.len() - i));
    }
    assert(rest.take(rest.len() as int) =~= rest);
    out
}

fn char_of_digit(d: u64) -> (c: char)
    requires
        d < 10,
    ensures
        c == digit_char(d as int),
{
    if d == 0 {
        '0'
    } else if d == 1 {
        '1'
    } else if d == 2 {
        '2'
    } else if d == 3 {
        '3'
    } else if d == 4 {
        '4'
    } else if d == 5 {
        '5'
    } else if d == 6 {
        '6'
    } else if d == 7 {
        '7'
    } else if d == 8 {
        '8'
    } else {
        '9'
    }
}

/// `n.to_string()` for an `i64`.
pub fn i64_to_string(n: i64) -> (r: String)
    ensures
        r@ == decimal(n as int),
{
    if n < 0 {
        let magnitude: u64 = if n == i64::MIN {
            9223372036854775808u64
        } else {
            (-n) as u64
        };
        let digits = nat_digits_exec(magnitude);
        let mut v: Vec<char> = Vec::new();
        v.push('-');
        let mut i: usize = 0;
        while i < digits.len()
            invariant
                i <= digits.len(),
                v@ == seq!['-'] + digits@.take(i as int),
            decreases digits.len() - i,
        {
            v.push(digits[i]);
            i = i + 1;
            assert(v@ =~= seq!['-'] + digits@.take(i as int));
        }
        assert(digits@.take(digits.len() as int) =~= digits@);
        string_from(&v)
    } else {
        let digits = nat_digits_exec(n as u64);
        string_from(&digits)
    }
}

/// `s.parse::<i64>().ok()`.
pub fn parse_i64(s: &str) -> (r: Option<i64>)
    ensures
        r == parse_i64_spec(s@),
{
    let v = chars_of(s);
    let n = v.len();
    if n == 0 {
        return None;
    }
    let neg = v[0] == '-';
    let signed = v[0] == '-' || v[0] == '+';
    let start: usize = if signed {
        1
    } else {
        0
    };
    let ghost digits = if signed {
        s@.skip(1)
    } else {
        s@
    };
    assert(digits =~= v@.skip(start as int));
    if start == n {
        return None;
    }
    // magnitudes up to 2^63 are representable in u64
    let limit: u64 = 9223372036854775808u64;
    let mut acc: u64 = 0;
    let mut i: usize = start;
    while i < n
        invariant
            start <= i <= n,
            n == v.len(),
            v@ == s@,
            limit == 9223372036854775808u64,
            signed == (s@.len() > 0 && (s@[0] == '-' || s@[0] == '+')),
            digits == (if signed {
                s@.skip(1)
            } else {
                s@
            }),
            start == (if signed {
                1usize
            } else {
                0usize
            }),
            digits =~= v@.skip(start as int),
            forall|j: int| start <= j < i ==> is_digit(v@[j]),
            acc == digits_value(digits.take(i - start)),
            acc <= limit,
        decreases n - i,
    {
        let c = v[i];
        if !('0' <= c && c <= '9') {
            assert(!is_digit(digits[i - start]));
            return None;
        }
        proof {
            lemma_digits_value_take_step(digits, i - start);
        }
        let d = (c as u32 - '0' as u32) as u64;
        if acc > (limit - d) / 10 {
            // the value already exceeds the range; so does every longer run
            proof {
                assert(acc * 10 + d > limit) by (nonlinear_arith)
                    requires
                        acc > (limit - d) / 10,
                        d < 10,
                        limit == 9223372036854775808u64,
                ;
                let k: int = i - start + 1;
                if all_digits(digits) {
                    lemma_digits_value_monotone(digits, k, digits.len() as int);
                    assert(digits.take(digits.len() as int) =~= digits);
                }
            }
            return None;
        }
        acc = acc * 10 + d;
        i = i + 1;
    }
    assert(digits.take(n - start) =~= digits);
    assert(all_digits(digits));
    if neg {
        if acc == limit {
            Some(i64::MIN)
        } else {
            Some(-(acc as i64))
        }
    } else {
        if acc == limit {
            None
        } else {
            Some(acc as i64)
        }
    }
}

} // verus!
