//! Decimal notation of integers.

use vstd::prelude::*;

verus! {

/// The digit character of a value below ten.
pub open spec fn digit_char(v: nat) -> char {
    ((v + 48) as u8) as char
}

/// The value of a decimal digit character.
pub open spec fn digit_value(c: char) -> int {
    c as int - 48
}

/// `c` is one of `0` to `9`.
pub open spec fn is_digit(c: char) -> bool {
    '0' <= c && c <= '9'
}

/// The decimal digits of a natural number, without leading zeros.
pub open spec fn digits(n: nat) -> Seq<char>
    decreases n,
{
    if n < 10 {
        seq![digit_char(n)]
    } else {
        digits(n / 10).push(digit_char(n % 10))
    }
}

/// The decimal notation of an integer, with `-` in front of a negative one.
pub open spec fn decimal(n: int) -> Seq<char> {
    if n < 0 {
        seq!['-'] + digits((-n) as nat)
    } else {
        digits(n as nat)
    }
}

/// The number that a run of decimal digits denotes.
pub open spec fn digits_value(s: Seq<char>) -> nat
    decreases s.len(),
{
    if s.len() == 0 {
        0
    } else {
        (digits_value(s.drop_last()) * 10 + digit_value(s.last())) as nat
    }
}

/// Every character of `s` is a decimal digit.
pub open spec fn all_digits(s: Seq<char>) -> bool {
    forall|i: int| 0 <= i < s.len() ==> is_digit(#[trigger] s[i])
}

/// The integer that a text denotes in the notation of `str::parse::<i64>`:
/// an optional `+` or `-`, then one or more decimal digits, and a value that
/// fits `i64`. Anything else denotes nothing.
pub open spec fn parsed_i64(s: Seq<char>) -> Option<i64> {
    let signed = s.len() > 0 && (s[0] == '-' || s[0] == '+');
    let body = if signed {
        s.drop_first()
    } else {
        s
    };
    if body.len() == 0 || !all_digits(body) {
        None
    } else if s[0] == '-' {
        if digits_value(body) <= 0x8000_0000_0000_0000 {
            Some((-digits_value(body)) as i64)
        } else {
            None
        }
    } else if digits_value(body) <= 0x7fff_ffff_ffff_ffff {
        Some(digits_value(body) as i64)
    } else {
        None
    }
}

/// The decimal digits of `n`.
pub fn digits_of(n: u128) -> (r: Vec<char>)
    ensures
        r@ == digits(n as nat),
{
    let mut cur: u128 = n;
    let mut acc: Vec<char> = Vec::new();
    while cur >= 10
        invariant
            digits(n as nat) == digits(cur as nat) + acc@,
        decreases cur,
    {
        let low: u8 = (cur % 10) as u8;
        let c: char = (low + 48) as char;
        let ghost before = acc@;
        acc.insert(0, c);
        proof {
            assert(digits(cur as nat) == digits((cur / 10) as nat).push(digit_char((cur % 10) as nat)));
            assert(digits((cur / 10) as nat).push(c) + before =~= digits((cur / 10) as nat) + acc@);
        }
        cur = cur / 10;
    }
    let low: u8 = cur as u8;
    let ghost before = acc@;
    acc.insert(0, (low + 48) as char);
    assert(seq![digit_char(cur as nat)] + before =~= acc@);
    acc
}

/// The decimal notation of `n`.
pub fn decimal_of(n: i64) -> (r: Vec<char>)
    ensures
        r@ == decimal(n as int),
{
    if n < 0 {
        let magnitude: u128 = ((-(n + 1)) as u128) + 1;
        let mut r = digits_of(magnitude);
        let ghost body = r@;
        r.insert(0, '-');
        assert(r@ =~= seq!['-'] + body);
        r
    } else {
        digits_of(n as u128)
    }
}

/// Reads a text as `str::parse::<i64>` does.
pub fn parse_i64(s: &Vec<char>) -> (r: Option<i64>)
    ensures
        r == parsed_i64(s@),
{
    let n = s.len();
    if n == 0 {
        return None;
    }
    let negative = s[0] == '-';
    let start: usize = if s[0] == '-' || s[0] == '+' {
        1
    } else {
        0
    };
    if start == n {
        return None;
    }
    let ghost body = if start == 1 {
        s@.drop_first()
    } else {
        s@
    };
    let limit: u64 = if negative {
        0x8000_0000_0000_0000
    } else {
        0x7fff_ffff_ffff_ffff
    };
    let mut value: u64 = 0;
    let mut overflow = false;
    let mut i: usize = start;
    assert(body.take(0) =~= Seq::<char>::empty());
    while i < n
        invariant
            start <= i <= n,
            n == s.len(),
            start <= 1,
            body.len() == n - start,
            forall|k: int| 0 <= k < body.len() ==> body[k] == s@[k + start],
            0x7fff_ffff_ffff_ffff <= limit <= 0x8000_0000_0000_0000,
            body == (if start == 1 {
                s@.drop_first()
            } else {
                s@
            }),
            (start == 1) == (s@[0] == '-' || s@[0] == '+'),
            all_digits(body.take(i - start)),
            !overflow ==> value == digits_value(body.take(i - start)) && value <= limit,
            overflow ==> digits_value(body.take(i - start)) > limit,
        decreases n - i,
    {
        let c = s[i];
        let ghost seen = body.take(i - start);
        let ghost next = body.take(i - start + 1);
        proof {
            assert(next.drop_last() =~= seen);
            assert(next.last() == c);
        }
        if !('0' <= c && c <= '9') {
            proof {
                assert(body[i - start] == c);
                assert(!is_digit(body[i - start]));
            }
            return None;
        }
        proof {
            assert forall|k: int| 0 <= k < next.len() implies is_digit(#[trigger] next[k]) by {
                if k < seen.len() {
                    assert(next[k] == seen[k]);
                }
            }
        }
        let v: u64 = (c as u8 - 48) as u64;
        if !overflow {
            if value > (limit - v) / 10 {
                overflow = true;
            } else {
                value = value * 10 + v;
            }
        }
        i += 1;
    }
    proof {
        assert(body.take(n - start) =~= body);
    }
    if overflow {
        return None;
    }
    if negative {
        if value == 0x8000_0000_0000_0000 {
            Some(i64::MIN)
        } else {
            let m: i64 = value as i64;
            Some(-m)
        }
    } else {
        Some(value as i64)
    }
}

} // verus!
