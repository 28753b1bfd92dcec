//! Decimal parsing with the rules of std's `from_str` for integers.

use vstd::prelude::*;

use crate::render::width::{digit_value, digits_value, lemma_digits_prefix};
use crate::text::{decimal, digit_char, is_space, to_chars, trim, trim_chars, trim_end, trim_start};

verus! {

/// An unsigned decimal as `u64::from_str` reads it: an optional `+`, then
/// one or more digits, with a value of at most `hi`.
pub open spec fn parse_unsigned(s: Seq<char>, hi: nat) -> Option<nat> {
    let digits = if s.len() > 0 && s[0] == '+' {
        s.drop_first()
    } else {
        s
    };
    if digits.len() == 0 {
        None
    } else {
        match digits_value(digits, 10) {
            Some(v) => if v <= hi {
                Some(v)
            } else {
                None
            },
            None => None,
        }
    }
}

/// A signed decimal as `i64::from_str` reads it: an optional `+` or `-`,
/// then one or more digits, with a value from `lo` to `hi`.
pub open spec fn parse_signed(s: Seq<char>, lo: int, hi: int) -> Option<int> {
    if s.len() > 0 && s[0] == '-' {
        let digits = s.drop_first();
        if digits.len() == 0 {
            None
        } else {
            match digits_value(digits, 10) {
                Some(v) => if -v >= lo {
                    Some(-v)
                } else {
                    None
                },
                None => None,
            }
        }
    } else {
        match parse_unsigned(s, if hi >= 0 {
            hi as nat
        } else {
            0
        }) {
            Some(v) => if v >= lo {
                Some(v as int)
            } else {
                None
            },
            None => None,
        }
    }
}

/// The value of the digits `s[start..]` when it is at most `limit`.
fn digits_at_most(s: &[char], start: usize, limit: u128) -> (r: Option<u128>)
    requires
        start < s@.len(),
        limit <= 0x1_0000_0000_0000_0000,
    ensures
        match digits_value(s@.skip(start as int), 10) {
            Some(v) => if v <= limit {
                r == Some(v as u128)
            } else {
                r is None
            },
            None => r is None,
        },
{
    let ghost digits = s@.skip(start as int);
    let mut acc: u128 = 0;
    let mut k: usize = start;
    assert(digits.take(0) =~= Seq::<char>::empty());
    while k < s.len()
        invariant
            start <= k <= s@.len(),
            digits == s@.skip(start as int),
            limit <= 0x1_0000_0000_0000_0000,
            acc <= limit,
            digits_value(digits.take(k - start), 10) == Some(acc as nat),
        decreases s@.len() - k,
    {
        let ghost pre = digits.take(k - start);
        let ghost next = digits.take(k + 1 - start);
        assert(next.drop_last() =~= pre);
        assert(next.last() == s@[k as int]);
        let c = s[k];
        if !('0' <= c && c <= '9') {
            proof {
                assert(digits_value(next, 10) is None);
                if digits_value(digits, 10) is Some {
                    lemma_digits_prefix(digits, 10, k + 1 - start);
                }
            }
            return None;
        }
        let d: u128 = (c as u32 - '0' as u32) as u128;
        let nv: u128 = acc * 10 + d;
        if nv > limit {
            proof {
                assert(digits_value(next, 10) == Some(nv as nat));
                if digits_value(digits, 10) is Some {
                    lemma_digits_prefix(digits, 10, k + 1 - start);
                }
            }
            return None;
        }
        acc = nv;
        k = k + 1;
    }
    assert(digits.take(k - start) =~= digits);
    Some(acc)
}

/// `usize::from_str` on characters (see [`parse_unsigned`]).
pub fn parse_usize_chars(s: &[char]) -> (r: Option<usize>)
    ensures
        match parse_unsigned(s@, usize::MAX as nat) {
            Some(v) => r == Some(v as usize),
            None => r is None,
        },
{
    let start: usize = if s.len() > 0 && s[0] == '+' {
        1
    } else {
        0
    };
    let ghost digits = if s@.len() > 0 && s@[0] == '+' {
        s@.drop_first()
    } else {
        s@
    };
    assert(digits =~= s@.skip(start as int));
    if start >= s.len() {
        return None;
    }
    match digits_at_most(s, start, usize::MAX as u128) {
        Some(v) => Some(v as usize),
        None => None,
    }
}

/// `i64::from_str` on characters (see [`parse_signed`]).
pub fn parse_i64_chars(s: &[char]) -> (r: Option<i64>)
    ensures
        match parse_signed(s@, i64::MIN as int, i64::MAX as int) {
            Some(v) => r == Some(v as i64),
            None => r is None,
        },
{
    if s.len() > 0 && s[0] == '-' {
        assert(s@.drop_first() =~= s@.skip(1));
        if s.len() == 1 {
            return None;
        }
        match digits_at_most(s, 1, 0x8000_0000_0000_0000u128) {
            Some(v) => {
                let n: i128 = -(v as i128);
                Some(n as i64)
            },
            None => None,
        }
    } else {
        let start: usize = if s.len() > 0 && s[0] == '+' {
            1
        } else {
            0
        };
        let ghost digits = if s@.len() > 0 && s@[0] == '+' {
            s@.drop_first()
        } else {
            s@
        };
        assert(digits =~= s@.skip(start as int));
        if start >= s.len() {
            return None;
        }
        match digits_at_most(s, start, 0x7FFF_FFFF_FFFF_FFFFu128) {
            Some(v) => Some(v as i64),
            None => None,
        }
    }
}

/// `i32::from_str` on characters (see [`parse_signed`]).
pub fn parse_i32_chars(s: &[char]) -> (r: Option<i32>)
    ensures
        match parse_signed(s@, i32::MIN as int, i32::MAX as int) {
            Some(v) => r == Some(v as i32),
            None => r is None,
        },
{
    match parse_i64_chars(s) {
        Some(v) => if v >= -2147483648i64 && v <= 2147483647i64 {
            Some(v as i32)
        } else {
            None
        },
        None => None,
    }
}

/// The trimmed text as a `usize`, or `default` when there is no text or it
/// is not one.
pub open spec fn usize_or(text: Option<Seq<char>>, default: usize) -> usize {
    match text {
        Some(t) => match parse_unsigned(trim(t), usize::MAX as nat) {
            Some(v) => v as usize,
            None => default,
        },
        None => default,
    }
}

/// Reads a counter file's text: its trimmed contents as a `usize`, or
/// `default` when the file could not be read (`None`) or does not hold one.
pub fn read_usize_default(text: Option<&str>, default: usize) -> (r: usize)
    ensures
        r == usize_or(match text {
            Some(t) => Some(t@),
            None => None,
        }, default),
{
    match text {
        Some(t) => {
            let chars = to_chars(t);
            let trimmed = trim_chars(chars.as_slice());
            match parse_usize_chars(trimmed.as_slice()) {
                Some(v) => v,
                None => default,
            }
        },
        None => default,
    }
}


/// The decimal form of `n` is one or more digit characters whose value is `n`.
pub proof fn lemma_decimal_value(n: nat)
    ensures
        decimal(n).len() >= 1,
        forall|i: int| 0 <= i < decimal(n).len() ==> '0' <= #[trigger] decimal(n)[i] <= '9',
        digits_value(decimal(n), 10) == Some(n),
    decreases n,
{
    let d = digit_char(n % 10);
    assert('0' <= d <= '9' && d as nat - '0' as nat == n % 10);
    assert(digit_value(d, 10) == Some(n % 10));
    if n < 10 {
        assert(decimal(n) == seq![digit_char(n)]);
        assert(decimal(n).drop_last() =~= Seq::<char>::empty());
        assert(decimal(n).last() == d);
        assert(digits_value(decimal(n).drop_last(), 10) == Some(0nat));
    } else {
        lemma_decimal_value(n / 10);
        let s = decimal(n);
        assert(s == decimal(n / 10).push(d));
        assert(s.drop_last() =~= decimal(n / 10));
        assert(s.last() == d);
        assert(n == (n / 10) * 10 + n % 10);
        assert forall|i: int| 0 <= i < s.len() implies '0' <= #[trigger] s[i] <= '9' by {
            if i < s.len() - 1 {
                assert(s[i] == decimal(n / 10)[i]);
            }
        }
    }
}

/// A counter written as the decimal form of `n` reads back as `n`, whatever
/// the default: what the page file holds after a write is what the next read
/// returns.
pub proof fn lemma_counter_round_trip(n: usize, default: usize)
    ensures
        usize_or(Some(decimal(n as nat)), default) == n,
{
    let s = decimal(n as nat);
    lemma_decimal_value(n as nat);
    assert(!is_space(s[0]));
    assert(trim_start(s) == s);
    assert(!is_space(s.last())) by {
        assert(s.last() == s[s.len() - 1]);
    }
    assert(trim_end(s) == s);
    assert(trim(s) == s);
    assert(s[0] != '+');
}

} // verus!
