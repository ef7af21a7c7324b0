//! Numbers as texts: a sign or none, then digits in base 10 or 16.

use vstd::prelude::*;

verus! {

/// The base in which a number is written.
#[derive(Debug, Clone, Copy, PartialEq, Eq, Structural)]
pub enum Radix {
    Decimal,
    Hex,
}

impl Radix {
    /// The number of digits of the base.
    pub open spec fn base(self) -> int {
        match self {
            Radix::Decimal => 10,
            Radix::Hex => 16,
        }
    }

    /// `v` with one more digit `d` behind it.
    pub open spec fn shift(self, v: int, d: int) -> int {
        match self {
            Radix::Decimal => 10 * v + d,
            Radix::Hex => 16 * v + d,
        }
    }
}

/// The value of a digit in the base `radix`: `0` to `9`, and in base 16 also
/// `a` to `f` in either case.
pub open spec fn digit(c: char, radix: Radix) -> Option<int> {
    if '0' <= c <= '9' {
        Some(c as int - '0' as int)
    } else if radix == Radix::Hex && 'a' <= c <= 'f' {
        Some(c as int - 'a' as int + 10)
    } else if radix == Radix::Hex && 'A' <= c <= 'F' {
        Some(c as int - 'A' as int + 10)
    } else {
        None
    }
}

/// Every character of `s` is a digit in the base `radix`.
pub open spec fn all_digits(s: Seq<char>, radix: Radix) -> bool {
    forall|i: int| 0 <= i < s.len() ==> digit(#[trigger] s[i], radix) is Some
}

/// The number that the digits `s` write in the base `radix`.
pub open spec fn digits_value(s: Seq<char>, radix: Radix) -> int
    decreases s.len(),
{
    if s.len() == 0 {
        0
    } else {
        radix.shift(digits_value(s.drop_last(), radix), digit(s.last(), radix).unwrap_or(0))
    }
}

/// The number that `s` writes in the base `radix`: a sign or none, then at
/// least one digit. There is none where `s` is not of that form, and where
/// the number is not from `min` to `max`.
pub open spec fn signed_number(s: Seq<char>, radix: Radix, min: int, max: int) -> Option<int> {
    let negative = s.len() > 0 && s[0] == '-';
    let digits = if s.len() > 0 && (s[0] == '-' || s[0] == '+') {
        s.skip(1)
    } else {
        s
    };
    let value = if negative {
        -digits_value(digits, radix)
    } else {
        digits_value(digits, radix)
    };
    if digits.len() > 0 && all_digits(digits, radix) && min <= value <= max {
        Some(value)
    } else {
        None
    }
}

/// A longer run of digits writes no smaller a number.
proof fn lemma_value_grows(s: Seq<char>, radix: Radix, n: int)
    requires
        0 <= n <= s.len(),
        all_digits(s, radix),
    ensures
        0 <= digits_value(s.take(n), radix) <= digits_value(s, radix),
    decreases s.len() - n,
{
    lemma_value_is_natural(s.take(n), radix);
    if n < s.len() {
        lemma_value_grows(s, radix, n + 1);
        assert(s.take(n + 1).drop_last() =~= s.take(n));
        assert(digit(s.take(n + 1).last(), radix) is Some);
    } else {
        assert(s.take(n) =~= s);
    }
}

/// Digits write no negative number.
proof fn lemma_value_is_natural(s: Seq<char>, radix: Radix)
    ensures
        0 <= digits_value(s, radix),
    decreases s.len(),
{
    if s.len() > 0 {
        lemma_value_is_natural(s.drop_last(), radix);
    }
}

/// The value of the digit `c`.
fn digit_value(c: char, radix: Radix) -> (r: Option<u8>)
    ensures
        match (r, digit(c, radix)) {
            (Some(a), Some(b)) => a == b && a < radix.base(),
            (None, None) => true,
            _ => false,
        },
{
    let code = c as u32;
    let hex = match radix {
        Radix::Hex => true,
        Radix::Decimal => false,
    };
    if 48 <= code && code <= 57 {
        Some((code - 48) as u8)
    } else if hex && 97 <= code && code <= 102 {
        Some((code - 97 + 10) as u8)
    } else if hex && 65 <= code && code <= 70 {
        Some((code - 65 + 10) as u8)
    } else {
        None
    }
}

/// The number that `text`, from `start` on, writes in digits: `None` where
/// there is no digit, where a character is no digit, and where the number is
/// greater than `limit`.
fn magnitude(text: &[char], start: usize, radix: Radix, limit: u64) -> (r: Option<u64>)
    requires
        start <= text@.len(),
        limit >= 15,
    ensures
        ({
            let digits = text@.skip(start as int);
            match r {
                Some(v) => digits.len() > 0 && all_digits(digits, radix) && v == digits_value(
                    digits,
                    radix,
                ) && v <= limit,
                None => digits.len() == 0 || !all_digits(digits, radix) || digits_value(
                    digits,
                    radix,
                ) > limit,
            }
        }),
{
    let ghost digits = text@.skip(start as int);
    if start == text.len() {
        return None;
    }
    let mut acc: u64 = 0;
    let mut i: usize = start;
    assert(digits.take(0) =~= Seq::<char>::empty());
    while i < text.len()
        invariant
            start <= i <= text@.len(),
            digits == text@.skip(start as int),
            all_digits(digits.take(i - start), radix),
            acc == digits_value(digits.take(i - start), radix),
            acc <= limit,
            limit >= 15,
        decreases text@.len() - i,
    {
        let ghost seen = digits.take(i - start);
        let ghost next = digits.take(i + 1 - start);
        proof {
            assert(next.drop_last() =~= seen);
            assert(next.last() == text@[i as int]);
        }
        let d = match digit_value(text[i], radix) {
            Some(d) => d as u64,
            None => {
                assert(digits[i - start] == text@[i as int]);
                return None;
            },
        };
        assert(all_digits(next, radix)) by {
            assert forall|k: int| 0 <= k < next.len() implies digit(#[trigger] next[k], radix)
                is Some by {
                if k < seen.len() {
                    assert(next[k] == seen[k]);
                }
            }
        }
        let fits = match radix {
            Radix::Decimal => acc <= (limit - d) / 10,
            Radix::Hex => acc <= (limit - d) / 16,
        };
        if !fits {
            proof {
                if all_digits(digits, radix) {
                    lemma_value_grows(digits, radix, i + 1 - start);
                }
            }
            return None;
        }
        acc = match radix {
            Radix::Decimal => 10 * acc + d,
            Radix::Hex => 16 * acc + d,
        };
        i = i + 1;
    }
    assert(digits.take(i - start) =~= digits);
    Some(acc)
}

/// The number that `text` writes in the base `radix`, in 64 bits with a
/// sign.
pub fn parse_i64(text: &[char], radix: Radix) -> (r: Option<i64>)
    ensures
        r matches Some(v) ==> signed_number(text@, radix, i64::MIN as int, i64::MAX as int)
            == Some(v as int),
        r is None ==> signed_number(text@, radix, i64::MIN as int, i64::MAX as int) is None,
{
    let negative = text.len() > 0 && text[0] == '-';
    let start: usize = if text.len() > 0 && (text[0] == '-' || text[0] == '+') {
        1
    } else {
        0
    };
    assert(text@.skip(0) =~= text@);
    if negative {
        match magnitude(text, start, radix, 0x8000_0000_0000_0000) {
            Some(v) => if v == 0x8000_0000_0000_0000 {
                Some(i64::MIN)
            } else {
                Some(-(v as i64))
            },
            None => None,
        }
    } else {
        match magnitude(text, start, radix, 0x7fff_ffff_ffff_ffff) {
            Some(v) => Some(v as i64),
            None => None,
        }
    }
}

/// The number that `text` writes in the base `radix`, in 32 bits with a
/// sign.
pub fn parse_i32(text: &[char], radix: Radix) -> (r: Option<i32>)
    ensures
        r matches Some(v) ==> signed_number(text@, radix, i32::MIN as int, i32::MAX as int)
            == Some(v as int),
        r is None ==> signed_number(text@, radix, i32::MIN as int, i32::MAX as int) is None,
{
    let negative = text.len() > 0 && text[0] == '-';
    let start: usize = if text.len() > 0 && (text[0] == '-' || text[0] == '+') {
        1
    } else {
        0
    };
    assert(text@.skip(0) =~= text@);
    if negative {
        match magnitude(text, start, radix, 0x8000_0000) {
            Some(v) => Some((-(v as i64)) as i32),
            None => None,
        }
    } else {
        match magnitude(text, start, radix, 0x7fff_ffff) {
            Some(v) => Some(v as i32),
            None => None,
        }
    }
}

/// The character of the decimal digit `d`.
pub open spec fn digit_char(d: int) -> char
    recommends
        0 <= d < 10,
{
    ('0' as int + d) as char
}

/// The digits that write `n` in base 10, without a zero at the front except
/// for zero itself.
pub open spec fn decimal_digits(n: int) -> Seq<char>
    decreases n,
{
    if n < 10 {
        seq![digit_char(n)]
    } else {
        decimal_digits(n / 10).push(digit_char(n % 10))
    }
}

/// The text that writes `v` in base 10: a minus sign where `v` is
/// negative, then the digits.
pub open spec fn decimal_text(v: int) -> Seq<char> {
    if v < 0 {
        seq!['-'] + decimal_digits(-v)
    } else {
        decimal_digits(v)
    }
}

/// The character of the decimal digit `d`.
fn digit_to_char(d: u8) -> (c: char)
    requires
        d < 10,
    ensures
        c == digit_char(d as int),
{
    match d {
        0 => '0',
        1 => '1',
        2 => '2',
        3 => '3',
        4 => '4',
        5 => '5',
        6 => '6',
        7 => '7',
        8 => '8',
        _ => '9',
    }
}

/// The digits of `n`: see `decimal_digits`.
fn digits_of(n: u64) -> (r: Vec<char>)
    ensures
        r@ == decimal_digits(n as int),
{
    // The digits from the last to the first.
    let mut back: Vec<char> = Vec::new();
    let mut left: u64 = n;
    while left >= 10
        invariant
            decimal_digits(n as int) == decimal_digits(left as int) + back@.reverse(),
        decreases left,
    {
        let ghost before = back@;
        let d = (left % 10) as u8;
        back.push(digit_to_char(d));
        proof {
            let head = decimal_digits(left as int / 10);
            assert(back@.reverse() =~= seq![digit_char(d as int)] + before.reverse());
            assert(decimal_digits(left as int) + before.reverse() =~= head + back@.reverse());
        }
        left = left / 10;
    }
    let ghost before = back@;
    back.push(digit_to_char(left as u8));
    proof {
        assert(back@.reverse() =~= seq![digit_char(left as int)] + before.reverse());
    }
    let mut r: Vec<char> = Vec::new();
    let mut i: usize = back.len();
    while i > 0
        invariant
            i <= back@.len(),
            r@ == back@.reverse().take(back@.len() - i),
        decreases i,
    {
        i = i - 1;
        r.push(back[i]);
        assert(r@ =~= back@.reverse().take(back@.len() - i));
    }
    assert(r@ =~= back@.reverse());
    r
}

/// The text that writes `v` in base 10: see `decimal_text`.
pub fn to_decimal(v: i64) -> (r: Vec<char>)
    ensures
        r@ == decimal_text(v as int),
{
    if v < 0 {
        let magnitude: u64 = if v == i64::MIN {
            0x8000_0000_0000_0000
        } else {
            (-v) as u64
        };
        let digits = digits_of(magnitude);
        let mut r: Vec<char> = Vec::new();
        r.push('-');
        let mut i: usize = 0;
        while i < digits.len()
            invariant
                i <= digits@.len(),
                r@ == seq!['-'] + digits@.take(i as int),
            decreases digits@.len() - i,
        {
            r.push(digits[i]);
            i = i + 1;
            assert(r@ =~= seq!['-'] + digits@.take(i as int));
        }
        assert(digits@.take(i as int) =~= digits@);
        r
    } else {
        digits_of(v as u64)
    }
}

} // verus!
