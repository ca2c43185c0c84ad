//! Decimal numbers as text: what a run of digits denotes, and how a number
//! is written.

use vstd::prelude::*;

verus! {

/// Whether `c` is one of `0` to `9`.
pub open spec fn is_digit(c: char) -> bool {
    0x30 <= c as u32 <= 0x39
}

/// The number that the digit `c` stands for.
pub open spec fn digit_value(c: char) -> int {
    c as u32 - 0x30
}

/// Whether `s` holds digits only.
pub open spec fn all_digits(s: Seq<char>) -> bool {
    forall|i: int| 0 <= i < s.len() ==> is_digit(#[trigger] s[i])
}

/// The number that the digits `s` denote in base ten; 0 for no digits.
pub open spec fn decimal_value(s: Seq<char>) -> int
    decreases s.len(),
{
    if s.len() == 0 {
        0
    } else {
        10 * decimal_value(s.drop_last()) + digit_value(s.last())
    }
}

/// The number that `s` denotes when it is a run of at least one digit.
pub open spec fn number_of(s: Seq<char>) -> Option<int> {
    if s.len() > 0 && all_digits(s) {
        Some(decimal_value(s))
    } else {
        None
    }
}

/// The number that `s` denotes as an unsigned integer: digits, which a `+`
/// may precede.
pub open spec fn natural_of(s: Seq<char>) -> Option<int> {
    if s.len() > 0 && s[0] == '+' {
        number_of(s.drop_first())
    } else {
        number_of(s)
    }
}

/// The number that `s` denotes as a signed integer: digits, which a `+` or a
/// `-` may precede.
pub open spec fn integer_of(s: Seq<char>) -> Option<int> {
    if s.len() > 0 && s[0] == '-' {
        match number_of(s.drop_first()) {
            Some(n) => Some(-n),
            None => None,
        }
    } else {
        natural_of(s)
    }
}

/// The `i32` that `s` denotes, if it denotes an integer in the range of `i32`.
pub open spec fn i32_of(s: Seq<char>) -> Option<i32> {
    match integer_of(s) {
        Some(n) => if i32::MIN <= n <= i32::MAX {
            Some(n as i32)
        } else {
            None
        },
        None => None,
    }
}

/// The `usize` that `s` denotes, if it denotes an unsigned integer in the
/// range of `usize`.
pub open spec fn usize_of(s: Seq<char>) -> Option<usize> {
    match natural_of(s) {
        Some(n) => if n <= usize::MAX {
            Some(n as usize)
        } else {
            None
        },
        None => None,
    }
}

/// The number that the digits `s` denote, if there is a digit and the number
/// is at most `limit`.
pub open spec fn value_within(s: Seq<char>, limit: int) -> Option<int> {
    match number_of(s) {
        Some(n) => if n <= limit {
            Some(n)
        } else {
            None
        },
        None => None,
    }
}

/// The digit that stands for `d`, for `d` from 0 to 9.
pub open spec fn digit_char(d: int) -> char {
    if d == 0 {
        '0'
    } else if d == 1 {
        '1'
    } else if d == 2 {
        '2'
    } else if d == 3 {
        '3'
    } else if d == 4 {
        '4'
    } else if d == 5 {
        '5'
    } else if d == 6 {
        '6'
    } else if d == 7 {
        '7'
    } else if d == 8 {
        '8'
    } else {
        '9'
    }
}

/// `n`, which is not negative, written in base ten without leading zeros.
pub open spec fn decimal_digits(n: int) -> Seq<char>
    decreases n,
{
    if n < 10 {
        seq![digit_char(n)]
    } else {
        decimal_digits(n / 10).push(digit_char(n % 10))
    }
}

/// `n`, which is not negative, written in base ten with at least two digits:
/// a number below ten gets a zero in front.
pub open spec fn two_digits(n: int) -> Seq<char> {
    if n < 10 {
        seq!['0'] + decimal_digits(n)
    } else {
        decimal_digits(n)
    }
}

/// `s` without the zeros that begin it.
pub open spec fn without_leading_zeros(s: Seq<char>) -> Seq<char>
    decreases s.len(),
{
    if s.len() > 0 && s[0] == '0' {
        without_leading_zeros(s.drop_first())
    } else {
        s
    }
}

/// A digit is written as itself.
pub proof fn lemma_digit_char(c: char)
    requires
        is_digit(c),
    ensures
        digit_char(digit_value(c)) == c,
        0 <= digit_value(c) <= 9,
        digit_value(c) == 0 <==> c == '0',
{
}

/// What one more digit at the end does to a text without its leading zeros.
pub proof fn lemma_without_leading_zeros_push(s: Seq<char>, c: char)
    ensures
        without_leading_zeros(s.push(c)) == if without_leading_zeros(s).len() > 0 {
            without_leading_zeros(s).push(c)
        } else if c == '0' {
            Seq::<char>::empty()
        } else {
            seq![c]
        },
    decreases s.len(),
{
    let e = Seq::<char>::empty();
    if s.len() > 0 && s[0] == '0' {
        assert(s.push(c).drop_first() == s.drop_first().push(c));
        lemma_without_leading_zeros_push(s.drop_first(), c);
    } else if s.len() == 0 {
        assert(s.push(c).drop_first() == e);
        assert(without_leading_zeros(e) == e);
    }
}

/// Writing the number that digits denote gives the digits back without
/// their leading zeros, except that zero is written with one digit.
pub proof fn lemma_decimal_digits_of_value(s: Seq<char>)
    requires
        all_digits(s),
    ensures
        0 <= decimal_value(s),
        decimal_value(s) == 0 <==> without_leading_zeros(s).len() == 0,
        decimal_value(s) > 0 ==> decimal_digits(decimal_value(s)) == without_leading_zeros(s),
    decreases s.len(),
{
    if s.len() > 0 {
        let t = s.drop_last();
        let c = s.last();
        lemma_digit_char(c);
        lemma_decimal_digits_of_value(t);
        assert(t.push(c) == s);
        lemma_without_leading_zeros_push(t, c);
    }
}

/// A number below ten is written with one digit, any other with more.
pub proof fn lemma_decimal_digits_len(n: int)
    requires
        0 <= n,
    ensures
        decimal_digits(n).len() >= 1,
        n < 10 <==> decimal_digits(n).len() == 1,
    decreases n,
{
    if n >= 10 {
        lemma_decimal_digits_len(n / 10);
    }
}

/// Digits denote a number that is not negative, and no prefix of them
/// denotes a greater one.
pub proof fn lemma_decimal_value_grows(s: Seq<char>, k: int)
    requires
        all_digits(s),
        0 <= k <= s.len(),
    ensures
        0 <= decimal_value(s.take(k)) <= decimal_value(s),
    decreases s.len() - k,
{
    if k == s.len() {
        assert(s.take(k) == s);
        lemma_decimal_value_not_negative(s);
    } else {
        lemma_decimal_value_grows(s, k + 1);
        let t = s.take(k + 1);
        assert(t.drop_last() == s.take(k));
        lemma_decimal_value_not_negative(s.take(k));
    }
}

/// Digits denote a number that is not negative.
pub proof fn lemma_decimal_value_not_negative(s: Seq<char>)
    requires
        all_digits(s),
    ensures
        0 <= decimal_value(s),
    decreases s.len(),
{
    if s.len() > 0 {
        lemma_decimal_value_not_negative(s.drop_last());
    }
}

/// Whether `c` is a digit.
pub fn is_decimal_digit(c: char) -> (b: bool)
    ensures
        b == is_digit(c),
{
    let u: u32 = c as u32;
    0x30 <= u && u <= 0x39
}

/// Reads `v[from..to]` as a run of digits that denotes at most `limit`.
pub fn parse_digits(v: &Vec<char>, from: usize, to: usize, limit: u64) -> (r: Option<u64>)
    requires
        from <= to <= v.len(),
    ensures
        match r {
            Some(n) => value_within(v@.subrange(from as int, to as int), limit as int) == Some(
                n as int,
            ),
            None => value_within(v@.subrange(from as int, to as int), limit as int) is None,
        },
{
    let ghost part = v@.subrange(from as int, to as int);
    if from == to {
        return None;
    }
    let mut acc: u128 = 0;
    let mut i: usize = from;
    while i < to
        invariant
            from <= i <= to <= v.len(),
            part == v@.subrange(from as int, to as int),
            all_digits(part.take(i - from)),
            acc == decimal_value(part.take(i - from)),
            acc <= limit,
        decreases to - i,
    {
        let c = v[i];
        let ghost next = part.take(i - from + 1);
        proof {
            assert(next.drop_last() == part.take(i - from));
        }
        if !is_decimal_digit(c) {
            proof {
                if all_digits(part) {
                    assert(is_digit(part[i - from]));
                }
            }
            return None;
        }
        acc = acc * 10 + (c as u32 - 0x30) as u128;
        if acc > limit as u128 {
            proof {
                if all_digits(part) {
                    lemma_decimal_value_grows(part, i - from + 1);
                }
            }
            return None;
        }
        i += 1;
    }
    assert(part.take(part.len() as int) == part);
    Some(acc as u64)
}

/// Reads `v[from..to]` as an `i32`.
pub fn parse_i32(v: &Vec<char>, from: usize, to: usize) -> (r: Option<i32>)
    requires
        from <= to <= v.len(),
    ensures
        r == i32_of(v@.subrange(from as int, to as int)),
{
    let ghost part = v@.subrange(from as int, to as int);
    if from == to {
        return None;
    }
    let negative = v[from] == '-';
    let start = if negative || v[from] == '+' {
        from + 1
    } else {
        from
    };
    proof {
        if start > from {
            assert(part.drop_first() == v@.subrange(start as int, to as int));
        }
    }
    match parse_digits(v, start, to, 2147483648) {
        Some(m) => {
            if negative {
                Some((0 - m as i64) as i32)
            } else if m <= 2147483647 {
                Some(m as i32)
            } else {
                None
            }
        },
        None => None,
    }
}

/// Reads `v[from..to]` as a `usize`.
pub fn parse_usize(v: &Vec<char>, from: usize, to: usize) -> (r: Option<usize>)
    requires
        from <= to <= v.len(),
    ensures
        r == usize_of(v@.subrange(from as int, to as int)),
{
    let ghost part = v@.subrange(from as int, to as int);
    if from == to {
        return None;
    }
    let start = if v[from] == '+' {
        from + 1
    } else {
        from
    };
    proof {
        if start > from {
            assert(part.drop_first() == v@.subrange(start as int, to as int));
        }
    }
    match parse_digits(v, start, to, usize::MAX as u64) {
        Some(m) => Some(m as usize),
        None => None,
    }
}

/// The digit that stands for `d`.
pub fn digit_of(d: usize) -> (c: char)
    requires
        d <= 9,
    ensures
        c == digit_char(d as int),
{
    if d == 0 {
        '0'
    } else if d == 1 {
        '1'
    } else if d == 2 {
        '2'
    } else if d == 3 {
        '3'
    } else if d == 4 {
        '4'
    } else if d == 5 {
        '5'
    } else if d == 6 {
        '6'
    } else if d == 7 {
        '7'
    } else if d == 8 {
        '8'
    } else {
        '9'
    }
}

/// Appends `n`, written in base ten, to `out`.
pub fn push_decimal(out: &mut Vec<char>, n: usize)
    ensures
        final(out)@ == old(out)@ + decimal_digits(n as int),
    decreases n,
{
    if n >= 10 {
        push_decimal(out, n / 10);
    }
    out.push(digit_of(n % 10));
}

/// `n` written in base ten.
pub fn decimal_chars(n: usize) -> (r: Vec<char>)
    ensures
        r@ == decimal_digits(n as int),
{
    let mut out: Vec<char> = Vec::new();
    push_decimal(&mut out, n);
    out
}

} // verus!
