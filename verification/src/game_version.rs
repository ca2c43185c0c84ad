//! The game's interface number and its dotted form.
//!
//! A metadata file names the client build it was made for as a run of five
//! or six digits: one or two for the major version, two for the minor
//! version, two for the patch. `decode` separates the three with dots;
//! `encode` puts a dotted version back together.

use crate::number::{
    all_digits, decimal_digits, decimal_value, is_decimal_digit, is_digit,
    lemma_decimal_digits_len, lemma_decimal_digits_of_value, lemma_digit_char, natural_of,
    number_of, parse_digits, two_digits, value_within, without_leading_zeros,
};
use crate::text::{chars_of, extend_from, lemma_find_char_is, position, split, string_from};
use vstd::prelude::*;

verus! {

/// How many digits of an interface number of this length are the major
/// version.
pub open spec fn major_len(s: Seq<char>) -> int {
    if s.len() == 5 {
        1
    } else {
        2
    }
}

/// Whether `s` is read as an unsigned 8-bit integer: digits that denote at
/// most 255.
pub open spec fn is_u8_text(s: Seq<char>) -> bool {
    value_within(s, 255) is Some
}

/// Whether `s` is an interface number: a major version, then two digits of
/// minor version and two of patch, and nothing else.
pub open spec fn is_interface(s: Seq<char>) -> bool {
    let m = major_len(s);
    &&& s.len() == m + 4
    &&& is_u8_text(s.subrange(0, m))
    &&& is_u8_text(s.subrange(m, m + 2))
    &&& is_u8_text(s.subrange(m + 2, m + 4))
}

/// The dotted form of an interface number; any other text stands for
/// itself.
pub open spec fn decode(s: Seq<char>) -> Seq<char> {
    if is_interface(s) {
        let m = major_len(s);
        s.subrange(0, m) + seq!['.'] + s.subrange(m, m + 2) + seq!['.'] + s.subrange(m + 2, m + 4)
    } else {
        s
    }
}

/// Whether each of `segments` is an unsigned integer.
pub open spec fn all_numbers(segments: Seq<Seq<char>>) -> bool {
    forall|i: int| 0 <= i < segments.len() ==> natural_of(#[trigger] segments[i]) is Some
}

/// Whether a version can be encoded: every segment after the first dot is
/// an unsigned integer.
pub open spec fn encodable(v: Seq<char>) -> bool {
    all_numbers(split(v, '.').drop_first())
}

/// The numbers that `segments` denote, each written with at least two
/// digits, one after the other.
pub open spec fn padded(segments: Seq<Seq<char>>) -> Seq<char>
    decreases segments.len(),
{
    if segments.len() == 0 {
        Seq::<char>::empty()
    } else {
        two_digits(natural_of(segments[0]).unwrap()) + padded(segments.drop_first())
    }
}

/// The interface number of a dotted version: its first segment as it is,
/// then each later segment as a number of at least two digits.
pub open spec fn encode(v: Seq<char>) -> Seq<char> {
    let segments = split(v, '.');
    segments[0] + padded(segments.drop_first())
}

/// One or two digits denote less than a hundred.
pub proof fn lemma_short_number(s: Seq<char>)
    requires
        all_digits(s),
        s.len() <= 2,
    ensures
        0 <= decimal_value(s) <= 99,
{
    reveal_with_fuel(decimal_value, 3);
}

/// The interface numbers are the runs of five or six digits.
pub proof fn lemma_interface_is_digits(s: Seq<char>)
    ensures
        is_interface(s) <==> (s.len() == 5 || s.len() == 6) && all_digits(s),
{
    let m = major_len(s);
    let a = s.subrange(0, m);
    let b = s.subrange(m, m + 2);
    let c = s.subrange(m + 2, m + 4);
    if is_interface(s) {
        assert forall|i: int| 0 <= i < s.len() implies is_digit(#[trigger] s[i]) by {
            if i < m {
                assert(s[i] == a[i]);
            } else if i < m + 2 {
                assert(s[i] == b[i - m]);
            } else {
                assert(s[i] == c[i - m - 2]);
            }
        }
    }
    if (s.len() == 5 || s.len() == 6) && all_digits(s) {
        lemma_short_number(a);
        lemma_short_number(b);
        lemma_short_number(c);
    }
}

/// Decoding a run of six digits puts a dot after the second and after the
/// fourth digit.
pub proof fn lemma_decode_six_digits(s: Seq<char>)
    requires
        s.len() == 6,
        all_digits(s),
    ensures
        decode(s) == s.subrange(0, 2) + seq!['.'] + s.subrange(2, 4) + seq!['.'] + s.subrange(4, 6),
{
    lemma_interface_is_digits(s);
}

/// Decoding a run of five digits puts a dot after the first and after the
/// third digit.
pub proof fn lemma_decode_five_digits(s: Seq<char>)
    requires
        s.len() == 5,
        all_digits(s),
    ensures
        decode(s) == s.subrange(0, 1) + seq!['.'] + s.subrange(1, 3) + seq!['.'] + s.subrange(3, 5),
{
    lemma_interface_is_digits(s);
}

/// Decoding a text of another length, or one that holds anything but
/// digits, gives the text back.
pub proof fn lemma_decode_keeps_other_text(s: Seq<char>)
    requires
        !(s.len() == 5 || s.len() == 6) || !all_digits(s),
    ensures
        decode(s) == s,
{
    lemma_interface_is_digits(s);
}

/// Two digits denote a number that is written, with at least two digits, as
/// those two digits.
pub proof fn lemma_two_digits_of_pair(s: Seq<char>)
    requires
        s.len() == 2,
        all_digits(s),
    ensures
        natural_of(s) == Some(decimal_value(s)),
        two_digits(decimal_value(s)) == s,
{
    let a = s[0];
    let b = s[1];
    lemma_digit_char(a);
    lemma_digit_char(b);
    reveal_with_fuel(decimal_value, 3);
    reveal_with_fuel(decimal_digits, 2);
}

/// Encoding what `decode` made of an interface number gives the interface
/// number back, be it of five digits or of six.
pub proof fn lemma_encode_undoes_decode(s: Seq<char>)
    requires
        is_interface(s),
    ensures
        encodable(decode(s)),
        encode(decode(s)) == s,
{
    lemma_interface_is_digits(s);
    let m = major_len(s);
    let a = s.subrange(0, m);
    let b = s.subrange(m, m + 2);
    let c = s.subrange(m + 2, m + 4);
    let d = decode(s);
    let d2 = b + seq!['.'] + c;
    // The first dot of `d` is the one that follows the major version.
    lemma_find_char_is(d, '.', m);
    assert(d.take(m) == a);
    assert(d.skip(m + 1) == d2);
    // The first dot of what follows is the one after the minor version.
    lemma_find_char_is(d2, '.', 2);
    assert(d2.take(2) == b);
    assert(d2.skip(3) == c);
    // The patch holds no dot.
    lemma_find_char_is(c, '.', 2);
    assert(split(c, '.') == seq![c]);
    assert(split(d2, '.') == seq![b] + seq![c]);
    lemma_two_digits_of_pair(b);
    lemma_two_digits_of_pair(c);
    reveal_with_fuel(padded, 3);
}

/// Decoding, encoding and decoding again changes nothing: a version that
/// `decode` made of an interface number is the decoding of its own encoding.
pub proof fn lemma_decode_undoes_encode(s: Seq<char>)
    requires
        is_interface(s),
    ensures
        decode(encode(decode(s))) == decode(s),
{
    lemma_encode_undoes_decode(s);
}

/// A game version: the dotted form of an interface number, or the text that
/// stood in place of one.
#[derive(Clone, Debug, PartialEq)]
pub struct GameVersion {
    value: String,
}

impl View for GameVersion {
    type V = Seq<char>;

    closed spec fn view(&self) -> Seq<char> {
        self.value@
    }
}

impl Default for GameVersion {
    fn default() -> (r: GameVersion)
        ensures
            r@ == Seq::<char>::empty(),
    {
        GameVersion { value: String::new() }
    }
}

/// Appends to `out` the number that `v[from..to]` denotes, with at least two
/// digits.
fn push_two_digits(out: &mut Vec<char>, v: &Vec<char>, from: usize, to: usize)
    requires
        from <= to <= v.len(),
        natural_of(v@.subrange(from as int, to as int)) is Some,
    ensures
        final(out)@ == old(out)@ + two_digits(
            natural_of(v@.subrange(from as int, to as int)).unwrap(),
        ),
{
    let ghost part = v@.subrange(from as int, to as int);
    let start = if v[from] == '+' {
        from + 1
    } else {
        from
    };
    let ghost digits = v@.subrange(start as int, to as int);
    proof {
        if start > from {
            assert(part.drop_first() == digits);
        }
        lemma_decimal_digits_of_value(digits);
        lemma_decimal_digits_len(decimal_value(digits));
    }
    let mut j: usize = start;
    while j < to && v[j] == '0'
        invariant
            start <= j <= to <= v.len(),
            without_leading_zeros(digits) == without_leading_zeros(
                v@.subrange(j as int, to as int),
            ),
            digits == v@.subrange(start as int, to as int),
        decreases to - j,
    {
        assert(v@.subrange(j as int, to as int).drop_first() == v@.subrange(j + 1, to as int));
        j += 1;
    }
    if to - j == 0 {
        out.push('0');
        out.push('0');
    } else if to - j == 1 {
        out.push('0');
        out.push(v[j]);
    } else {
        extend_from(out, v, j, to);
    }
}

impl GameVersion {
    /// Decodes an interface number. A text that is no interface number is
    /// kept as it is.
    pub fn from_interface(interface: &str) -> (r: GameVersion)
        ensures
            r@ == decode(interface@),
    {
        let v = chars_of(interface);
        GameVersion::from_chars(&v)
    }

    /// Decodes an interface number given as characters.
    pub fn from_chars(v: &Vec<char>) -> (r: GameVersion)
        ensures
            r@ == decode(v@),
    {
        let n = v.len();
        if n != 5 && n != 6 {
            return GameVersion { value: string_from(v) };
        }
        let m: usize = if n == 5 {
            1
        } else {
            2
        };
        let major = parse_digits(v, 0, m, 255);
        let minor = parse_digits(v, m, m + 2, 255);
        let patch = parse_digits(v, m + 2, m + 4, 255);
        if major.is_some() && minor.is_some() && patch.is_some() {
            let mut out: Vec<char> = Vec::new();
            extend_from(&mut out, v, 0, m);
            out.push('.');
            extend_from(&mut out, v, m, m + 2);
            out.push('.');
            extend_from(&mut out, v, m + 2, m + 4);
            GameVersion { value: string_from(&out) }
        } else {
            GameVersion { value: string_from(v) }
        }
    }

    /// Encodes the version as an interface number, if it can be encoded.
    pub fn try_to_interface(&self) -> (r: Option<String>)
        ensures
            match r {
                Some(s) => encodable(self@) && s@ == encode(self@),
                None => !encodable(self@),
            },
    {
        let v = chars_of(self.value.as_str());
        let n = v.len();
        let first = position(&v, 0, n, '.');
        let mut out: Vec<char> = Vec::new();
        extend_from(&mut out, &v, 0, first);
        let mut pos: usize = first;
        proof {
            let segments = split(v@, '.');
            assert(v@.subrange(0, n as int) == v@);
            if first < n {
                assert(segments.drop_first() == split(v@.skip(first + 1), '.'));
            }
        }
        while pos < n
            invariant
                first <= pos <= n == v.len(),
                v@ == self@,
                pos < n ==> encodable(v@) == all_numbers(split(v@.skip(pos + 1), '.')),
                pos < n ==> encode(v@) == out@ + padded(split(v@.skip(pos + 1), '.')),
                pos == n ==> encodable(v@),
                pos == n ==> encode(v@) == out@,
            decreases n - pos,
        {
            let ghost rest = v@.skip(pos + 1);
            let ghost segments = split(rest, '.');
            let from = pos + 1;
            let to = position(&v, from, n, '.');
            let ghost segment = v@.subrange(from as int, to as int);
            proof {
                assert(segments[0] == segment);
                if to < n {
                    assert(rest.skip(to - from + 1) == v@.skip(to + 1));
                    assert(segments.drop_first() == split(v@.skip(to + 1), '.'));
                }
            }
            if !is_unsigned(&v, from, to) {
                return None;
            }
            push_two_digits(&mut out, &v, from, to);
            proof {
                if to == n {
                    // After the last segment nothing is left to write.
                    assert(padded(segments.drop_first()) == Seq::<char>::empty());
                }
            }
            pos = to;
        }
        Some(string_from(&out))
    }

    /// Encodes the version as an interface number.
    pub fn to_interface(&self) -> (r: String)
        requires
            encodable(self@),
        ensures
            r@ == encode(self@),
    {
        self.try_to_interface().unwrap()
    }

    /// The version as text.
    pub fn as_str(&self) -> (s: &str)
        ensures
            s@ == self@,
    {
        self.value.as_str()
    }
}

/// Whether `v[from..to]` is an unsigned integer.
fn is_unsigned(v: &Vec<char>, from: usize, to: usize) -> (b: bool)
    requires
        from <= to <= v.len(),
    ensures
        b == (natural_of(v@.subrange(from as int, to as int)) is Some),
{
    let ghost part = v@.subrange(from as int, to as int);
    if from == to {
        return false;
    }
    let start = if v[from] == '+' {
        from + 1
    } else {
        from
    };
    let ghost digits = v@.subrange(start as int, to as int);
    proof {
        if start > from {
            assert(part.drop_first() == digits);
        }
    }
    if start == to {
        return false;
    }
    let mut i: usize = start;
    while i < to
        invariant
            from <= start <= i <= to <= v.len(),
            digits == v@.subrange(start as int, to as int),
            natural_of(v@.subrange(from as int, to as int)) == number_of(digits),
            forall|j: int| 0 <= j < i - start ==> is_digit(#[trigger] digits[j]),
        decreases to - i,
    {
        if !is_decimal_digit(v[i]) {
            proof {
                if all_digits(digits) {
                    assert(is_digit(digits[i - start]));
                }
            }
            return false;
        }
        i += 1;
    }
    true
}

} // verus!
