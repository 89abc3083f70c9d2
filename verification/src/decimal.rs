//! Decimal text: amounts and balances written with a point and up to four
//! digits behind it.

use vstd::prelude::*;
use vstd::slice::slice_subrange;
use vstd::string::*;

verus! {

/// Whether `c` is one of the ten decimal digits.
pub open spec fn is_digit(c: char) -> bool {
    48 <= c as u32 <= 57
}

/// The number that the digit `c` stands for.
pub open spec fn digit_value(c: char) -> int {
    c as u32 - 48
}

/// Whether `s` holds digits only.
pub open spec fn all_digits(s: Seq<char>) -> bool {
    forall|i: int| 0 <= i < s.len() ==> is_digit(#[trigger] s[i])
}

/// The number that the digits of `s` write.
pub open spec fn digits_value(s: Seq<char>) -> int
    decreases s.len(),
{
    if s.len() == 0 {
        0
    } else {
        10 * digits_value(s.drop_last()) + digit_value(s.last())
    }
}

/// The number of the digit at place `i` of `s`, and 0 past its end.
pub open spec fn digit_at(s: Seq<char>, i: int) -> int {
    if 0 <= i < s.len() {
        digit_value(s[i])
    } else {
        0
    }
}

/// The ten-thousandths that the digits `s` write behind a point: the
/// first four digits count, and the fifth rounds them up where it is 5 or
/// more.
pub open spec fn fraction_value(s: Seq<char>) -> int {
    digit_at(s, 0) * 1000 + digit_at(s, 1) * 100 + digit_at(s, 2) * 10 + digit_at(s, 3) + if digit_at(
        s,
        4,
    ) >= 5 {
        1int
    } else {
        0int
    }
}

/// Whether the first `k` characters of `s` are its leading digits: all of
/// them are digits and the next character, if there is one, is none.
pub open spec fn is_whole_len(s: Seq<char>, k: int) -> bool {
    &&& 0 <= k <= s.len()
    &&& forall|i: int| 0 <= i < k ==> is_digit(#[trigger] s[i])
    &&& k < s.len() ==> !is_digit(s[k])
}

/// The number of leading digits of `s`.
pub open spec fn whole_len(s: Seq<char>) -> int {
    choose|k: int| is_whole_len(s, k)
}

/// The ten-thousandths that `body` writes without a sign: one or more
/// digits, which may be followed by a point and one or more digits.
/// Digits past the fourth behind the point round half away from zero.
pub open spec fn unsigned_value(body: Seq<char>) -> Option<int> {
    let k = whole_len(body);
    if k == 0 {
        None
    } else if k == body.len() {
        Some(digits_value(body.take(k)) * 10000)
    } else if body[k] == '.' && k + 1 < body.len() && all_digits(body.skip(k + 1)) {
        Some(digits_value(body.take(k)) * 10000 + fraction_value(body.skip(k + 1)))
    } else {
        None
    }
}

/// The ten-thousandths that `text` writes: an optional sign, `-` or `+`,
/// and then an unsigned decimal number.
pub open spec fn decimal_value(text: Seq<char>) -> Option<int> {
    if text.len() > 0 && text[0] == '-' {
        match unsigned_value(text.skip(1)) {
            Some(v) => Some(-v),
            None => None,
        }
    } else if text.len() > 0 && text[0] == '+' {
        unsigned_value(text.skip(1))
    } else {
        unsigned_value(text)
    }
}

/// A sequence has one number of leading digits.
pub proof fn lemma_whole_len(s: Seq<char>, k: int)
    requires
        is_whole_len(s, k),
    ensures
        whole_len(s) == k,
{
    let chosen = whole_len(s);
    assert(is_whole_len(s, chosen));
    if chosen < k {
        assert(is_digit(s[chosen]));
    } else if k < chosen {
        assert(is_digit(s[k]));
    }
}

/// The characters of `text`.
pub fn chars_of(text: &str) -> (chars: Vec<char>)
    ensures
        chars@ == text@,
{
    broadcast use group_string_axioms;
    let mut chars: Vec<char> = Vec::new();
    for c in it: text.chars()
        invariant
            it.seq() == text@,
            chars@ == it.seq().take(it.index()),
    {
        chars.push(c);
        assert(it.seq().take(it.index() + 1) =~= it.seq().take(it.index()).push(c));
    }
    assert(text@.take(text@.len() as int) =~= text@);
    chars
}

/// The number that `c` stands for, where it is a digit.
pub fn digit_of(c: char) -> (digit: Option<u8>)
    ensures
        match digit {
            Some(d) => is_digit(c) && d == digit_value(c),
            None => !is_digit(c),
        },
{
    let code: u32 = c as u32;
    if 48 <= code && code <= 57 {
        Some((code - 48) as u8)
    } else {
        None
    }
}

/// The ten-thousandths that `body` writes without a sign, where it
/// writes a number of at most 2^63 of them: the magnitude of the smallest
/// 64-bit number.
pub fn parse_unsigned(body: &[char]) -> (magnitude: Option<u64>)
    ensures
        magnitude == match unsigned_value(body@) {
            Some(v) => if v <= 0x8000_0000_0000_0000 {
                Some(v as u64)
            } else {
                None
            },
            None => None,
        },
        magnitude matches Some(m) ==> m <= 0x8000_0000_0000_0000,
        unsigned_value(body@) matches Some(v) ==> 0 <= v,
{
    let len = body.len();
    // The whole part, held at the cap once it has passed it.
    let mut whole: u128 = 0;
    let mut k: usize = 0;
    let mut past_digits = false;
    while k < len && !past_digits
        invariant
            len == body@.len(),
            k <= len,
            forall|i: int| 0 <= i < k ==> is_digit(#[trigger] body@[i]),
            past_digits ==> k < len && !is_digit(body@[k as int]),
            0 <= digits_value(body@.take(k as int)),
            whole == if digits_value(body@.take(k as int)) < 10_000_000_000_000_000 {
                digits_value(body@.take(k as int))
            } else {
                10_000_000_000_000_000
            },
        decreases len - k + if past_digits { 0int } else { 1int },
    {
        match digit_of(body[k]) {
            Some(d) => {
                assert(body@.take(k + 1).drop_last() =~= body@.take(k as int));
                whole = whole * 10 + d as u128;
                if whole > 10_000_000_000_000_000 {
                    whole = 10_000_000_000_000_000;
                }
                k = k + 1;
            },
            None => {
                past_digits = true;
            },
        }
    }
    proof {
        lemma_whole_len(body@, k as int);
    }
    if k == 0 || whole >= 10_000_000_000_000_000 {
        return None;
    }
    let mut fraction: u128 = 0;
    if k < len {
        if body[k] != '.' || k + 1 >= len {
            return None;
        }
        let ghost digits = body@.skip(k + 1);
        let mut i: usize = k + 1;
        while i < len
            invariant
                len == body@.len(),
                0 < k,
                k + 1 <= i <= len,
                whole_len(body@) == k,
                digits == body@.skip(k + 1),
                all_digits(digits.take(i - (k + 1))),
                fraction == fraction_value(digits.take(i - (k + 1))),
                fraction <= 10000,
            decreases len - i,
        {
            let ghost place = i - (k + 1);
            match digit_of(body[i]) {
                Some(d) => {
                    assert(digits[place] == body@[i as int]);
                    let place: usize = i - (k + 1);
                    if place == 0 {
                        fraction = fraction + d as u128 * 1000;
                    } else if place == 1 {
                        fraction = fraction + d as u128 * 100;
                    } else if place == 2 {
                        fraction = fraction + d as u128 * 10;
                    } else if place == 3 {
                        fraction = fraction + d as u128;
                    } else if place == 4 && d >= 5 {
                        fraction = fraction + 1;
                    }
                },
                None => {
                    assert(digits[place] == body@[i as int]);
                    assert(!all_digits(digits));
                    return None;
                },
            }
            i = i + 1;
        }
        assert(digits.take(digits.len() as int) =~= digits);
    }
    let magnitude: u128 = whole * 10000 + fraction;
    if magnitude <= 0x8000_0000_0000_0000 {
        Some(magnitude as u64)
    } else {
        None
    }
}

/// The number of ten-thousandths that `text` writes in decimal, where it
/// writes one that a 64-bit signed number holds.
pub fn parse_decimal(text: &str) -> (value: Option<i64>)
    ensures
        value == match decimal_value(text@) {
            Some(v) => if i64::MIN <= v <= i64::MAX {
                Some(v as i64)
            } else {
                None
            },
            None => None,
        },
{
    let chars = chars_of(text);
    let len = chars.len();
    assert(len > 0 ==> chars@.subrange(1, len as int) =~= text@.skip(1));
    if len > 0 && chars[0] == '-' {
        match parse_unsigned(slice_subrange(chars.as_slice(), 1, len)) {
            Some(magnitude) => {
                if magnitude == 0x8000_0000_0000_0000 {
                    Some(i64::MIN)
                } else {
                    Some(-(magnitude as i64))
                }
            },
            None => None,
        }
    } else if len > 0 && chars[0] == '+' {
        match parse_unsigned(slice_subrange(chars.as_slice(), 1, len)) {
            Some(magnitude) => {
                if magnitude <= 0x7fff_ffff_ffff_ffff {
                    Some(magnitude as i64)
                } else {
                    None
                }
            },
            None => None,
        }
    } else {
        match parse_unsigned(chars.as_slice()) {
            Some(magnitude) => {
                if magnitude <= 0x7fff_ffff_ffff_ffff {
                    Some(magnitude as i64)
                } else {
                    None
                }
            },
            None => None,
        }
    }
}

/// The number that `text` writes with digits alone, where it holds one
/// digit or more and nothing else.
pub open spec fn natural_value(text: Seq<char>) -> Option<int> {
    if text.len() > 0 && all_digits(text) {
        Some(digits_value(text))
    } else {
        None
    }
}

/// The number that `text` writes with digits alone, where that number is
/// at most `limit`.
pub fn parse_natural(text: &str, limit: u64) -> (value: Option<u64>)
    ensures
        value == match natural_value(text@) {
            Some(v) => if v <= limit {
                Some(v as u64)
            } else {
                None
            },
            None => None,
        },
        natural_value(text@) matches Some(v) ==> 0 <= v,
{
    let chars = chars_of(text);
    let len = chars.len();
    if len == 0 {
        return None;
    }
    // The number, held just past the limit once it has passed it.
    let mut number: u128 = 0;
    let mut i: usize = 0;
    while i < len
        invariant
            len == chars@.len(),
            chars@ == text@,
            0 < len,
            i <= len,
            all_digits(chars@.take(i as int)),
            0 <= digits_value(chars@.take(i as int)),
            number == if digits_value(chars@.take(i as int)) <= limit {
                digits_value(chars@.take(i as int))
            } else {
                limit + 1
            },
        decreases len - i,
    {
        match digit_of(chars[i]) {
            Some(d) => {
                assert(chars@.take(i + 1).drop_last() =~= chars@.take(i as int));
                number = number * 10 + d as u128;
                if number > limit as u128 {
                    number = limit as u128 + 1;
                }
            },
            None => {
                assert(!all_digits(text@));
                return None;
            },
        }
        i = i + 1;
    }
    assert(chars@.take(len as int) =~= chars@);
    if number <= limit as u128 {
        Some(number as u64)
    } else {
        None
    }
}

/// The character that writes the digit `d`.
pub open spec fn digit_char(d: int) -> char {
    ((48 + d) as u8) as char
}

/// The digits that write `n`, without leading zeros.
pub open spec fn digits_text(n: nat) -> Seq<char>
    decreases n,
{
    if n < 10 {
        seq![digit_char(n as int)]
    } else {
        digits_text(n / 10).push(digit_char((n % 10) as int))
    }
}

/// The digits that write `f` ten-thousandths behind a point, without
/// trailing zeros.
pub open spec fn fraction_text(f: nat) -> Seq<char> {
    let fourth = (f % 10) as int;
    let third = (f / 10 % 10) as int;
    let second = (f / 10 / 10 % 10) as int;
    let first = (f / 10 / 10 / 10) as int;
    if fourth != 0 {
        seq![digit_char(first), digit_char(second), digit_char(third), digit_char(fourth)]
    } else if third != 0 {
        seq![digit_char(first), digit_char(second), digit_char(third)]
    } else if second != 0 {
        seq![digit_char(first), digit_char(second)]
    } else {
        seq![digit_char(first)]
    }
}

/// The decimal text of `m` ten-thousandths: the whole part, and behind a
/// point the fraction where there is one.
pub open spec fn unsigned_text(m: nat) -> Seq<char> {
    if m % 10000 == 0 {
        digits_text(m / 10000)
    } else {
        digits_text(m / 10000) + seq!['.'] + fraction_text(m % 10000)
    }
}

/// The decimal text of `v` ten-thousandths, with `-` in front where it is
/// negative.
pub open spec fn decimal_text(v: int) -> Seq<char> {
    if v < 0 {
        seq!['-'] + unsigned_text((-v) as nat)
    } else {
        unsigned_text(v as nat)
    }
}

/// The digits that write a number are digits, and write that number.
pub proof fn lemma_digits_text(n: nat)
    ensures
        digits_text(n).len() > 0,
        all_digits(digits_text(n)),
        digits_value(digits_text(n)) == n,
    decreases n,
{
    if n < 10 {
        assert(digits_text(n).drop_last() =~= Seq::<char>::empty());
        assert(digits_value(digits_text(n).drop_last()) == 0);
    } else {
        lemma_digits_text(n / 10);
        assert(digits_text(n).drop_last() =~= digits_text(n / 10));
    }
}

/// The character of a digit is a digit, and stands for it.
pub proof fn lemma_digit_char(d: int)
    requires
        0 <= d < 10,
    ensures
        is_digit(digit_char(d)),
        digit_value(digit_char(d)) == d,
{
}

/// The four digits of a fraction make it up.
pub proof fn lemma_fraction_digits(f: nat)
    requires
        f < 10000,
    ensures
        0 <= f / 10 / 10 / 10 < 10,
        0 <= f / 10 / 10 % 10 < 10,
        0 <= f / 10 % 10 < 10,
        0 <= f % 10 < 10,
        f == (f / 10 / 10 / 10) * 1000 + (f / 10 / 10 % 10) * 100 + (f / 10 % 10) * 10 + f % 10,
{
    let tens = f / 10;
    let hundreds = tens / 10;
    let thousands = hundreds / 10;
    assert(f == tens * 10 + f % 10);
    assert(tens == hundreds * 10 + tens % 10);
    assert(hundreds == thousands * 10 + hundreds % 10);
}

/// The ten-thousandths that up to four digits write behind a point.
pub proof fn lemma_fraction_value(s: Seq<char>, first: int, second: int, third: int, fourth: int)
    requires
        1 <= s.len() <= 4,
        0 <= first < 10,
        0 <= second < 10,
        0 <= third < 10,
        0 <= fourth < 10,
        s[0] == digit_char(first),
        s.len() > 1 ==> s[1] == digit_char(second),
        s.len() > 2 ==> s[2] == digit_char(third),
        s.len() > 3 ==> s[3] == digit_char(fourth),
        s.len() <= 1 ==> second == 0,
        s.len() <= 2 ==> third == 0,
        s.len() <= 3 ==> fourth == 0,
    ensures
        all_digits(s),
        fraction_value(s) == first * 1000 + second * 100 + third * 10 + fourth,
{
    lemma_digit_char(first);
    lemma_digit_char(second);
    lemma_digit_char(third);
    lemma_digit_char(fourth);
    assert(digit_at(s, 0) == first);
    assert(digit_at(s, 1) == second);
    assert(digit_at(s, 2) == third);
    assert(digit_at(s, 3) == fourth);
    assert(digit_at(s, 4) == 0);
    assert forall|i: int| 0 <= i < s.len() implies is_digit(#[trigger] s[i]) by {
        if i == 0 {
        } else if i == 1 {
        } else if i == 2 {
        } else {
        }
    }
}

/// The text of a fraction is made of digits and writes that fraction.
pub proof fn lemma_fraction_text(f: nat)
    requires
        0 < f < 10000,
    ensures
        0 < fraction_text(f).len() <= 4,
        all_digits(fraction_text(f)),
        fraction_value(fraction_text(f)) == f,
{
    lemma_fraction_digits(f);
    lemma_fraction_value(
        fraction_text(f),
        (f / 10 / 10 / 10) as int,
        (f / 10 / 10 % 10) as int,
        (f / 10 % 10) as int,
        (f % 10) as int,
    );
}

/// Reading the decimal text of a number gives the number back.
pub proof fn lemma_unsigned_text(m: nat)
    ensures
        unsigned_text(m).len() > 0,
        is_digit(unsigned_text(m)[0]),
        unsigned_value(unsigned_text(m)) == Some(m as int),
{
    let whole = digits_text(m / 10000);
    let body = unsigned_text(m);
    lemma_digits_text(m / 10000);
    let k = whole.len() as int;
    assert forall|i: int| 0 <= i < k implies is_digit(#[trigger] body[i]) by {
        assert(body[i] == whole[i]);
    }
    if m % 10000 == 0 {
        lemma_whole_len(body, k);
        assert(body.take(k) =~= whole);
    } else {
        let fraction = fraction_text(m % 10000);
        lemma_fraction_text(m % 10000);
        assert(body[k] == '.');
        lemma_whole_len(body, k);
        assert(body.take(k) =~= whole);
        assert(body.skip(k + 1) =~= fraction);
    }
}

/// Reading the decimal text of a number gives the number back.
pub proof fn lemma_decimal_text(v: int)
    ensures
        decimal_value(decimal_text(v)) == Some(v),
{
    if v < 0 {
        lemma_unsigned_text((-v) as nat);
        assert(decimal_text(v).skip(1) =~= unsigned_text((-v) as nat));
    } else {
        lemma_unsigned_text(v as nat);
    }
}

/// The text of the digit `d`.
pub fn digit_str(d: u8) -> (text: &'static str)
    requires
        d < 10,
    ensures
        text@ == seq![digit_char(d as int)],
{
    proof {
        reveal_strlit("0");
        reveal_strlit("1");
        reveal_strlit("2");
        reveal_strlit("3");
        reveal_strlit("4");
        reveal_strlit("5");
        reveal_strlit("6");
        reveal_strlit("7");
        reveal_strlit("8");
        reveal_strlit("9");
    }
    let text = if d == 0 {
        "0"
    } else if d == 1 {
        "1"
    } else if d == 2 {
        "2"
    } else if d == 3 {
        "3"
    } else if d == 4 {
        "4"
    } else if d == 5 {
        "5"
    } else if d == 6 {
        "6"
    } else if d == 7 {
        "7"
    } else if d == 8 {
        "8"
    } else {
        "9"
    };
    assert(text@ =~= seq![digit_char(d as int)]);
    text
}

/// Writes the digits of `n` behind what `out` holds.
pub fn push_digits(out: &mut String, n: u128)
    ensures
        final(out)@ == old(out)@ + digits_text(n as nat),
    decreases n,
{
    if n >= 10 {
        push_digits(out, n / 10);
    }
    out.append(digit_str((n % 10) as u8));
    assert(out@ =~= old(out)@ + digits_text(n as nat));
}

/// Writes `f` ten-thousandths behind what `out` holds, as the digits that
/// follow a point.
pub fn push_fraction(out: &mut String, f: u16)
    requires
        0 < f < 10000,
    ensures
        final(out)@ == old(out)@ + fraction_text(f as nat),
{
    proof {
        lemma_fraction_digits(f as nat);
    }
    let fourth: u16 = f % 10;
    let third: u16 = f / 10 % 10;
    let second: u16 = f / 10 / 10 % 10;
    let first: u16 = f / 10 / 10 / 10;
    out.append(digit_str(first as u8));
    if second != 0 || third != 0 || fourth != 0 {
        out.append(digit_str(second as u8));
        if third != 0 || fourth != 0 {
            out.append(digit_str(third as u8));
            if fourth != 0 {
                out.append(digit_str(fourth as u8));
            }
        }
    }
    assert(out@ =~= old(out)@ + fraction_text(f as nat));
}

/// The decimal text of `value` ten-thousandths: the whole part, then a
/// point and up to four digits where the value is not whole.
pub fn format_decimal(value: i128) -> (text: String)
    ensures
        text@ == decimal_text(value as int),
        decimal_value(text@) == Some(value as int),
{
    proof {
        reveal_strlit("-");
        reveal_strlit(".");
        lemma_decimal_text(value as int);
    }
    let mut text = String::new();
    let magnitude: u128 = if value < 0 {
        text.append("-");
        (-(value + 1)) as u128 + 1
    } else {
        value as u128
    };
    push_digits(&mut text, magnitude / 10000);
    let fraction: u16 = (magnitude % 10000) as u16;
    if fraction != 0 {
        text.append(".");
        push_fraction(&mut text, fraction);
    }
    assert(text@ =~= decimal_text(value as int));
    text
}

} // verus!
