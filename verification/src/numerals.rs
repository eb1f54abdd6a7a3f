//! Numbers as text: decimal and hexadecimal digits, both ways.

use vstd::prelude::*;

verus! {

// ---------------------------------------------------------------------------
// Digits
// ---------------------------------------------------------------------------

/// The character for a digit value below sixteen.
pub open spec fn digit_char(value: int, upper: bool) -> char {
    if value < 10 {
        (48 + value) as char
    } else if upper {
        (55 + value) as char
    } else {
        (87 + value) as char
    }
}

fn digit(value: u8, upper: bool) -> (r: char)
    requires
        value < 16,
    ensures
        r == digit_char(value as int, upper),
{
    if value < 10 {
        (48u8 + value) as char
    } else if upper {
        (55u8 + value) as char
    } else {
        (87u8 + value) as char
    }
}

// ---------------------------------------------------------------------------
// Decimal
// ---------------------------------------------------------------------------

/// A number in decimal, without leading zeros.
pub open spec fn decimal(n: nat) -> Seq<char>
    decreases n,
{
    if n < 10 {
        seq![digit_char(n as int, false)]
    } else {
        decimal(n / 10).push(digit_char((n % 10) as int, false))
    }
}

/// A number in decimal, with a minus sign where it is negative.
pub open spec fn signed_decimal(n: int) -> Seq<char> {
    if n < 0 {
        seq!['-'] + decimal((-n) as nat)
    } else {
        decimal(n as nat)
    }
}

fn push_decimal(out: &mut String, n: u64)
    ensures
        final(out)@ == old(out)@ + decimal(n as nat),
    decreases n,
{
    if n < 10 {
        out.push(digit(n as u8, false));
    } else {
        push_decimal(out, n / 10);
        out.push(digit((n % 10) as u8, false));
    }
}

/// A number in decimal.
pub fn decimal_text(n: u64) -> (r: String)
    ensures
        r@ == decimal(n as nat),
{
    let mut out = String::new();
    push_decimal(&mut out, n);
    out
}

/// A signed number in decimal.
pub fn signed_decimal_text(n: i32) -> (r: String)
    ensures
        r@ == signed_decimal(n as int),
{
    let mut out = String::new();
    let wide: i64 = n as i64;
    if wide < 0 {
        out.push('-');
        push_decimal(&mut out, (-wide) as u64);
    } else {
        push_decimal(&mut out, wide as u64);
    }
    out
}

/// Whether a character is one of the digits `0` to `9`.
pub open spec fn is_digit(c: char) -> bool {
    48 <= c as u32 <= 57
}

/// Whether a character is one of the digits `0` to `9`.
pub fn ascii_digit(c: char) -> (r: bool)
    ensures
        r == is_digit(c),
{
    48 <= c as u32 && c as u32 <= 57
}

/// Whether a text is made of digits alone.
pub open spec fn all_digits(s: Seq<char>) -> bool {
    forall|i: int| 0 <= i < s.len() ==> is_digit(#[trigger] s[i])
}

/// The number that a sequence of digits stands for.
pub open spec fn digits_value(s: Seq<char>) -> nat
    decreases s.len(),
{
    if s.len() == 0 {
        0
    } else {
        digits_value(s.drop_last()) * 10 + (s.last() as u32 - 48) as nat
    }
}

/// The number that a text stands for: digits, with at most one plus sign in
/// front of them. `None` for any other text, and where the number is above
/// `u32::MAX`.
pub open spec fn parsed_u32(s: Seq<char>) -> Option<u32> {
    let digits = if s.len() > 0 && s[0] == '+' {
        s.skip(1)
    } else {
        s
    };
    if digits.len() > 0 && all_digits(digits) && digits_value(digits) <= u32::MAX {
        Some(digits_value(digits) as u32)
    } else {
        None
    }
}

proof fn lemma_digits_value_grows(s: Seq<char>, k: int)
    requires
        0 <= k <= s.len(),
        all_digits(s),
    ensures
        digits_value(s.take(k)) <= digits_value(s),
    decreases s.len() - k,
{
    if k == s.len() {
        assert(s.take(k) =~= s);
    } else {
        assert(s.take(k + 1).drop_last() =~= s.take(k));
        lemma_digits_value_grows(s, k + 1);
    }
}

/// The number that a text stands for.
pub fn parse_u32(s: &str) -> (r: Option<u32>)
    ensures
        r == parsed_u32(s@),
{
    let chars = crate::text::chars_of(s);
    let start: usize = if chars.len() > 0 && chars[0] == '+' {
        1
    } else {
        0
    };
    let ghost digits = s@.skip(start as int);
    proof {
        assert(s@.skip(0) =~= s@);
    }
    if start == chars.len() {
        return None;
    }
    let mut value: u64 = 0;
    let mut i: usize = start;
    while i < chars.len()
        invariant
            start <= i <= chars@.len(),
            chars@ == s@,
            digits == s@.skip(start as int),
            parsed_u32(s@) == if digits.len() > 0 && all_digits(digits) && digits_value(digits)
                <= u32::MAX {
                Some(digits_value(digits) as u32)
            } else {
                None
            },
            value <= u32::MAX,
            value == digits_value(digits.take(i - start)),
            all_digits(digits.take(i - start)),
        decreases chars@.len() - i,
    {
        let c: char = chars[i];
        proof {
            assert(digits[i - start] == c);
        }
        if !ascii_digit(c) {
            return None;
        }
        proof {
            let next = digits.take(i - start + 1);
            assert(next.drop_last() =~= digits.take(i - start));
            assert forall|j: int| 0 <= j < next.len() implies is_digit(#[trigger] next[j]) by {
                if j < i - start {
                    assert(digits.take(i - start)[j] == next[j]);
                }
            }
        }
        value = value * 10 + (c as u32 - 48) as u64;
        i = i + 1;
        if value > 0xFFFF_FFFF {
            proof {
                if all_digits(digits) {
                    lemma_digits_value_grows(digits, i - start);
                }
            }
            return None;
        }
    }
    proof {
        assert(digits.take(i - start) =~= digits);
    }
    Some(value as u32)
}

// ---------------------------------------------------------------------------
// Hexadecimal
// ---------------------------------------------------------------------------

/// The two hexadecimal digits of a byte.
pub open spec fn hex_byte(b: u8, upper: bool) -> Seq<char> {
    seq![digit_char((b / 16) as int, upper), digit_char((b % 16) as int, upper)]
}

/// The hexadecimal digits of a sequence of bytes, in lower case.
pub open spec fn hex_bytes(bytes: Seq<u8>) -> Seq<char> {
    Seq::new(
        2 * bytes.len(),
        |i: int| hex_byte(bytes[i / 2], false)[i % 2],
    )
}

/// A byte as `0x` and two upper-case digits.
pub open spec fn hex_literal(b: u8) -> Seq<char> {
    "0x"@ + hex_byte(b, true)
}

/// A byte as `0x` and two upper-case digits.
pub fn hex_literal_text(b: u8) -> (r: String)
    ensures
        r@ == hex_literal(b),
{
    let mut out = "0x".to_owned();
    out.push(digit(b / 16, true));
    out.push(digit(b % 16, true));
    out
}

// ---------------------------------------------------------------------------
// Letter case
// ---------------------------------------------------------------------------

/// The upper-case form of an ASCII letter; any other character is kept.
pub open spec fn upper_char(c: char) -> char {
    if 97 <= c as u32 <= 122 {
        (c as u32 - 32) as char
    } else {
        c
    }
}

/// A text with its ASCII letters in upper case.
pub open spec fn upper(s: Seq<char>) -> Seq<char> {
    s.map_values(|c: char| upper_char(c))
}

/// A text with its ASCII letters in upper case.
pub fn upper_text(s: &str) -> (r: String)
    ensures
        r@ == upper(s@),
{
    let mut out = String::new();
    for c in it: s.chars()
        invariant
            it.seq() == s@,
            out@ == upper(s@.take(it.index() as int)),
    {
        let ghost k = it.index() as int;
        proof {
            assert(s@.take(k + 1) =~= s@.take(k).push(c));
            assert(upper(s@.take(k).push(c)) =~= upper(s@.take(k)).push(upper_char(c)));
        }
        let n: u32 = c as u32;
        if 97 <= n && n <= 122 {
            out.push((n as u8 - 32) as char);
        } else {
            out.push(c);
        }
    }
    proof {
        assert(s@.take(s@.len() as int) =~= s@);
    }
    out
}

// ---------------------------------------------------------------------------
// Laws
// ---------------------------------------------------------------------------

/// A number in decimal is made of digits, does not begin with a zero unless it
/// is zero, and stands for that number.
pub proof fn law_decimal_stands_for_its_number(n: nat)
    ensures
        decimal(n).len() > 0,
        all_digits(decimal(n)),
        digits_value(decimal(n)) == n,
        n > 0 ==> decimal(n)[0] != '0',
        decimal(0) == seq!['0'],
    decreases n,
{
    reveal_with_fuel(digits_value, 2);
    if n < 10 {
        assert(decimal(n).drop_last() =~= Seq::<char>::empty());
        assert(digit_char(n as int, false) as u32 == 48 + n);
    } else {
        let head = decimal(n / 10);
        law_decimal_stands_for_its_number(n / 10);
        assert(decimal(n).drop_last() =~= head);
        assert(digit_char((n % 10) as int, false) as u32 == 48 + n % 10);
        assert(decimal(n)[0] == head[0]);
        assert(decimal(n).last() == digit_char((n % 10) as int, false));
        assert forall|i: int| 0 <= i < decimal(n).len() implies is_digit(
            #[trigger] decimal(n)[i],
        ) by {
            if i < head.len() {
                assert(decimal(n)[i] == head[i]);
            }
        }
    }
}

/// What is written in decimal is read as the same number, with a plus sign in
/// front of it or without, as far as it fits in 32 bits; and a text is read as
/// a number only where it is made of digits behind at most one plus sign.
pub proof fn law_decimal_is_read_back(n: nat, s: Seq<char>)
    ensures
        n <= u32::MAX ==> parsed_u32(decimal(n)) == Some(n as u32) && parsed_u32(
            seq!['+'] + decimal(n),
        ) == Some(n as u32),
        n > u32::MAX ==> parsed_u32(decimal(n)) is None,
        parsed_u32(s) is Some ==> s.len() > 0 && (is_digit(s[0]) || (s[0] == '+' && s.len() > 1))
            && forall|i: int| 0 < i < s.len() ==> is_digit(#[trigger] s[i]),
{
    law_decimal_stands_for_its_number(n);
    let text = decimal(n);
    assert(is_digit(text[0]));
    assert((seq!['+'] + text).skip(1) =~= text);
    if parsed_u32(s) is Some {
        assert forall|i: int| 0 < i < s.len() implies is_digit(#[trigger] s[i]) by {
            if s[0] == '+' {
                assert(s.skip(1)[i - 1] == s[i]);
            }
        }
    }
}

/// The value of a hexadecimal digit, in either case.
pub open spec fn hex_value(c: char) -> int {
    if is_digit(c) {
        c as u32 - 48
    } else if 65 <= c as u32 <= 70 {
        c as u32 - 55
    } else {
        c as u32 - 87
    }
}

/// Two hexadecimal digits stand for their byte, in lower and in upper case.
pub proof fn law_hex_digits_stand_for_their_byte(b: u8, upper_case: bool)
    ensures
        hex_byte(b, upper_case).len() == 2,
        16 * hex_value(hex_byte(b, upper_case)[0]) + hex_value(hex_byte(b, upper_case)[1]) == b,
        forall|i: int|
            0 <= i < 2 ==> {
                let c = #[trigger] hex_byte(b, upper_case)[i];
                is_digit(c) || (upper_case && 65 <= c as u32 <= 70) || (!upper_case && 97
                    <= c as u32 <= 102)
            },
{
    assert(b == 16 * (b / 16) + b % 16);
    assert(b / 16 < 16);
}

/// Every byte of a sequence stands in its hexadecimal digits, in order.
pub proof fn law_hex_text_holds_every_byte(bytes: Seq<u8>, i: int)
    requires
        0 <= i < bytes.len(),
    ensures
        hex_bytes(bytes).len() == 2 * bytes.len(),
        16 * hex_value(hex_bytes(bytes)[2 * i]) + hex_value(hex_bytes(bytes)[2 * i + 1])
            == bytes[i],
{
    law_hex_digits_stand_for_their_byte(bytes[i], false);
    assert(hex_bytes(bytes)[2 * i] == hex_byte(bytes[i], false)[0]);
    assert(hex_bytes(bytes)[2 * i + 1] == hex_byte(bytes[i], false)[1]);
}

/// Upper case changes the letters `a` to `z` and nothing else, in place.
pub proof fn law_upper_case_changes_letters_only(s: Seq<char>, i: int)
    requires
        0 <= i < s.len(),
    ensures
        upper(s).len() == s.len(),
        97 <= s[i] as u32 <= 122 ==> upper(s)[i] as u32 == s[i] as u32 - 32,
        !(97 <= s[i] as u32 <= 122) ==> upper(s)[i] == s[i],
{
    let n = s[i] as u32;
    assert(97 <= n <= 122 ==> ((n - 32) as char) as u32 == n - 32);
}

} // verus!
