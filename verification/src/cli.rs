//! The command line: USB IDs in hexadecimal.

use vstd::prelude::*;
use crate::text;

verus! {

/// USB vendor ID of Microsoft.
pub const DEFAULT_VID: u16 = 0x045e;

/// USB product ID of the SideWinder Force Feedback Wheel.
pub const DEFAULT_PID: u16 = 0x001b;

/// `s` without any `0` and `mark` pairs at its start.
pub open spec fn without_marks(s: Seq<char>, mark: char) -> Seq<char>
    decreases s.len(),
{
    if s.len() >= 2 && s[0] == '0' && s[1] == mark {
        without_marks(s.skip(2), mark)
    } else {
        s
    }
}

/// The value of a hexadecimal digit of either case.
pub open spec fn hex_value(c: char) -> Option<int> {
    if '0' <= c <= '9' {
        Some(c as int - '0' as int)
    } else if 'a' <= c <= 'f' {
        Some(c as int - 'a' as int + 10)
    } else if 'A' <= c <= 'F' {
        Some(c as int - 'A' as int + 10)
    } else {
        None
    }
}

/// Why digits are not a 16-bit number.
pub enum HexError {
    Empty,
    InvalidDigit,
    TooLarge,
}

/// The message of an error.
pub open spec fn hex_error_text(e: HexError) -> Seq<char> {
    match e {
        HexError::Empty => "cannot parse integer from empty string"@,
        HexError::InvalidDigit => "invalid digit found in string"@,
        HexError::TooLarge => "number too large to fit in target type"@,
    }
}

/// The number that digits stand for. From left to right, the first character
/// that is no digit, or at which the number no longer fits, is the error.
pub open spec fn digits_value(digits: Seq<char>) -> Result<int, HexError>
    decreases digits.len(),
{
    if digits.len() == 0 {
        Ok(0)
    } else {
        match (digits_value(digits.drop_last()), hex_value(digits.last())) {
            (Err(e), _) => Err(e),
            (Ok(_), None) => Err(HexError::InvalidDigit),
            (Ok(v), Some(d)) => if 16 * v + d > 0xffff {
                Err(HexError::TooLarge)
            } else {
                Ok(16 * v + d)
            },
        }
    }
}

/// The number that `s` stands for: any `0x` marks and then any `0X` marks are
/// dropped, a plus sign may come first, and at least one digit must follow.
pub open spec fn hex_u16(s: Seq<char>) -> Result<int, HexError> {
    let rest = without_marks(without_marks(s, 'x'), 'X');
    if rest.len() == 0 {
        Err(HexError::Empty)
    } else if rest[0] != '+' {
        digits_value(rest)
    } else if rest.len() == 1 {
        Err(HexError::InvalidDigit)
    } else {
        digits_value(rest.skip(1))
    }
}

/// The position in `s` after any `0` and `mark` pairs from `start` on.
fn skip_marks(s: &str, start: usize, len: usize, mark: char) -> (r: usize)
    requires
        start <= len == s@.len(),
    ensures
        start <= r <= len,
        s@.skip(r as int) == without_marks(s@.skip(start as int), mark),
{
    let mut i: usize = start;
    while i < len && len - i >= 2 && s.get_char(i) == '0' && s.get_char(i + 1) == mark
        invariant
            start <= i <= len == s@.len(),
            without_marks(s@.skip(i as int), mark) == without_marks(s@.skip(start as int), mark),
        decreases len - i,
    {
        proof {
            assert(s@.skip(i as int).skip(2) =~= s@.skip(i + 2));
        }
        i = i + 2;
    }
    i
}

/// The value of a hexadecimal digit of either case.
fn hex_digit(c: char) -> (r: Option<u16>)
    ensures
        r is Some <==> hex_value(c) is Some,
        r matches Some(d) ==> hex_value(c) == Some(d as int) && d < 16,
{
    if '0' <= c && c <= '9' {
        Some((c as u32 - '0' as u32) as u16)
    } else if 'a' <= c && c <= 'f' {
        Some((c as u32 - 'a' as u32 + 10) as u16)
    } else if 'A' <= c && c <= 'F' {
        Some((c as u32 - 'A' as u32 + 10) as u16)
    } else {
        None
    }
}

/// An error stays when more digits follow.
proof fn lemma_error_stays(digits: Seq<char>, n: int)
    requires
        0 <= n <= digits.len(),
        digits_value(digits.take(n)) is Err,
    ensures
        digits_value(digits) == digits_value(digits.take(n)),
    decreases digits.len(),
{
    if n < digits.len() {
        assert(digits.drop_last().take(n) =~= digits.take(n));
        lemma_error_stays(digits.drop_last(), n);
    } else {
        assert(digits.take(n) =~= digits);
    }
}

/// Reads the digits of `s` from `start` on.
fn read_digits(s: &str, start: usize, len: usize) -> (r: Result<u16, String>)
    requires
        start <= len == s@.len(),
    ensures
        match digits_value(s@.skip(start as int)) {
            Ok(v) => r matches Ok(n) && n == v,
            Err(e) => r matches Err(m) && m@ == hex_error_text(e),
        },
{
    let ghost digits = s@.skip(start as int);
    let mut value: u16 = 0;
    let mut i: usize = start;
    assert(digits.take(0) =~= Seq::empty());
    while i < len
        invariant
            start <= i <= len == s@.len(),
            digits == s@.skip(start as int),
            digits_value(digits.take(i - start)) == Ok::<int, HexError>(value as int),
        decreases len - i,
    {
        proof {
            assert(digits.take(i - start + 1).drop_last() =~= digits.take(i - start));
            assert(digits.take(i - start + 1).last() == s@[i as int]);
        }
        match hex_digit(s.get_char(i)) {
            None => {
                proof {
                    lemma_error_stays(digits, i - start + 1);
                }
                return Err(String::from_str("invalid digit found in string"));
            },
            Some(d) => {
                let wide: u32 = 16 * (value as u32) + d as u32;
                if wide > 0xffff {
                    proof {
                        lemma_error_stays(digits, i - start + 1);
                    }
                    return Err(String::from_str("number too large to fit in target type"));
                }
                value = wide as u16;
            },
        }
        i = i + 1;
    }
    assert(digits.take(len - start) =~= digits);
    Ok(value)
}

/// Reads a USB ID in hexadecimal, with or without `0x` in front.
pub fn parse_hex_u16(s: &str) -> (r: Result<u16, String>)
    ensures
        match hex_u16(s@) {
            Ok(v) => r matches Ok(n) && n == v,
            Err(e) => r matches Err(m) && m@ == hex_error_text(e),
        },
{
    let len: usize = s.unicode_len();
    assert(s@.skip(0) =~= s@);
    let start: usize = skip_marks(s, 0, len, 'x');
    let start: usize = skip_marks(s, start, len, 'X');
    if start == len {
        return Err(String::from_str("cannot parse integer from empty string"));
    }
    if s.get_char(start) != '+' {
        return read_digits(s, start, len);
    }
    if start + 1 == len {
        return Err(String::from_str("invalid digit found in string"));
    }
    assert(s@.skip(start as int).skip(1) =~= s@.skip(start + 1));
    read_digits(s, start + 1, len)
}

/// The number that a sequence of hexadecimal digits stands for, of any size.
pub open spec fn positional_value(digits: Seq<char>) -> int
    decreases digits.len(),
{
    if digits.len() == 0 {
        0
    } else {
        16 * positional_value(digits.drop_last()) + hex_value(digits.last()).unwrap_or(0)
    }
}

/// Digits are read exactly if all of them are hexadecimal and the number fits
/// in 16 bits, and then as that number.
pub proof fn law_digits_accepted(digits: Seq<char>)
    ensures
        digits_value(digits) is Ok <==> (forall|i: int|
            0 <= i < digits.len() ==> hex_value(#[trigger] digits[i]) is Some)
            && positional_value(digits) <= 0xffff,
        digits_value(digits) matches Ok(v) ==> v == positional_value(digits) && 0 <= v,
        0 <= positional_value(digits),
    decreases digits.len(),
{
    if digits.len() > 0 {
        let before = digits.drop_last();
        law_digits_accepted(before);
        assert(forall|i: int| 0 <= i < before.len() ==> before[i] == digits[i]);
        assert(digits[digits.len() - 1] == digits.last());
        if forall|i: int| 0 <= i < digits.len() ==> hex_value(#[trigger] digits[i]) is Some {
            assert forall|i: int| 0 <= i < before.len() implies hex_value(#[trigger] before[i]) is Some by {
                assert(hex_value(digits[i]) is Some);
            }
        }
    }
}

/// A USB ID that is written out with four digits, as in the device listing, is
/// read back as itself, with a `0x` in front or without.
pub proof fn law_listed_id_reads_back(id: u16)
    ensures
        hex_u16("0x"@ + text::fixed(id as int, 16, 4)) == Ok::<int, HexError>(id as int),
        hex_u16(text::fixed(id as int, 16, 4)) == Ok::<int, HexError>(id as int),
{
    let n = id as int;
    let digits = text::fixed(n, 16, 4);
    reveal_with_fuel(text::fixed, 5);
    assert(digits =~= seq![
        text::digit_char(n / 16 / 16 / 16 % 16),
        text::digit_char(n / 16 / 16 % 16),
        text::digit_char(n / 16 % 16),
        text::digit_char(n % 16),
    ]);
    assert forall|d: int| 0 <= d < 16 implies hex_value(#[trigger] text::digit_char(d)) == Some(d) by {}
    reveal_with_fuel(digits_value, 5);
    assert(digits.drop_last() =~= digits.take(3));
    assert(digits.take(3).drop_last() =~= digits.take(2));
    assert(digits.take(2).drop_last() =~= digits.take(1));
    assert(digits.take(1).drop_last() =~= Seq::empty());
    assert(digits_value(digits) == Ok::<int, HexError>(n));
    assert(without_marks(digits, 'x') == digits);
    reveal_strlit("0x");
    let marked = "0x"@ + digits;
    assert(marked.skip(2) =~= digits);
    assert(without_marks(marked, 'x') == digits);
}

/// A `0x` in front of an ID changes nothing, and neither does a `0X` in front
/// of one that does not itself start with `0x`.
pub proof fn law_mark_optional(s: Seq<char>)
    ensures
        hex_u16("0x"@ + s) == hex_u16(s),
        without_marks(s, 'x') == s ==> hex_u16("0X"@ + s) == hex_u16(s),
{
    reveal_strlit("0x");
    reveal_strlit("0X");
    assert(("0x"@ + s).skip(2) =~= s);
    assert(("0X"@ + s).skip(2) =~= s);
}

/// Whether `c` is one of `0` to `9`, `a` to `f` and `A` to `F`, by its code.
pub open spec fn is_hex(c: char) -> bool {
    48 <= c as int <= 57 || 97 <= c as int <= 102 || 65 <= c as int <= 70
}

/// Whether `s` is made of hexadecimal digits.
pub open spec fn all_hex(s: Seq<char>) -> bool {
    forall|i: int| 0 <= i < s.len() ==> is_hex(#[trigger] s[i])
}

/// The number that hexadecimal digits of either case stand for, each weighing
/// 16 times the one after it.
pub open spec fn hex_number(digits: Seq<char>) -> int
    decreases digits.len(),
{
    if digits.len() == 0 {
        0
    } else {
        let c = digits.last() as int;
        16 * hex_number(digits.drop_last()) + if c <= 57 {
            c - 48
        } else if c <= 70 {
            c - 55
        } else {
            c - 87
        }
    }
}

/// Digits are valued by their codes, and give up at the first character that
/// is none or at which the number is too large.
proof fn lemma_digits_value(digits: Seq<char>)
    requires
        all_hex(digits),
    ensures
        0 <= hex_number(digits),
        digits_value(digits) == if hex_number(digits) <= 0xffff {
            Ok::<int, HexError>(hex_number(digits))
        } else {
            Err(HexError::TooLarge)
        },
    decreases digits.len(),
{
    if digits.len() > 0 {
        let before = digits.drop_last();
        assert forall|i: int| 0 <= i < before.len() implies is_hex(#[trigger] before[i]) by {
            assert(before[i] == digits[i]);
        }
        lemma_digits_value(before);
        assert(is_hex(digits[digits.len() - 1]));
    }
}

/// What holds no mark keeps all of its characters.
proof fn lemma_no_marks(s: Seq<char>)
    requires
        s.len() < 2 || (s[1] != 'x' && s[1] != 'X'),
    ensures
        without_marks(s, 'x') == s,
        without_marks(s, 'X') == s,
{
}

/// Every number of hexadecimal digits, of either case and of any length, is
/// read as the number it stands for if that fits in 16 bits and refused as too
/// large if not; with `0x`, `0X` or a plus sign in front just as without.
pub proof fn law_reading(digits: Seq<char>)
    requires
        digits.len() > 0,
        all_hex(digits),
    ensures
        ({
            let expected = if hex_number(digits) <= 0xffff {
                Ok::<int, HexError>(hex_number(digits))
            } else {
                Err(HexError::TooLarge)
            };
            &&& hex_u16(digits) == expected
            &&& hex_u16("0x"@ + digits) == expected
            &&& hex_u16("0X"@ + digits) == expected
            &&& hex_u16(seq!['+'] + digits) == expected
            &&& hex_u16("0x"@ + (seq!['+'] + digits)) == expected
        }),
{
    lemma_digits_value(digits);
    assert(is_hex(digits[0]));
    if digits.len() >= 2 {
        assert(is_hex(digits[1]));
    }
    lemma_no_marks(digits);
    law_mark_optional(digits);
    let signed = seq!['+'] + digits;
    assert(signed[1] == digits[0]);
    lemma_no_marks(signed);
    law_mark_optional(signed);
    assert(signed.skip(1) =~= digits);
}

/// A digit in front weighs by the number of digits after it, and a zero in
/// front weighs nothing.
proof fn lemma_zero_in_front(s: Seq<char>)
    ensures
        hex_number(seq!['0'] + s) == hex_number(s),
    decreases s.len(),
{
    let t = seq!['0'] + s;
    if s.len() == 0 {
        assert(t.drop_last() =~= Seq::empty());
        reveal_with_fuel(hex_number, 2);
    } else {
        assert(t.drop_last() =~= seq!['0'] + s.drop_last());
        lemma_zero_in_front(s.drop_last());
    }
}

/// Leading zeros change nothing.
pub proof fn law_leading_zero(s: Seq<char>)
    requires
        s.len() > 0,
        all_hex(s),
    ensures
        hex_u16(seq!['0'] + s) == hex_u16(s),
        hex_u16("0x"@ + (seq!['0'] + s)) == hex_u16(s),
{
    let t = seq!['0'] + s;
    assert forall|i: int| 0 <= i < t.len() implies is_hex(#[trigger] t[i]) by {
        if i > 0 {
            assert(t[i] == s[i - 1]);
        }
    }
    lemma_zero_in_front(s);
    law_reading(s);
    law_reading(t);
}

/// One more digit at the end makes the number sixteen times as large, and adds
/// the digit.
pub proof fn law_digit_appended(s: Seq<char>, c: char)
    requires
        s.len() > 0,
        all_hex(s),
        is_hex(c),
        hex_number(s.push(c)) <= 0xffff,
    ensures
        hex_u16(s) matches Ok(v) && hex_u16(s.push(c)) matches Ok(w) && 16 * v <= w < 16 * v + 16
            && hex_u16(seq![c]) == Ok::<int, HexError>(w - 16 * v),
{
    let t = s.push(c);
    assert forall|i: int| 0 <= i < t.len() implies is_hex(#[trigger] t[i]) by {
        if i < s.len() {
            assert(t[i] == s[i]);
        }
    }
    assert(t.drop_last() =~= s);
    law_reading(s);
    law_reading(t);
    law_reading(seq![c]);
    lemma_digits_value(s);
    assert(seq![c].drop_last() =~= Seq::empty());
    reveal_with_fuel(hex_number, 2);
}

/// Whether `s` is made of hexadecimal digits whose number fits in 16 bits.
pub open spec fn fits(s: Seq<char>) -> bool {
    all_hex(s) && hex_number(s) <= 0xffff
}

/// Digits are refused at the first character that is no digit or at which the
/// number no longer fits.
proof fn lemma_offence(digits: Seq<char>, j: int)
    requires
        0 <= j < digits.len(),
        fits(digits.take(j)),
    ensures
        !is_hex(digits[j]) ==> digits_value(digits) == Err::<int, HexError>(HexError::InvalidDigit),
        is_hex(digits[j]) && hex_number(digits.take(j + 1)) > 0xffff ==> digits_value(digits)
            == Err::<int, HexError>(HexError::TooLarge),
{
    let upto = digits.take(j + 1);
    assert(upto.drop_last() =~= digits.take(j));
    assert(upto.last() == digits[j]);
    lemma_digits_value(digits.take(j));
    if is_hex(digits[j]) {
        assert forall|i: int| 0 <= i < upto.len() implies is_hex(#[trigger] upto[i]) by {
            if i < j {
                assert(upto[i] == digits.take(j)[i]);
            }
        }
        lemma_digits_value(upto);
    }
    if digits_value(upto) is Err {
        lemma_error_stays(digits, j + 1);
    }
}

/// Where reading goes wrong, it is at the first character that is no digit, or
/// at which the number becomes too large.
pub proof fn law_first_offence(s: Seq<char>, k: int)
    requires
        0 <= k < s.len(),
        fits(s.take(k)),
        s.len() >= 2 ==> s[1] != 'x' && s[1] != 'X',
    ensures
        !is_hex(s[k]) && s[0] != '+' ==> hex_u16(s) == Err::<int, HexError>(HexError::InvalidDigit),
        !is_hex(s[k]) && s[0] != 'x' && s[0] != 'X' ==> hex_u16(seq!['+'] + s) == Err::<int, HexError>(
            HexError::InvalidDigit,
        ),
        is_hex(s[k]) && hex_number(s.take(k + 1)) > 0xffff ==> hex_u16(s) == Err::<int, HexError>(
            HexError::TooLarge,
        ),
{
    lemma_offence(s, k);
    if k > 0 {
        assert(is_hex(s.take(k)[0]));
    }
    lemma_no_marks(s);
    let signed = seq!['+'] + s;
    assert(signed[1] == s[0]);
    assert(signed.skip(1) =~= s);
    if s[0] != 'x' && s[0] != 'X' {
        lemma_no_marks(signed);
    }
}

/// A sign alone is no number, and nothing at all is none either.
pub proof fn law_nothing_to_read(marked: bool)
    ensures
        ({
            let mark = if marked {
                "0x"@
            } else {
                Seq::empty()
            };
            &&& hex_u16(mark) == Err::<int, HexError>(HexError::Empty)
            &&& hex_u16(mark + seq!['+']) == Err::<int, HexError>(HexError::InvalidDigit)
        }),
{
    let nothing = Seq::<char>::empty();
    law_mark_optional(nothing);
    law_mark_optional(seq!['+']);
    assert("0x"@ + nothing =~= "0x"@);
    assert(nothing + seq!['+'] =~= seq!['+']);
}

/// Dropping marks takes away pairs of a zero and the mark from the start, all
/// of them, and nothing else.
pub proof fn law_marks(s: Seq<char>, mark: char) -> (k: int)
    ensures
        0 <= 2 * k <= s.len(),
        without_marks(s, mark) == s.skip(2 * k),
        forall|i: int|
            0 <= i < 2 * k ==> #[trigger] s[i] == if i % 2 == 0 {
                '0'
            } else {
                mark
            },
        2 * k + 1 < s.len() ==> s[2 * k] != '0' || s[2 * k + 1] != mark,
    decreases s.len(),
{
    if s.len() >= 2 && s[0] == '0' && s[1] == mark {
        let t = s.skip(2);
        let k = law_marks(t, mark);
        assert(t.skip(2 * k) =~= s.skip(2 * (k + 1)));
        assert forall|i: int| 0 <= i < 2 * (k + 1) implies #[trigger] s[i] == if i % 2 == 0 {
            '0'
        } else {
            mark
        } by {
            if i >= 2 {
                assert(t[i - 2] == s[i]);
            }
        }
        k + 1
    } else {
        assert(s.skip(0) =~= s);
        0
    }
}

/// Digits are read exactly if they fit, and as the number they stand for.
proof fn lemma_read_if_fits(digits: Seq<char>)
    ensures
        digits_value(digits) is Ok <==> fits(digits),
        digits_value(digits) matches Ok(v) ==> v == hex_number(digits),
{
    law_digits_accepted(digits);
    if digits_value(digits) is Ok {
        assert forall|i: int| 0 <= i < digits.len() implies is_hex(#[trigger] digits[i]) by {
            assert(hex_value(digits[i]) is Some);
        }
    }
    if all_hex(digits) {
        lemma_digits_value(digits);
    }
}

/// What `parse_hex_u16` makes of every text: `0x` marks, `0X` marks after them,
/// and a plus sign after those are passed over, and what remains is read
/// exactly if it is at least one hexadecimal digit and the number fits in 16
/// bits. Otherwise the message says that nothing remains, or names what is
/// wrong with the first character at fault.
pub proof fn law_parse_hex_u16(s: &str, r: Result<u16, String>) -> (marks: (int, int))
    requires
        call_ensures(parse_hex_u16, (s,), r),
    ensures
        ({
            let small = 2 * marks.0;
            let end = small + 2 * marks.1;
            let rest = s@.skip(end);
            let digits = if rest.len() > 0 && rest[0] == '+' {
                rest.skip(1)
            } else {
                rest
            };
            &&& 0 <= small <= end <= s@.len()
            &&& forall|i: int|
                0 <= i < end ==> #[trigger] s@[i] == if i % 2 == 0 {
                    '0'
                } else if i < small {
                    'x'
                } else {
                    'X'
                }
            &&& small + 1 < s@.len() ==> s@[small] != '0' || s@[small + 1] != 'x'
            &&& end + 1 < s@.len() ==> s@[end] != '0' || s@[end + 1] != 'X'
            &&& r is Ok <==> digits.len() > 0 && fits(digits)
            &&& r matches Ok(n) ==> n == hex_number(digits)
            &&& rest.len() == 0 ==> (r matches Err(m) && m@
                == "cannot parse integer from empty string"@)
            &&& rest.len() == 1 && rest[0] == '+' ==> (r matches Err(m) && m@
                == "invalid digit found in string"@)
            &&& forall|j: int|
                0 <= j < digits.len() && fits(digits.take(j)) && !is_hex(#[trigger] digits[j]) ==> (
                r matches Err(m) && m@ == "invalid digit found in string"@)
            &&& forall|j: int|
                0 <= j < digits.len() && fits(digits.take(j)) && is_hex(#[trigger] digits[j])
                    && hex_number(digits.take(j + 1)) > 0xffff ==> (r matches Err(m) && m@
                    == "number too large to fit in target type"@)
        }),
{
    let k1 = law_marks(s@, 'x');
    let t = s@.skip(2 * k1);
    let k2 = law_marks(t, 'X');
    let end = 2 * k1 + 2 * k2;
    let rest = s@.skip(end);
    assert(t.skip(2 * k2) =~= rest);
    let digits = if rest.len() > 0 && rest[0] == '+' {
        rest.skip(1)
    } else {
        rest
    };
    assert forall|i: int| 0 <= i < end implies #[trigger] s@[i] == if i % 2 == 0 {
        '0'
    } else if i < 2 * k1 {
        'x'
    } else {
        'X'
    } by {
        if i >= 2 * k1 {
            assert(t[i - 2 * k1] == s@[i]);
        }
    }
    if end + 1 < s@.len() {
        assert(t[2 * k2] == s@[end] && t[2 * k2 + 1] == s@[end + 1]);
    }
    lemma_read_if_fits(digits);
    assert forall|j: int|
        0 <= j < digits.len() && fits(digits.take(j)) && !is_hex(#[trigger] digits[j]) implies (
    r matches Err(m) && m@ == "invalid digit found in string"@) by {
        lemma_offence(digits, j);
    }
    assert forall|j: int|
        0 <= j < digits.len() && fits(digits.take(j)) && is_hex(#[trigger] digits[j]) && hex_number(
            digits.take(j + 1),
        ) > 0xffff implies (r matches Err(m) && m@ == "number too large to fit in target type"@) by {
        lemma_offence(digits, j);
    }
    (k1, k2)
}

} // verus!
