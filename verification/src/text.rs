//! Text of numbers: fixed-width digits, decimals and padding.

use vstd::prelude::*;

verus! {

/// The lower-case character of the digit `d`, for `d` in `0..16`.
pub open spec fn digit_char(d: int) -> char {
    if d < 10 {
        (0x30 + d) as char
    } else {
        (0x57 + d) as char
    }
}

/// The last `width` digits of `n` in base `radix`, most significant first,
/// filled up with zeros.
pub open spec fn fixed(n: int, radix: int, width: nat) -> Seq<char>
    decreases width,
{
    if width == 0 {
        Seq::empty()
    } else {
        fixed(n / radix, radix, (width - 1) as nat).push(digit_char(n % radix))
    }
}

/// `n` in decimal, without leading zeros.
pub open spec fn decimal(n: nat) -> Seq<char>
    decreases n,
{
    if n < 10 {
        seq![digit_char(n as int)]
    } else {
        decimal(n / 10).push(digit_char(n as int % 10))
    }
}

/// `n` in decimal, with a leading minus sign when it is negative.
pub open spec fn signed_decimal(n: int) -> Seq<char> {
    if n < 0 {
        seq!['-'] + decimal((-n) as nat)
    } else {
        decimal(n as nat)
    }
}

/// `s` with spaces in front up to `width` characters.
pub open spec fn right_aligned(s: Seq<char>, width: nat) -> Seq<char> {
    if s.len() < width {
        Seq::new((width - s.len()) as nat, |i: int| ' ') + s
    } else {
        s
    }
}

/// The contents of a list of strings.
pub open spec fn contents(lines: Seq<String>) -> Seq<Seq<char>> {
    lines.map_values(|s: String| s@)
}

/// The string of the single digit `d`.
fn digit_str(d: u32) -> (s: &'static str)
    requires
        d < 16,
    ensures
        s@ == seq![digit_char(d as int)],
{
    proof {
        reveal_strlit("0");
        reveal_strlit("1");
        reveal_strlit("2");
        reveal_strlit("3");
        reveal_strlit("4");
        reveal_strlit("5");
        reveal_strlit("6");
        reveal_strlit("7");
        reveal_strlit("8");
        reveal_strlit("9");
        reveal_strlit("a");
        reveal_strlit("b");
        reveal_strlit("c");
        reveal_strlit("d");
        reveal_strlit("e");
        reveal_strlit("f");
    }
    match d {
        0 => "0",
        1 => "1",
        2 => "2",
        3 => "3",
        4 => "4",
        5 => "5",
        6 => "6",
        7 => "7",
        8 => "8",
        9 => "9",
        10 => "a",
        11 => "b",
        12 => "c",
        13 => "d",
        14 => "e",
        _ => "f",
    }
}

/// Appends the last `width` digits of `n` in base `radix`.
pub(crate) fn push_fixed(out: &mut String, n: u32, radix: u32, width: u32)
    requires
        2 <= radix <= 16,
    ensures
        final(out)@ == old(out)@ + fixed(n as int, radix as int, width as nat),
    decreases width,
{
    if width > 0 {
        push_fixed(out, n / radix, radix, width - 1);
        out.append(digit_str(n % radix));
    }
}

/// Appends `n` in decimal.
pub(crate) fn push_decimal(out: &mut String, n: u64)
    ensures
        final(out)@ == old(out)@ + decimal(n as nat),
    decreases n,
{
    if n >= 10 {
        push_decimal(out, n / 10);
    }
    out.append(digit_str((n % 10) as u32));
}

/// Appends `n` in decimal, with its sign when it is negative.
pub(crate) fn push_signed_decimal(out: &mut String, n: i32)
    ensures
        final(out)@ == old(out)@ + signed_decimal(n as int),
{
    if n < 0 {
        proof {
            reveal_strlit("-");
        }
        out.append("-");
        push_decimal(out, (-(n as i64)) as u64);
    } else {
        push_decimal(out, n as u64);
    }
}

/// Appends `s` with spaces in front up to `width` characters.
pub(crate) fn push_right_aligned(out: &mut String, s: &str, width: usize)
    ensures
        final(out)@ == old(out)@ + right_aligned(s@, width as nat),
{
    let len: usize = s.unicode_len();
    let ghost start = out@;
    let mut i: usize = len;
    while i < width
        invariant
            len == s@.len(),
            len <= i,
            i <= width || i == len,
            out@ == start + Seq::new((i - len) as nat, |i: int| ' '),
        decreases width - i,
    {
        proof {
            reveal_strlit(" ");
        }
        out.append(" ");
        i = i + 1;
    }
    out.append(s);
}

// ── Reading the text back ───────────────────────────────────────────────────

/// The number that a digit stands for, by its character code.
pub open spec fn digit_number(c: char) -> int {
    if c as int <= 57 {
        c as int - 48
    } else {
        c as int - 87
    }
}

/// Whether `c` is one of `0` to `9` and `a` to `f`.
pub open spec fn is_digit(c: char) -> bool {
    48 <= c as int <= 57 || 97 <= c as int <= 102
}

/// The number that digits stand for in base `radix`.
pub open spec fn digits_number(s: Seq<char>, radix: int) -> int
    decreases s.len(),
{
    if s.len() == 0 {
        0
    } else {
        radix * digits_number(s.drop_last(), radix) + digit_number(s.last())
    }
}

/// `s` without the spaces at its start.
pub open spec fn without_spaces(s: Seq<char>) -> Seq<char>
    decreases s.len(),
{
    if s.len() > 0 && s[0] == ' ' {
        without_spaces(s.skip(1))
    } else {
        s
    }
}

/// Whether `s` is made of digits of base `radix` that stand for `n`.
pub open spec fn shows_digits(s: Seq<char>, radix: int, n: int) -> bool {
    &&& s.len() > 0
    &&& forall|i: int|
        0 <= i < s.len() ==> is_digit(#[trigger] s[i]) && digit_number(s[i]) < radix
    &&& digits_number(s, radix) == n
}

/// Whether `s` is the number `n` in decimal: a minus sign exactly if it is
/// negative, then its digits, of which the first is a zero only in `0`.
pub open spec fn shows(s: Seq<char>, n: int) -> bool {
    if n < 0 {
        &&& s.len() > 1
        &&& s[0] == '-'
        &&& s[1] != '0'
        &&& shows_digits(s.skip(1), 10, -n)
    } else {
        &&& shows_digits(s, 10, n)
        &&& s[0] == '0' ==> s.len() == 1
    }
}

/// A digit is written so that it reads back.
pub proof fn law_digit(d: int)
    requires
        0 <= d < 16,
    ensures
        is_digit(digit_char(d)),
        digit_number(digit_char(d)) == d,
{
}

/// A number that fits in a fixed width is written with that many digits of the
/// base, and they read back as the number.
pub proof fn law_fixed_reads_back(n: int, radix: int, width: nat)
    requires
        2 <= radix <= 16,
        0 <= n < vstd::arithmetic::power::pow(radix, width),
    ensures
        fixed(n, radix, width).len() == width,
        width > 0 ==> shows_digits(fixed(n, radix, width), radix, n),
        width == 0 ==> n == 0,
    decreases width,
{
    reveal(vstd::arithmetic::power::pow);
    if width > 0 {
        let p = vstd::arithmetic::power::pow(radix, (width - 1) as nat);
        let q = n / radix;
        let r = n % radix;
        vstd::arithmetic::div_mod::lemma_fundamental_div_mod(n, radix);
        assert(0 <= r < radix && 0 <= q < p) by (nonlinear_arith)
            requires
                2 <= radix,
                0 <= n < radix * p,
                q == n / radix,
                r == n % radix,
        ;
        law_fixed_reads_back(q, radix, (width - 1) as nat);
        law_digit(r);
        let head = fixed(q, radix, (width - 1) as nat);
        assert(fixed(n, radix, width).drop_last() =~= head);
        assert forall|i: int| 0 <= i < width implies is_digit(
            #[trigger] fixed(n, radix, width)[i],
        ) && digit_number(fixed(n, radix, width)[i]) < radix by {
            if i < width - 1 {
                assert(is_digit(head[i]));
            }
        }
        reveal_with_fuel(digits_number, 2);
        assert(digits_number(head, radix) == q);
    }
}

/// The widths and bases that are in use: two and four hexadecimal digits, eight
/// binary ones.
pub proof fn law_fixed_widths(byte: u8, word: u16)
    ensures
        fixed(byte as int, 16, 2).len() == 2,
        shows_digits(fixed(byte as int, 16, 2), 16, byte as int),
        fixed(word as int, 16, 4).len() == 4,
        shows_digits(fixed(word as int, 16, 4), 16, word as int),
        fixed(byte as int, 2, 8).len() == 8,
        shows_digits(fixed(byte as int, 2, 8), 2, byte as int),
{
    reveal_with_fuel(vstd::arithmetic::power::pow, 9);
    assert(vstd::arithmetic::power::pow(16, 2) == 256);
    assert(vstd::arithmetic::power::pow(16, 4) == 65536);
    assert(vstd::arithmetic::power::pow(2, 8) == 256);
    law_fixed_reads_back(byte as int, 16, 2);
    law_fixed_reads_back(word as int, 16, 4);
    law_fixed_reads_back(byte as int, 2, 8);
}

/// A decimal reads back as its number, and has no leading zero.
pub proof fn law_decimal_reads_back(n: nat)
    ensures
        decimal(n).len() > 0,
        digits_number(decimal(n), 10) == n,
        forall|i: int| 0 <= i < decimal(n).len() ==> 48 <= #[trigger] decimal(n)[i] as int <= 57,
        decimal(n)[0] == '0' <==> n == 0,
        decimal(n).len() == 1 <==> n < 10,
    decreases n,
{
    law_digit(n as int % 10);
    if n < 10 {
        assert(decimal(n).drop_last() =~= Seq::empty());
        reveal_with_fuel(digits_number, 2);
    } else {
        law_decimal_reads_back(n / 10);
        let head = decimal(n / 10);
        assert(decimal(n).drop_last() =~= head);
        assert forall|i: int| 0 <= i < decimal(n).len() implies 48 <= #[trigger] decimal(
            n,
        )[i] as int <= 57 by {
            if i < head.len() {
                assert(decimal(n)[i] == head[i]);
            }
        }
        assert(decimal(n)[0] == head[0]);
    }
}

/// A text is aligned by spaces in front of it, and by nothing else.
pub proof fn law_right_aligned(s: Seq<char>, width: nat)
    ensures
        ({
            let t = right_aligned(s, width);
            &&& t.len() >= s.len()
            &&& t.len() == if s.len() < width {
                width
            } else {
                s.len()
            }
            &&& t.skip(t.len() - s.len()) == s
            &&& forall|i: int| 0 <= i < t.len() - s.len() ==> #[trigger] t[i] == ' '
        }),
{
    let t = right_aligned(s, width);
    assert(t.skip(t.len() - s.len()) =~= s);
}

/// Spaces in front are dropped again, whatever follows them.
proof fn lemma_without_spaces(t: Seq<char>, k: int)
    requires
        0 <= k <= t.len(),
        forall|i: int| 0 <= i < k ==> #[trigger] t[i] == ' ',
        k < t.len() ==> t[k] != ' ',
    ensures
        without_spaces(t) == t.skip(k),
    decreases k,
{
    if k == 0 {
        assert(t.skip(0) =~= t);
    } else {
        assert(t[0] == ' ');
        let u = t.skip(1);
        assert forall|i: int| 0 <= i < k - 1 implies #[trigger] u[i] == ' ' by {
            assert(u[i] == t[i + 1]);
        }
        lemma_without_spaces(u, k - 1);
        assert(u.skip(k - 1) =~= t.skip(k));
    }
}

/// A number shows as itself, with its sign, aligned to any width or not at all.
pub proof fn law_number_shows(n: int, width: nat)
    ensures
        shows(signed_decimal(n), n),
        shows(without_spaces(right_aligned(signed_decimal(n), width)), n),
        n >= 0 ==> shows(decimal(n as nat), n),
        n >= 0 ==> shows(without_spaces(right_aligned(decimal(n as nat), width)), n),
{
    let s = signed_decimal(n);
    let size = (if n < 0 {
        -n
    } else {
        n
    }) as nat;
    law_decimal_reads_back(size);
    assert(shows_digits(decimal(size), 10, size as int));
    if n < 0 {
        assert(s.skip(1) =~= decimal(size));
        assert(s[1] == decimal(size)[0]);
    }
    let t = right_aligned(s, width);
    law_right_aligned(s, width);
    assert(t.skip(t.len() - s.len())[0] == s[0]);
    lemma_without_spaces(t, t.len() - s.len());
}

/// A number below 100 has at most two digits, one below 1000 at most three, one
/// below 100000 at most five.
pub proof fn lemma_decimal_len(n: nat)
    ensures
        n < 100 ==> decimal(n).len() <= 2,
        n < 1000 ==> decimal(n).len() <= 3,
        n < 100000 ==> decimal(n).len() <= 5,
{
    reveal_with_fuel(decimal, 6);
}

/// The columns in use are wide enough: three for a byte, six for a signed
/// 16-bit number.
pub proof fn law_columns(byte: u8, word: i16)
    ensures
        right_aligned(decimal(byte as nat), 3).len() == 3,
        right_aligned(signed_decimal(word as int), 6).len() == 6,
{
    lemma_decimal_len(byte as nat);
    lemma_decimal_len(
        if word < 0 {
            (-word) as nat
        } else {
            word as nat
        },
    );
}

/// The contents of a list are those of its strings, one by one.
pub proof fn law_contents(lines: Seq<String>, i: int)
    requires
        0 <= i < lines.len(),
    ensures
        contents(lines).len() == lines.len(),
        contents(lines)[i] == lines[i]@,
{
}

} // verus!
